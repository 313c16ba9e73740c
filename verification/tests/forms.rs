use shaarlot::account_forms::{
    validation_status, AfterSignup, ImportOutcome, ImportState, ImportStatus, LoginOutcome,
    LoginState, NewPasswordOutcome, NewPasswordState, NewPasswordStatus, PasswordFlags,
    ProfileMessage, ProfileOutcome, ProfileState, ProfileStatus, RecoverOutcome, RecoverState,
    RecoverStatus, SignupOutcome, SignupState, ValidationOutcome, ValidationStatus,
};
use shaarlot::bookmark_forms::{
    button_class, can_change, delete_error, pin_request, AfterAnswer, CreateState, CreateSubmit,
    EditState, FormError, Step, StoreOutcome, UrlInfo,
};
use shaarlot::bookmark_list::{Order as ListOrder, State as ListState};
use shaarlot::data::{Access, Bookmark, CreateBookmarkRequest, UpdateBookmarkRequest};
use shaarlot::routes::Destination;

#[test]
fn create_bookmark_flow() {
    let mut s = CreateState::default();
    assert_eq!(s.take_focus(), Some(Step::Init));
    assert_eq!(s.take_focus(), None);
    s.on_input_url("https://example.org/a b");
    match s.on_submit() {
        CreateSubmit::LookUp(u) => assert_eq!(u, "https%3A%2F%2Fexample.org%2Fa%20b"),
        _ => panic!("expected a look-up"),
    }
    assert!(matches!(s.on_submit(), CreateSubmit::Ignored));
    s.on_url_info(Some(UrlInfo {
        url: "https://example.org/a%20b".to_string(),
        title: Some("Example".to_string()),
        description: None,
    }));
    assert_eq!(s.step, Step::Details);
    assert!(!s.in_progress);
    assert_eq!(s.take_focus(), Some(Step::Details));
    assert_eq!(s.bookmark.title, Some("Example".to_string()));
    s.on_input_description("");
    assert_eq!(s.bookmark.description, None);
    s.on_update_tags(vec!["t".to_string()]);
    s.on_toggle_private();
    assert!(!s.bookmark.private);
    match s.on_submit() {
        CreateSubmit::Create(r) => {
            assert_eq!(r.url, "https://example.org/a%20b");
            assert_eq!(r.tags, Some(vec!["t".to_string()]));
            assert_eq!(r.private, Some(false));
        },
        _ => panic!("expected a creation"),
    }
    assert_eq!(s.on_create_answer(StoreOutcome::Other), AfterAnswer::Stay);
    assert_eq!(s.error, Some(FormError::Other));
    assert!(!s.in_progress);
    s.on_submit();
    assert_eq!(s.on_create_answer(StoreOutcome::Forbidden), AfterAnswer::Stay);
    assert_eq!(s.error, Some(FormError::Forbidden));
    assert!(!s.in_progress);
    assert_eq!(s.on_create_answer(StoreOutcome::Success), AfterAnswer::GoToBookmarks);
}

#[test]
fn editing_the_url_goes_back_to_first_step() {
    let mut s = CreateState::default();
    s.on_url_info(None);
    assert_eq!(s.step, Step::Details);
    s.on_input_url("x");
    assert_eq!(s.step, Step::Init);
    s.on_input_title("T");
    assert_eq!(s.bookmark.title, Some("T".to_string()));
}

#[test]
fn edit_bookmark_flow() {
    let mut b = Bookmark::default();
    b.access = Access::Write;
    assert!(can_change(b.access));
    assert!(!can_change(Access::Read));
    let mut s = EditState::new(b);
    assert!(s.take_focus());
    assert!(!s.take_focus());
    s.on_input_url("u");
    s.on_input_title("");
    s.on_input_description("d");
    s.on_update_tags(vec!["x".to_string()]);
    let r = s.on_submit();
    assert_eq!(r.url, "u");
    assert_eq!(r.title, None);
    assert_eq!(r.description, Some("d".to_string()));
    assert_eq!(r.tags, vec!["x".to_string()]);
    assert_eq!(s.on_update_answer(StoreOutcome::NotFound), AfterAnswer::Stay);
    assert_eq!(s.error, Some(FormError::NotFound));
    assert_eq!(s.on_update_answer(StoreOutcome::Success), AfterAnswer::GoToBookmarks);
}

#[test]
fn delete_answers_and_pin() {
    assert_eq!(delete_error(StoreOutcome::Success), None);
    assert_eq!(delete_error(StoreOutcome::Forbidden), Some(FormError::Forbidden));
    assert_eq!(delete_error(StoreOutcome::NotFound), Some(FormError::NotFound));
    assert_eq!(delete_error(StoreOutcome::Other), Some(FormError::Other));
    let b = Bookmark::default();
    let r: UpdateBookmarkRequest = pin_request(&b, false);
    assert!(r.pinned);
    assert!(!pin_request(&b, true).pinned);
    let c = CreateBookmarkRequest::from_bookmark(&b);
    assert_eq!(c.private, Some(true));
    assert_eq!(button_class(true), "button--disabled");
    assert_eq!(button_class(false), "button--action");
}

#[test]
fn login_flow() {
    let mut s = LoginState::new();
    s.username = "bob".to_string();
    s.password = "pw".to_string();
    let q = s.on_submit().unwrap();
    assert_eq!(q.username, "bob");
    assert_eq!(q.password, "pw");
    assert!(s.on_submit().is_none());
    assert!(s.on_answer(LoginOutcome::InvalidCredentials, None).is_none());
    assert!(s.error.is_some());
    assert!(!s.in_progress);
    let ok = s.on_answer(LoginOutcome::Success, Some("/tags")).unwrap();
    assert_eq!(ok.username, "bob");
    match ok.destination {
        Destination::Redirect { path, query } => {
            assert_eq!(path, "/tags");
            assert_eq!(query, None);
        },
        Destination::Index => panic!("expected a redirect"),
    }
    let home = s.on_answer(LoginOutcome::Success, None).unwrap();
    assert!(matches!(home.destination, Destination::Index));
}

#[test]
fn import_flow() {
    let mut s = ImportState {
        status: ImportStatus::Default,
        api_url: "https://shaarli".to_string(),
        api_key: "k".to_string(),
    };
    let r = s.on_submit().unwrap();
    assert_eq!(r.url, "https://shaarli");
    assert_eq!(r.key, "k");
    assert!(s.on_submit().is_none());
    assert_eq!(s.on_answer(ImportOutcome::ShaarliError), AfterAnswer::Stay);
    assert_eq!(s.status, ImportStatus::ShaarliError);
    assert_eq!(s.on_answer(ImportOutcome::Other), AfterAnswer::Stay);
    assert_eq!(s.status, ImportStatus::GenericError);
    assert_eq!(s.on_answer(ImportOutcome::Forbidden), AfterAnswer::Stay);
    assert_eq!(s.status, ImportStatus::Forbidden);
    assert_eq!(s.on_answer(ImportOutcome::Success), AfterAnswer::GoToBookmarks);
}

#[test]
fn recover_password_flow() {
    let mut s = RecoverState { status: RecoverStatus::Default, username_or_email: String::new() };
    assert!(s.on_submit().is_none());
    assert_eq!(s.status, RecoverStatus::ClientError);
    s.username_or_email = "bob".to_string();
    assert_eq!(s.on_submit(), Some("bob".to_string()));
    assert!(s.on_submit().is_none());
    s.on_answer(RecoverOutcome::ServerError);
    assert_eq!(s.status, RecoverStatus::ServerError);
    s.on_answer(RecoverOutcome::Success);
    assert_eq!(s.status, RecoverStatus::Success);
    s.on_answer(RecoverOutcome::Other);
    assert_eq!(s.status, RecoverStatus::Default);
}

#[test]
fn new_password_flow() {
    let mut s = NewPasswordState {
        password: "Aa1!aaaa".to_string(),
        password_verif: "Aa1!aaaa".to_string(),
        password_flags: PasswordFlags::default(),
        status: NewPasswordStatus::Default,
    };
    assert!(s.on_submit().is_none());
    s.on_checked(PasswordFlags::valid());
    let p = s.on_submit().unwrap();
    assert_eq!(p.password, "Aa1!aaaa");
    assert!(s.on_submit().is_none());
    s.on_answer(NewPasswordOutcome::NotImplemented);
    assert_eq!(s.status, NewPasswordStatus::NotAvailable);
    s.on_answer(NewPasswordOutcome::InvalidToken);
    assert_eq!(s.status, NewPasswordStatus::InvalidToken);
}

#[test]
fn profile_flow() {
    let mut s = ProfileState::new();
    assert!(s.password_flags.is_valid());
    s.on_loaded(Some("a@b.c".to_string()));
    assert_eq!(s.email, "a@b.c");
    s.new_password = "x".to_string();
    s.on_checked(PasswordFlags::default());
    assert!(!s.password_flags.is_valid());
    assert!(s.on_submit().is_none());
    s.new_password = String::new();
    s.on_checked(PasswordFlags::default());
    assert!(s.password_flags.is_valid());
    let r = s.on_submit().unwrap();
    assert_eq!(r.email, "a@b.c");
    assert_eq!(r.new_password, None);
    assert_eq!(s.status, ProfileStatus::InProgress);
    assert_eq!(s.email, "a@b.c");
    assert_eq!(s.new_password, "");
    assert!(s.password_flags.is_valid());
    assert!(s.message.is_none());
    s.new_password = "n".to_string();
    s.on_answer(ProfileOutcome::InvalidCurrentPassword);
    assert_eq!(s.new_password, "");
    assert_eq!(s.message, Some(ProfileMessage::InvalidCurrentPassword));
    assert_eq!(s.status, ProfileStatus::Default);
    s.on_answer(ProfileOutcome::Success);
    assert_eq!(s.message, Some(ProfileMessage::Success));
}

#[test]
fn signup_flow() {
    let mut s = SignupState {
        email: "e".to_string(),
        username: "u".to_string(),
        password: "p".to_string(),
        password_verif: "p".to_string(),
        in_progress: false,
        password_flags: PasswordFlags::valid(),
        error: None,
    };
    let r = s.on_submit().unwrap();
    assert_eq!(r.username, "u");
    assert!(s.in_progress);
    assert_eq!(s.email, "e");
    assert_eq!(s.username, "u");
    assert_eq!(s.password, "p");
    assert_eq!(s.password_verif, "p");
    assert!(s.password_flags.is_valid());
    assert!(s.error.is_none());
    assert!(s.on_submit().is_none());
    assert_eq!(s.on_answer(SignupOutcome::InvalidPassword), AfterSignup::FocusPassword);
    assert_eq!(s.password, "");
    assert_eq!(s.password_verif, "");
    assert_eq!(s.password_flags, PasswordFlags::default());
    assert_eq!(s.email, "e");
    assert!(s.on_submit().is_none());
    assert_eq!(s.on_answer(SignupOutcome::Success), AfterSignup::GoToLogin);
}

#[test]
fn email_validation() {
    assert_eq!(validation_status(None), ValidationStatus::Loading);
    assert_eq!(validation_status(Some(ValidationOutcome::Success)), ValidationStatus::Success);
    assert_eq!(
        validation_status(Some(ValidationOutcome::InvalidToken)),
        ValidationStatus::InvalidToken
    );
    assert_eq!(validation_status(Some(ValidationOutcome::Other)), ValidationStatus::Loading);
}

#[test]
fn plain_list_order_and_loading() {
    assert_eq!(ListOrder::default(), ListOrder::Desc);
    assert_eq!(ListOrder::Asc.invert(), ListOrder::Desc);
    assert_eq!(ListOrder::Desc.icon(), "expand_more");
    assert_eq!(ListOrder::Asc.request_param(), "creation_date:asc");
    let mut s = ListState::default();
    assert!(s.start_loading());
    assert!(!s.start_loading());
    s.on_loaded(vec![]);
    assert!(!s.loading);
    assert!(!s.start_loading());
    let n = ListState::on_change_order(ListOrder::Asc);
    assert!(n.bookmarks.is_none());
}
