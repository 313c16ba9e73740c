use shaarlot::account_forms::{
    ImportState, ImportStatus, NewPasswordState, NewPasswordStatus, PasswordFlags, RecoverState,
    RecoverStatus, SignupState,
};
use shaarlot::bookmark_forms::{CreateState, CreateSubmit, Step};
use shaarlot::data::Tag;
use shaarlot::shell::{date_display, tag_link};

#[test]
fn bookmarklet_fills_the_address() {
    let mut s = CreateState::from_query(Some("https://example.org/a b"));
    assert_eq!(s.bookmark.url, "https://example.org/a b");
    assert_eq!(s.step, Step::Init);
    assert!(!s.in_progress);
    assert!(s.error.is_none());
    match s.on_submit() {
        CreateSubmit::LookUp(u) => assert_eq!(u, "https%3A%2F%2Fexample.org%2Fa%20b"),
        _ => panic!("expected a look-up"),
    }
    let s = CreateState::from_query(None);
    assert_eq!(s.bookmark.url, "");
}

#[test]
fn forms_start_empty() {
    let s = SignupState::default();
    assert_eq!(s.email, "");
    assert_eq!(s.username, "");
    assert_eq!(s.password, "");
    assert!(!s.in_progress);
    assert_eq!(s.password_flags, PasswordFlags::default());
    assert!(s.error.is_none());
    let s = NewPasswordState::default();
    assert_eq!(s.password_verif, "");
    assert_eq!(s.status, NewPasswordStatus::Default);
    let s = RecoverState::default();
    assert_eq!(s.status, RecoverStatus::Default);
    assert_eq!(s.username_or_email, "");
    let s = ImportState::default();
    assert_eq!(s.status, ImportStatus::Default);
    assert_eq!(s.api_key, "");
}

#[test]
fn tag_cloud_links() {
    let t = Tag { name: "rust".to_string(), count: 2 };
    assert_eq!(tag_link(&t), "/bookmarks?tags=rust");
}

#[test]
fn bookmark_dates() {
    let d = date_display("May  6, 2023 at 10:00:00 CEST", None);
    assert_eq!(d.text, "May  6, 2023 at 10:00:00 CEST");
    assert!(d.hint.is_none());
    let d = date_display("May  6, 2023", Some("May  7, 2023"));
    assert_eq!(d.text, "May  6, 2023 *");
    assert_eq!(d.hint.as_deref(), Some("updated: May  7, 2023"));
}
