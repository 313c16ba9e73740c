use shaarlot::data::{Bookmark, Tag};
use shaarlot::provider::tags_or_empty;
use shaarlot::routes::Route;
use shaarlot::shell::{
    account_pages, after_logout, menu_pages, nav_label, pinned_after_answer, shown_title,
    AppState, MenuState, QrCodeState,
};

#[test]
fn app_state_follows_the_session() {
    let mut app = AppState::new();
    assert!(!app.ready);
    assert!(!app.logged_in());
    app.on_started(None, Some(("abc123".to_string(), "2023-05-06".to_string())));
    assert!(app.ready);
    assert!(!app.logged_in());
    assert_eq!(app.commit.as_deref(), Some("abc123"));
    assert_eq!(app.build_date.as_deref(), Some("2023-05-06"));
    app.on_login("alice".to_string());
    assert_eq!(app.username.as_deref(), Some("alice"));
    app.on_logout();
    assert!(app.username.is_none());
    assert_eq!(app.commit.as_deref(), Some("abc123"));
}

#[test]
fn app_state_with_a_session() {
    let mut app = AppState::new();
    app.on_started(Some("bob".to_string()), None);
    assert!(app.logged_in());
    assert!(app.commit.is_none());
}

#[test]
fn footer_links_to_the_commit() {
    let mut app = AppState::new();
    assert_eq!(app.footer_link("https://example.org/repo"), "https://example.org/repo/tree/master");
    app.on_started(None, Some(("0f1e2d".to_string(), "today".to_string())));
    assert_eq!(app.footer_link("https://example.org/repo"), "https://example.org/repo/tree/0f1e2d");
}

#[test]
fn menu_folds_and_unfolds() {
    let mut menu = MenuState::new();
    assert_eq!(menu.submenu_class(), "menu__left-submenu");
    menu.on_toggle();
    assert!(menu.expanded);
    assert_eq!(menu.submenu_class(), "menu__left-submenu--expanded");
    let page = menu.on_choose(Route::TagCloud);
    assert!(!menu.expanded);
    assert!(matches!(page, Route::TagCloud));
    menu.on_toggle();
    menu.on_toggle();
    assert!(!menu.expanded);
}

#[test]
fn menu_lists_pages() {
    let pages: Vec<String> = menu_pages().iter().map(|r| r.to_path()).collect();
    assert_eq!(pages, vec!["/bookmarks", "/tags", "/bookmarks/~add", "/tools"]);
    let account: Vec<String> = account_pages(true).iter().map(|r| r.to_path()).collect();
    assert_eq!(account, vec!["/profile", "/logout"]);
    let account: Vec<String> = account_pages(false).iter().map(|r| r.to_path()).collect();
    assert_eq!(account, vec!["/login"]);
}

#[test]
fn protected_pages() {
    assert!(Route::AddBookmark.needs_login());
    assert!(Route::EditBookmark { id: 1 }.needs_login());
    assert!(Route::DeleteBookmark { id: 1 }.needs_login());
    assert!(Route::Tools.needs_login());
    assert!(Route::ToolImportShaarliApi.needs_login());
    assert!(Route::Profile.needs_login());
    assert!(!Route::Index.needs_login());
    assert!(!Route::Bookmarks.needs_login());
    assert!(!Route::ViewBookmark { id: 1 }.needs_login());
    assert!(!Route::Login.needs_login());
    assert!(!Route::TagCloud.needs_login());
}

#[test]
fn qr_code_overlay_opens_and_closes() {
    let mut qr = QrCodeState::default();
    assert!(!qr.overlay_open);
    qr.open();
    assert!(qr.overlay_open);
    qr.close();
    assert!(!qr.overlay_open);
}

#[test]
fn pager_label() {
    assert_eq!(nav_label(0, 5), "1 / 5");
    assert_eq!(nav_label(9, 10), "10 / 10");
    assert_eq!(nav_label(0, 0), "1 / 0");
}

#[test]
fn logout_steps() {
    let step = after_logout(true);
    assert!(step.notify);
    assert!(matches!(step.next, Route::Index));
    let step = after_logout(false);
    assert!(!step.notify);
    assert!(matches!(step.next, Route::Index));
}

#[test]
fn bookmark_card() {
    let mut b = Bookmark::default();
    b.url = "https://example.org".to_string();
    assert_eq!(shown_title(&b), "https://example.org");
    b.title = Some("Example".to_string());
    assert_eq!(shown_title(&b), "Example");
    assert!(pinned_after_answer(false, Some(true)));
    assert!(!pinned_after_answer(true, Some(false)));
    assert!(pinned_after_answer(true, None));
}

#[test]
fn tags_after_their_request() {
    assert!(tags_or_empty(None).is_empty());
    let tags = tags_or_empty(Some(vec![Tag { name: "rust".to_string(), count: 3 }]));
    assert_eq!(tags.len(), 1);
    assert_eq!(tags[0].name, "rust");
}
