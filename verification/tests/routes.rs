use shaarlot::query::Params;
use shaarlot::routes::{
    login_destination, protected_redirect, should_navigate, split_redirect, Destination,
    QueryKind, Route,
};

#[test]
fn paths() {
    assert_eq!(Route::Index.to_path(), "/");
    assert_eq!(Route::Bookmarks.to_path(), "/bookmarks");
    assert_eq!(Route::AddBookmark.to_path(), "/bookmarks/~add");
    assert_eq!(Route::ViewBookmark { id: 42 }.to_path(), "/bookmarks/42");
    assert_eq!(Route::DeleteBookmark { id: -7 }.to_path(), "/bookmarks/-7/~delete");
    assert_eq!(Route::EditBookmark { id: 0 }.to_path(), "/bookmarks/0/~edit");
    assert_eq!(Route::EditBookmark { id: i32::MIN }.to_path(), "/bookmarks/-2147483648/~edit");
    assert_eq!(Route::TagCloud.to_path(), "/tags");
    assert_eq!(Route::ToolImportShaarliApi.to_path(), "/tools/shaarli-api-import");
    assert_eq!(
        Route::RecoverPasswordForm { id: "abc".to_string() }.to_path(),
        "/recover-password/abc"
    );
    assert_eq!(
        Route::ValidateEmail { uuid: 0x67e5_5044_10b1_426f_9247_bb68_0e5f_e0c8 }.to_path(),
        "/email/67e55044-10b1-426f-9247-bb680e5fe0c8/~validate"
    );
    assert_eq!(Route::NotFound.to_path(), "/404");
}

#[test]
fn query_kinds() {
    assert_eq!(Route::Bookmarks.query_kind(), QueryKind::Bookmarks);
    assert_eq!(Route::AddBookmark.query_kind(), QueryKind::AddBookmark);
    assert_eq!(Route::Login.query_kind(), QueryKind::Nothing);
}

#[test]
fn redirect_split() {
    assert_eq!(
        split_redirect("/bookmarks?page=2&tags=a"),
        ("/bookmarks".to_string(), Some("page=2&tags=a".to_string()))
    );
    assert_eq!(split_redirect("/tools"), ("/tools".to_string(), None));
    assert_eq!(split_redirect("/a?b?c"), ("/a".to_string(), Some("b?c".to_string())));
}

#[test]
fn protected_pages_redirect_to_login() {
    assert_eq!(protected_redirect(true, &Route::Tools, "?x=1"), None);
    assert_eq!(
        protected_redirect(false, &Route::Bookmarks, "?page=2"),
        Some("/bookmarks?page=2".to_string())
    );
    assert_eq!(protected_redirect(false, &Route::Profile, ""), Some("/profile".to_string()));
}

#[test]
fn destination_after_login() {
    assert!(matches!(login_destination(None), Destination::Index));
    match login_destination(Some("/bookmarks/~add?url=x")) {
        Destination::Redirect { path, query } => {
            assert_eq!(path, "/bookmarks/~add");
            assert_eq!(query, Some("url=x".to_string()));
        },
        Destination::Index => panic!("expected a redirect"),
    }
}

#[test]
fn navigation_decision() {
    let p = Params::default();
    assert!(should_navigate("/tags", &Route::Bookmarks, Some(&p), &p));
    assert!(should_navigate("/bookmarks", &Route::Bookmarks, None, &p));
    assert!(!should_navigate("/bookmarks", &Route::Bookmarks, Some(&p), &p));
    let q = Params { page: Some(1), ..Params::default() };
    assert!(should_navigate("/bookmarks", &Route::Bookmarks, Some(&p), &q));
}
