use shaarlot::data::Bookmark;
use shaarlot::provider::{page_or_empty, stats_or_zero, Data, Stats};
use shaarlot::routes::Route;
use shaarlot::url::{decimal_string, parse_i32};

fn route_of(path: &str) -> Route {
    Route::recognize(path).expect("every path names a page")
}

fn chars(s: &str) -> Vec<char> {
    s.chars().collect()
}

#[test]
fn recognize_fixed_pages() {
    assert!(matches!(route_of("/"), Route::Index));
    assert!(matches!(route_of(""), Route::Index));
    assert!(matches!(route_of("/bookmarks"), Route::Bookmarks));
    assert!(matches!(route_of("/bookmarks/"), Route::Bookmarks));
    assert!(matches!(route_of("/bookmarks/~add"), Route::AddBookmark));
    assert!(matches!(route_of("/tags"), Route::TagCloud));
    assert!(matches!(route_of("/tools"), Route::Tools));
    assert!(matches!(route_of("/tools/shaarli-api-import"), Route::ToolImportShaarliApi));
    assert!(matches!(route_of("/signup"), Route::SignupForm));
    assert!(matches!(route_of("/signup/success"), Route::SignupSuccess));
    assert!(matches!(route_of("/login"), Route::Login));
    assert!(matches!(route_of("/recover-password"), Route::RecoverPasswordStart));
    assert!(matches!(route_of("/profile"), Route::Profile));
    assert!(matches!(route_of("/logout"), Route::Logout));
}

#[test]
fn recognize_pages_with_parameters() {
    assert!(matches!(route_of("/bookmarks/12"), Route::ViewBookmark { id: 12 }));
    assert!(matches!(route_of("/bookmarks/-3/~delete"), Route::DeleteBookmark { id: -3 }));
    assert!(matches!(route_of("/bookmarks/7/~edit"), Route::EditBookmark { id: 7 }));
    match route_of("/recover-password/tok-1") {
        Route::RecoverPasswordForm { id } => assert_eq!(id, "tok-1"),
        _ => panic!("expected the password recovery form"),
    }
    assert!(matches!(
        route_of("/email/67e55044-10b1-426f-9247-bb680e5fe0c8/~validate"),
        Route::ValidateEmail { uuid: 0x67e5_5044_10b1_426f_9247_bb68_0e5f_e0c8 }
    ));
}

#[test]
fn recognize_unknown_paths() {
    assert!(matches!(route_of("/bookmarks/abc"), Route::NotFound));
    assert!(matches!(route_of("/bookmarks/2147483648"), Route::NotFound));
    assert!(matches!(route_of("/email/not-a-uuid/~validate"), Route::NotFound));
    assert!(matches!(route_of("/nowhere"), Route::NotFound));
    assert!(matches!(route_of("/bookmarks/1/~other"), Route::NotFound));
    assert!(matches!(route_of("/a/b/c/d"), Route::NotFound));
    assert!(matches!(route_of("/404"), Route::NotFound));
}

#[test]
fn recognize_reads_back_paths() {
    let routes = vec![
        Route::Index,
        Route::Bookmarks,
        Route::ViewBookmark { id: i32::MIN },
        Route::EditBookmark { id: i32::MAX },
        Route::RecoverPasswordForm { id: "xyz".to_string() },
        Route::ValidateEmail { uuid: 1 },
    ];
    for r in routes {
        let path = r.to_path();
        assert_eq!(route_of(&path).to_path(), path);
    }
}

#[test]
fn parse_numbers() {
    assert_eq!(parse_i32(&chars("42")), Some(42));
    assert_eq!(parse_i32(&chars("+5")), Some(5));
    assert_eq!(parse_i32(&chars("-0")), Some(0));
    assert_eq!(parse_i32(&chars("-2147483648")), Some(i32::MIN));
    assert_eq!(parse_i32(&chars("2147483647")), Some(i32::MAX));
    assert_eq!(parse_i32(&chars("2147483648")), None);
    assert_eq!(parse_i32(&chars("")), None);
    assert_eq!(parse_i32(&chars("-")), None);
    assert_eq!(parse_i32(&chars("1x")), None);
}

#[test]
fn decimal_forms() {
    assert_eq!(decimal_string(0), "0");
    assert_eq!(decimal_string(907), "907");
    assert_eq!(decimal_string(u64::MAX), "18446744073709551615");
}

#[test]
fn data_description() {
    let data = Data { pages_count: 3, bookmarks: vec![Bookmark::default(), Bookmark::default()] };
    assert_eq!(data.describe(), "Data { pages_count: 3, bookmarks.len(): 2 }");
}

#[test]
fn failed_requests_show_nothing() {
    assert_eq!(stats_or_zero(None), Stats { count_total: 0, count_private: 0 });
    let s = Stats { count_total: 9, count_private: 2 };
    assert_eq!(stats_or_zero(Some(s)), s);
    let (list, pages) = page_or_empty(None);
    assert!(list.is_empty());
    assert_eq!(pages, 0);
    let (list, pages) = page_or_empty(Some((vec![Bookmark::default()], 4)));
    assert_eq!(list.len(), 1);
    assert_eq!(pages, 4);
}
