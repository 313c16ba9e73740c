use shaarlot::eventually::Eventually;
use shaarlot::provider::{
    fetch_query, filter_class, page_size_class, page_size_options, trigger_update, Fetch, State,
    Update,
};
use shaarlot::query::{Filter, Order, Params};

fn strings(v: &[&str]) -> Vec<String> {
    v.iter().map(|s| s.to_string()).collect()
}

#[test]
fn default_state() {
    let s = State::default();
    assert_eq!(s.order, Order::CreationDateDesc);
    assert_eq!(s.page, 0);
    assert_eq!(s.page_size, 20);
    assert!(s.tags.is_empty());
    assert!(s.data.is_none());
    assert!(s.stats.is_none());
}

#[test]
fn state_from_params_and_back() {
    let p = Params {
        page: Some(3),
        page_size: Some(50),
        tags: Some(strings(&["a", "b"])),
        search_terms: None,
        order: Some(Order::CreationDateAsc),
        filter: None,
    };
    let s = State::from_params(Some(&p));
    assert_eq!(s.page, 3);
    assert_eq!(s.page_size, 50);
    assert_eq!(s.tags, strings(&["a", "b"]));
    assert_eq!(s.order, Order::CreationDateAsc);
    let back = Params::from_state(&s);
    assert!(back.same_as(&p));
}

#[test]
fn defaults_are_left_out_of_params() {
    let p = Params {
        page: Some(0),
        page_size: Some(20),
        tags: Some(vec![]),
        search_terms: None,
        order: Some(Order::CreationDateDesc),
        filter: None,
    };
    let back = Params::from_state(&State::from_params(Some(&p)));
    assert!(back.same_as(&Params::default()));
}

#[test]
fn fetch_order_stats_then_bookmarks() {
    let mut s = State::default();
    assert_eq!(s.next_fetch(), Fetch::Stats);
    assert_eq!(s.stats, Eventually::Loading);
    assert_eq!(s.next_fetch(), Fetch::Nothing);
    s.on_stats_loaded(10, 3);
    assert_eq!(s.links(), 10);
    assert_eq!(s.private_links(), 3);
    assert_eq!(s.next_fetch(), Fetch::Bookmarks);
    assert!(matches!(s.data, Eventually::Loading));
    assert_eq!(s.next_fetch(), Fetch::Nothing);
    s.on_bookmarks_loaded(vec![], 4);
    assert!(s.data.is_some());
}

#[test]
fn paging() {
    let mut s = State::default();
    s.on_bookmarks_loaded(vec![], 3);
    let n = s.on_next();
    assert_eq!(n.page, 1);
    let mut at_last = State::default();
    at_last.page = 2;
    at_last.on_bookmarks_loaded(vec![], 3);
    assert_eq!(at_last.on_next().page, 2);
    assert_eq!(at_last.on_previous().page, 1);
    assert_eq!(State::default().on_previous().page, 0);
    assert_eq!(State::default().on_next().page, 0);
}

#[test]
fn changes_reset_page_and_data() {
    let mut s = State::default();
    s.page = 5;
    s.on_stats_loaded(1, 0);
    s.on_bookmarks_loaded(vec![], 9);
    let o = s.on_change_order(Order::CreationDateAsc);
    assert_eq!(o.page, 0);
    assert_eq!(o.order, Order::CreationDateAsc);
    assert!(o.data.is_none());
    assert!(o.stats.is_some());
    let z = s.on_change_page_size(100);
    assert_eq!(z.page, 0);
    assert_eq!(z.page_size, 100);
    let t = s.on_change_tags(strings(&["x"]));
    assert_eq!(t.tags, strings(&["x"]));
    assert_eq!(t.page, 5);
}

#[test]
fn selecting_a_tag_adds_it_once() {
    let mut s = State::default();
    s.tags = strings(&["a"]);
    assert!(s.on_select_tag_filter("a".to_string()).is_none());
    let n = s.on_select_tag_filter("b".to_string()).unwrap();
    assert_eq!(n.tags, strings(&["a", "b"]));
}

#[test]
fn params_change_rebuilds_loaded_state() {
    let mut s = State::default();
    s.on_stats_loaded(5, 1);
    s.on_params_changed(None);
    assert_eq!(s.links(), 5);
    s.on_bookmarks_loaded(vec![], 2);
    let p = Params { page: Some(1), ..Params::default() };
    s.on_params_changed(Some(&p));
    assert_eq!(s.page, 1);
    assert!(s.data.is_none());
    assert_eq!(s.links(), 5);
}

#[test]
fn update_goes_to_owner_or_to_list() {
    let mut s = State::default();
    s.page = 2;
    match trigger_update(true, s) {
        Update::Navigate(p) => assert_eq!(p.page, Some(2)),
        Update::Replace(_) => panic!("expected navigation"),
    }
    match trigger_update(false, State::default()) {
        Update::Replace(s) => assert_eq!(s.page, 0),
        Update::Navigate(_) => panic!("expected replacement"),
    }
}

#[test]
fn fetch_query_encodes_tags() {
    let mut s = State::default();
    s.page = 12;
    s.page_size = 50;
    s.order = Order::CreationDateAsc;
    s.tags = strings(&["a b", "c++", "été"]);
    let q = fetch_query(&s);
    assert_eq!(
        q,
        vec![
            ("order".to_string(), "creation_date:asc".to_string()),
            ("page".to_string(), "12".to_string()),
            ("count".to_string(), "50".to_string()),
            ("tags".to_string(), "a%20b+c%2B%2B+%C3%A9t%C3%A9".to_string()),
        ]
    );
    let e = fetch_query(&State::default());
    assert_eq!(e[1].1, "0");
    assert_eq!(e[3].1, "");
}

#[test]
fn page_size_and_filter_styles() {
    assert_eq!(page_size_options(), [20, 50, 100]);
    assert_eq!(page_size_class(20, 20), "bookmarks__page-size-item--selected");
    assert_eq!(page_size_class(20, 50), "bookmarks__page-size-item");
    assert_eq!(filter_class(Some(Filter::Private), Filter::Private), "bookmarks__filter-item--selected");
    assert_eq!(filter_class(None, Filter::Private), "bookmarks__filter-item");
}
