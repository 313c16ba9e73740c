use shaarlot::query::{
    deserialize_tags, serialize_tags, Filter, Order, Params, QueryFilter, QueryOrder, QueryParams,
};

fn strings(v: &[&str]) -> Vec<String> {
    v.iter().map(|s| s.to_string()).collect()
}

#[test]
fn order_invert_icon_and_param() {
    assert_eq!(Order::CreationDateAsc.invert(), Order::CreationDateDesc);
    assert_eq!(Order::CreationDateDesc.invert(), Order::CreationDateAsc);
    assert_eq!(Order::CreationDateAsc.icon(), "expand_less");
    assert_eq!(Order::CreationDateDesc.icon(), "expand_more");
    assert_eq!(Order::CreationDateAsc.query_param(), "creation_date:asc");
    assert_eq!(Order::CreationDateDesc.query_param(), "creation_date:desc");
    assert_eq!(Order::default(), Order::CreationDateDesc);
}

#[test]
fn address_values_of_order_and_filter() {
    assert_eq!(QueryOrder::CreationDateDesc.as_query_value(), "creation_date:asc");
    assert_eq!(QueryOrder::CreationDateAsc.as_query_value(), "creation_date:desc");
    assert_eq!(
        QueryOrder::from_query_value("creation_date:asc"),
        Some(QueryOrder::CreationDateDesc)
    );
    assert_eq!(QueryOrder::from_query_value("nope"), None);
    assert_eq!(QueryFilter::Private.as_query_value(), "private");
    assert_eq!(QueryFilter::from_query_value("public"), Some(QueryFilter::Public));
    assert_eq!(QueryFilter::from_query_value("x"), None);
    assert_eq!(QueryOrder::from_order(Order::CreationDateAsc).to_order(), Order::CreationDateAsc);
    assert_eq!(QueryFilter::from_filter(Filter::Private).to_filter(), Filter::Private);
}

#[test]
fn tags_are_joined_with_spaces() {
    assert_eq!(serialize_tags(None), None);
    assert_eq!(serialize_tags(Some(&strings(&["a", "b", "c"]))), Some("a b c".to_string()));
    assert_eq!(serialize_tags(Some(&vec![])), Some(String::new()));
}

#[test]
fn tags_are_split_on_spaces() {
    assert_eq!(deserialize_tags("a b"), Some(strings(&["a", "b"])));
    assert_eq!(deserialize_tags(""), Some(strings(&[""])));
    assert_eq!(deserialize_tags("a  b "), Some(strings(&["a", "", "b", ""])));
}

#[test]
fn tags_round_trip() {
    let tags = strings(&["rust", "vérifié", "x"]);
    let text = serialize_tags(Some(&tags)).unwrap();
    assert_eq!(deserialize_tags(&text), Some(tags));
}

#[test]
fn params_round_trip_through_address_form() {
    let p = Params {
        page: Some(2),
        page_size: None,
        tags: Some(strings(&["a"])),
        search_terms: Some(strings(&["t"])),
        order: Some(Order::CreationDateAsc),
        filter: Some(Filter::Public),
    };
    let q = QueryParams::from_params(p.copy());
    assert_eq!(q.order, Some(QueryOrder::CreationDateAsc));
    assert_eq!(q.filter, Some(QueryFilter::Public));
    assert_eq!(q.terms, Some(strings(&["t"])));
    let back = Params::from_query(&q);
    assert!(back.same_as(&p));
    let mut other = p.copy();
    other.page = Some(3);
    assert!(!other.same_as(&p));
}
