use shaarlot::eventually::Eventually;

#[test]
fn as_ref_keeps_state() {
    let e: Eventually<i32> = Eventually::Loaded(3);
    assert_eq!(e.as_ref(), Eventually::Loaded(&3));
    let l: Eventually<i32> = Eventually::Loading;
    assert_eq!(l.as_ref(), Eventually::Loading);
    let n: Eventually<i32> = Eventually::Empty;
    assert_eq!(n.as_ref(), Eventually::Empty);
}

#[test]
fn map_applies_only_to_loaded() {
    assert_eq!(Eventually::Loaded(2).map(|x| x * 10), Eventually::Loaded(20));
    assert_eq!(Eventually::<i32>::Loading.map(|x| x * 10), Eventually::Loading);
    assert_eq!(Eventually::<i32>::Empty.map(|x| x * 10), Eventually::Empty);
}

#[test]
fn unwrap_or_default_gives_default_until_loaded() {
    assert_eq!(Eventually::Loaded(7u64).unwrap_or_default(), 7);
    assert_eq!(Eventually::<u64>::Loading.unwrap_or_default(), 0);
    assert_eq!(Eventually::<u64>::Empty.unwrap_or_default(), 0);
    assert_eq!(Eventually::<String>::Empty.unwrap_or_default(), String::new());
}

#[test]
fn is_none_and_is_some() {
    assert!(Eventually::<u8>::Empty.is_none());
    assert!(!Eventually::<u8>::Loading.is_none());
    assert!(!Eventually::Loaded(1u8).is_none());
    assert!(Eventually::Loaded(1u8).is_some());
    assert!(!Eventually::<u8>::Loading.is_some());
    assert!(!Eventually::<u8>::Empty.is_some());
}

#[test]
fn default_is_empty() {
    let e: Eventually<u8> = Default::default();
    assert_eq!(e, Eventually::Empty);
}

#[test]
fn map_identity_and_composition() {
    let e: Eventually<i32> = Eventually::Loaded(4);
    assert_eq!(e.map(|x| x), e);
    assert_eq!(e.map(|x| x + 1).map(|y| y * 2), e.map(|x| (x + 1) * 2));
    let l: Eventually<i32> = Eventually::Loading;
    assert_eq!(l.map(|x| x + 1).map(|y| y * 2), l.map(|x| (x + 1) * 2));
}

#[test]
fn as_ref_copies_back() {
    let e: Eventually<String> = Eventually::Loaded("a".to_string());
    assert_eq!(e.as_ref().map(|x| x.clone()), e);
    assert_eq!(e.as_ref().is_some(), e.is_some());
    let n: Eventually<String> = Eventually::Empty;
    assert_eq!(n.as_ref().map(|x| x.clone()), n);
    assert_eq!(n.as_ref().is_none(), n.is_none());
}
