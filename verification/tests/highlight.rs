use shaarlot::highlight::{highlight, Zone};

fn show(zones: Vec<Zone>) -> Vec<(bool, String)> {
    zones
        .into_iter()
        .map(|z| match z {
            Zone::Highlight(s) => (true, s),
            Zone::Normal(s) => (false, s),
        })
        .collect()
}

fn terms(v: &[&str]) -> Vec<String> {
    v.iter().map(|s| s.to_string()).collect()
}

#[test]
fn no_terms_shows_text_as_is() {
    assert_eq!(show(highlight("Hello", None).unwrap()), vec![(false, "Hello".to_string())]);
    assert_eq!(
        show(highlight("Hello", Some(&vec![])).unwrap()),
        vec![(false, "Hello".to_string())]
    );
}

#[test]
fn matches_case_insensitively() {
    let z = show(highlight("Rust is RUSTy", Some(&terms(&["rust"]))).unwrap());
    assert_eq!(
        z,
        vec![
            (true, "Rust".to_string()),
            (false, " is ".to_string()),
            (true, "RUST".to_string()),
            (false, "y".to_string()),
        ]
    );
}

#[test]
fn match_at_end_leaves_empty_normal_zone() {
    let z = show(highlight("abc", Some(&terms(&["c"]))).unwrap());
    assert_eq!(
        z,
        vec![(false, "ab".to_string()), (true, "c".to_string()), (false, String::new())]
    );
}

#[test]
fn longest_terms_first() {
    let z = show(highlight("foobar", Some(&terms(&["o", "foo"]))).unwrap());
    assert_eq!(z, vec![(true, "foo".to_string()), (false, "bar".to_string())]);
}

#[test]
fn uppercase_terms_are_lowercased() {
    let z = show(highlight("a Cat", Some(&terms(&["CAT"]))).unwrap());
    assert_eq!(
        z,
        vec![(false, "a ".to_string()), (true, "Cat".to_string()), (false, String::new())]
    );
}

#[test]
fn empty_term_is_refused() {
    assert!(highlight("abc", Some(&terms(&[""]))).is_none());
}

#[test]
fn zones_join_back_to_text() {
    let text = "Ünïcode Über über";
    let z = show(highlight(text, Some(&terms(&["über", "co"]))).unwrap());
    let joined: String = z.iter().map(|(_, s)| s.as_str()).collect();
    assert_eq!(joined, text);
    assert!(z.contains(&(true, "Über".to_string())));
    assert!(z.contains(&(true, "über".to_string())));
}

#[test]
fn offsets_found_in_the_lowercase_text_cut_the_text() {
    // "İ" (2 bytes) lowercases to "i̇" (3 bytes): the byte offset of "a" in
    // the lowercase text falls after the "a" of the text itself.
    let z = show(highlight("İab", Some(&terms(&["a"]))).unwrap());
    assert_eq!(
        z,
        vec![(false, "İa".to_string()), (true, "b".to_string()), (false, String::new())]
    );
}

#[test]
fn term_before_a_longer_lowercase_character() {
    let z = show(highlight("ab İ", Some(&terms(&["a"]))).unwrap());
    assert_eq!(z, vec![(true, "a".to_string()), (false, "b İ".to_string())]);
    let z = show(highlight("İ x", Some(&terms(&["q"]))).unwrap());
    assert_eq!(z, vec![(false, "İ x".to_string())]);
}

#[test]
fn offset_inside_a_character_is_refused() {
    // "İİb": lowercase "i̇i̇b", "b" at byte 6; the text's byte 6 is past its
    // end (4 bytes for "İİ" plus 1): no character starts there.
    assert!(highlight("İİb", Some(&terms(&["b"]))).is_none());
}

#[test]
fn ascii_text_is_split_by_every_term() {
    let ts = terms(&["o", "WOR", "xyz"]);
    let zones = show(highlight("Hello World, wordy", Some(&ts)).unwrap());
    let lowered: Vec<String> = ts.iter().map(|t| t.to_ascii_lowercase()).collect();
    let mut joined = String::new();
    for (hl, text) in &zones {
        joined.push_str(text);
        if *hl {
            assert!(lowered.contains(&text.to_ascii_lowercase()));
        } else {
            for t in &lowered {
                assert!(!text.to_ascii_lowercase().contains(t.as_str()));
            }
        }
    }
    assert_eq!(joined, "Hello World, wordy");
    assert!(zones.iter().any(|(hl, t)| *hl && t == "Wor"));
}
