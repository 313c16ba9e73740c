use shaarlot::tag_input::{compute_matches, Key, TagInputState};

fn strings(v: &[&str]) -> Vec<String> {
    v.iter().map(|s| s.to_string()).collect()
}

fn state(tags: &[&str], available: &[&str]) -> TagInputState {
    TagInputState::new(strings(tags), Some(strings(available)))
}

#[test]
fn matches_split_at_first_occurrence_and_skip_used_tags() {
    let (sel, ms) = compute_matches(
        &strings(&["rust", "trust", "python", "crusty"]),
        &strings(&["trust"]),
        "rust",
        None,
    );
    assert_eq!(sel, None);
    assert_eq!(ms.len(), 2);
    assert_eq!(ms[0].prefix, "");
    assert_eq!(ms[0].matched, "rust");
    assert_eq!(ms[0].suffix, "");
    assert_eq!(ms[0].full, "rust");
    assert_eq!(ms[1].prefix, "c");
    assert_eq!(ms[1].matched, "rust");
    assert_eq!(ms[1].suffix, "y");
    assert_eq!(ms[1].full, "crusty");
}

#[test]
fn matches_keep_selection_within_bounds() {
    let tags = strings(&["ab", "abc"]);
    let (sel, _) = compute_matches(&tags, &vec![], "ab", Some(5));
    assert_eq!(sel, Some(1));
    let (sel, _) = compute_matches(&tags, &vec![], "ab", Some(0));
    assert_eq!(sel, Some(0));
    let (sel, ms) = compute_matches(&tags, &vec![], "zz", Some(0));
    assert_eq!(sel, None);
    assert!(ms.is_empty());
}

#[test]
fn matches_with_multibyte_characters() {
    let (_, ms) = compute_matches(&strings(&["éléphant"]), &vec![], "lé", None);
    assert_eq!(ms.len(), 1);
    assert_eq!(ms[0].prefix, "é");
    assert_eq!(ms[0].matched, "lé");
    assert_eq!(ms[0].suffix, "phant");
}

#[test]
fn key_names() {
    assert_eq!(Key::from_name("Enter"), Key::Enter);
    assert_eq!(Key::from_name(" "), Key::Space);
    assert_eq!(Key::from_name("Spacebar"), Key::Space);
    assert_eq!(Key::from_name("Backspace"), Key::Backspace);
    assert_eq!(Key::from_name("Del"), Key::Delete);
    assert_eq!(Key::from_name("Delete"), Key::Delete);
    assert_eq!(Key::from_name("ArrowUp"), Key::Up);
    assert_eq!(Key::from_name("Down"), Key::Down);
    assert_eq!(Key::from_name("ArrowLeft"), Key::Left);
    assert_eq!(Key::from_name("Right"), Key::Right);
    assert_eq!(Key::from_name("Esc"), Key::Escape);
    assert_eq!(Key::from_name("Escape"), Key::Escape);
    assert_eq!(Key::from_name("a"), Key::Other);
}

#[test]
fn enter_commits_typed_text() {
    let mut s = state(&["a"], &[]);
    s.on_input("new");
    let out = s.on_key(Key::Enter, "new");
    assert!(out.prevent_default);
    assert_eq!(out.update, Some(strings(&["a", "new"])));
    assert_eq!(s.tags, strings(&["a", "new"]));
    assert_eq!(s.string, "");
    assert!(s.matches.is_empty());
}

#[test]
fn enter_on_empty_field_does_nothing() {
    let mut s = state(&["a"], &[]);
    let out = s.on_key(Key::Enter, "");
    assert!(!out.prevent_default);
    assert_eq!(out.update, None);
    assert_eq!(s.tags, strings(&["a"]));
}

#[test]
fn space_commits_selected_match() {
    let mut s = state(&[], &["rust", "rusty"]);
    s.on_input("rus");
    assert_eq!(s.matches.len(), 2);
    s.on_key(Key::Down, "rus");
    s.on_key(Key::Down, "rus");
    assert_eq!(s.selected_match, Some(1));
    let out = s.on_key(Key::Space, "rus");
    assert_eq!(out.update, Some(strings(&["rusty"])));
    assert_eq!(s.selected_match, None);
}

#[test]
fn up_and_down_wrap_around() {
    let mut s = state(&[], &["ab", "abc", "abd"]);
    s.on_input("ab");
    s.on_key(Key::Up, "ab");
    assert_eq!(s.selected_match, Some(2));
    s.on_key(Key::Down, "ab");
    assert_eq!(s.selected_match, Some(0));
    s.on_key(Key::Up, "ab");
    assert_eq!(s.selected_match, Some(2));
}

#[test]
fn left_and_right_select_tags_when_field_is_empty() {
    let mut s = state(&["a", "b", "c"], &[]);
    let out = s.on_key(Key::Left, "");
    assert!(out.prevent_default);
    assert_eq!(s.selected_tag, Some(2));
    s.on_key(Key::Left, "");
    assert_eq!(s.selected_tag, Some(1));
    s.on_key(Key::Right, "");
    assert_eq!(s.selected_tag, Some(2));
    s.on_key(Key::Right, "");
    assert_eq!(s.selected_tag, Some(0));
}

#[test]
fn backspace_removes_selected_tag() {
    let mut s = state(&["a", "b", "c"], &[]);
    s.click(1);
    let out = s.on_key(Key::Backspace, "");
    assert_eq!(out.update, Some(strings(&["a", "c"])));
    assert_eq!(s.selected_tag, Some(0));
}

#[test]
fn delete_removes_selected_tag_and_keeps_position() {
    let mut s = state(&["a", "b", "c"], &[]);
    s.click(2);
    let out = s.on_key(Key::Delete, "");
    assert_eq!(out.update, Some(strings(&["a", "b"])));
    assert_eq!(s.selected_tag, Some(1));
    s.click(0);
    s.on_key(Key::Delete, "");
    s.on_key(Key::Delete, "");
    assert!(s.tags.is_empty());
    assert_eq!(s.selected_tag, None);
}

#[test]
fn backspace_on_empty_field_edits_last_tag() {
    let mut s = state(&["rust", "go"], &["rust", "go", "gopher"]);
    let out = s.on_key(Key::Backspace, "");
    assert_eq!(out.update, Some(strings(&["rust"])));
    assert_eq!(s.string, "go");
    assert_eq!(s.matches.len(), 2);
    assert_eq!(s.matches[0].full, "go");
    assert_eq!(s.matches[1].full, "gopher");
    let out = s.on_key(Key::Enter, "go");
    assert_eq!(out.update, Some(strings(&["rust", "go"])));
}

#[test]
fn escape_clears_selection_then_matches() {
    let mut s = state(&[], &["ab"]);
    s.on_input("a");
    s.on_key(Key::Down, "a");
    s.on_key(Key::Escape, "a");
    assert_eq!(s.selected_match, None);
    assert_eq!(s.matches.len(), 1);
    s.on_key(Key::Escape, "a");
    assert!(s.matches.is_empty());
}

#[test]
fn delete_button_removes_every_copy() {
    let mut s = state(&["a", "b", "a"], &["a", "b", "c"]);
    let tags = s.delete("a");
    assert_eq!(tags, strings(&["b"]));
    assert_eq!(s.tags, strings(&["b"]));
    assert_eq!(s.matches.len(), 2);
}

#[test]
fn add_appends_and_clears_field() {
    let mut s = state(&["a"], &["bc"]);
    s.on_input("b");
    let tags = s.add("bc".to_string());
    assert_eq!(tags, strings(&["a", "bc"]));
    assert_eq!(s.string, "");
    assert!(s.matches.is_empty());
}

#[test]
fn focus_is_recorded() {
    let mut s = state(&[], &[]);
    s.set_focus(true);
    assert!(s.focus);
    s.set_focus(false);
    assert!(!s.focus);
}

#[test]
fn typing_clears_tag_selection() {
    let mut s = state(&["a"], &["abc"]);
    s.click(0);
    s.on_input("ab");
    assert_eq!(s.selected_tag, None);
    assert_eq!(s.matches.len(), 1);
    s.on_input("");
    assert!(s.matches.is_empty());
}

#[test]
fn key_reports_are_the_tags_held() {
    let tags = vec!["a".to_string(), "b".to_string()];
    let mut s = TagInputState::new(tags.clone(), Some(vec!["abc".to_string()]));
    for key in [Key::Up, Key::Down, Key::Left, Key::Right, Key::Escape, Key::Other] {
        let r = s.on_key(key, "");
        assert!(r.update.is_none());
        assert_eq!(s.tags, tags);
    }
    let r = s.on_key(Key::Enter, "");
    assert!(r.update.is_none());
    assert_eq!(s.tags, tags);
    let r = s.on_key(Key::Enter, "c");
    assert_eq!(r.update.as_ref(), Some(&s.tags));
    let r = s.on_key(Key::Backspace, "");
    assert_eq!(r.update.as_ref(), Some(&s.tags));
}

#[test]
fn runs_without_commit_or_delete_keep_tags() {
    let tags = vec!["rust".to_string(), "web".to_string()];
    let mut s = TagInputState::new(tags.clone(), Some(vec!["rustic".to_string()]));
    s.set_focus(true);
    s.on_input("ru");
    assert!(s.on_key(Key::Down, "ru").update.is_none());
    assert!(s.on_key(Key::Up, "ru").update.is_none());
    assert!(s.on_key(Key::Escape, "ru").update.is_none());
    s.on_input("");
    assert!(s.on_key(Key::Left, "").update.is_none());
    s.click(0);
    assert!(s.on_key(Key::Right, "").update.is_none());
    assert!(s.on_key(Key::Enter, "").update.is_none());
    s.set_focus(false);
    assert_eq!(s.tags, tags);
    let reported = s.add("rustic".to_string());
    assert_eq!(reported, s.tags);
    let reported = s.delete("web");
    assert_eq!(reported, s.tags);
    assert_eq!(s.tags, vec!["rust".to_string(), "rustic".to_string()]);
}
