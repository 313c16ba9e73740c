use vstd::prelude::*;
use crate::text::{
    chars_of, contains_text, same_text, find, first_occurrence, lemma_find_from, string_of_range,
    occurs_at, find_from,
};

verus! {

/// An available tag that contains what was typed, split around the first
/// occurrence of the typed text.
pub struct Match {
    pub prefix: String,
    pub matched: String,
    pub suffix: String,
    pub full: String,
}

/// The characters of the four parts of a [`Match`].
pub struct MatchView {
    pub prefix: Seq<char>,
    pub matched: Seq<char>,
    pub suffix: Seq<char>,
    pub full: Seq<char>,
}

impl DeepView for Match {
    type V = MatchView;

    open spec fn deep_view(&self) -> MatchView {
        MatchView {
            prefix: self.prefix@,
            matched: self.matched@,
            suffix: self.suffix@,
            full: self.full@,
        }
    }
}

/// The match of `tag` where the typed text, of length `n`, starts at `i`.
pub open spec fn match_at(tag: Seq<char>, i: int, n: int) -> MatchView {
    MatchView {
        prefix: tag.take(i),
        matched: tag.subrange(i, i + n),
        suffix: tag.skip(i + n),
        full: tag,
    }
}

/// The matches that `tags` offer for `pattern`, in the order of `tags`:
/// each tag that contains `pattern` and is not among `used`, split at the
/// first occurrence of `pattern`.
pub open spec fn spec_matches(
    tags: Seq<Seq<char>>,
    used: Seq<Seq<char>>,
    pattern: Seq<char>,
) -> Seq<MatchView>
    decreases tags.len(),
{
    if tags.len() == 0 {
        seq![]
    } else {
        let rest = spec_matches(tags.drop_last(), used, pattern);
        let t = tags.last();
        match first_occurrence(t, pattern) {
            Some(i) => if used.contains(t) {
                rest
            } else {
                rest.push(match_at(t, i, pattern.len() as int))
            },
            None => rest,
        }
    }
}

/// The selected match after the matches were recomputed: none when there is
/// no match or nothing was selected, else the former index, capped at the
/// last match.
pub open spec fn spec_selection(current: Option<usize>, n: nat) -> Option<usize> {
    if n == 0 {
        None
    } else {
        match current {
            Some(c) => Some(if c < n { c } else { (n - 1) as usize }),
            None => None,
        }
    }
}

/// The tags of `tags` that contain `pattern` and are not in `used_tags`,
/// with the selection carried over from `current_selection`.
pub fn compute_matches(
    tags: &Vec<String>,
    used_tags: &Vec<String>,
    pattern: &str,
    current_selection: Option<usize>,
) -> (r: (Option<usize>, Vec<Match>))
    ensures
        r.1.deep_view() == spec_matches(tags.deep_view(), used_tags.deep_view(), pattern@),
        r.0 == spec_selection(current_selection, r.1@.len()),
{
    let p = chars_of(pattern);
    let mut matches: Vec<Match> = Vec::new();
    let mut k: usize = 0;
    while k < tags.len()
        invariant
            p@ == pattern@,
            k <= tags@.len(),
            matches.deep_view() == spec_matches(
                tags.deep_view().take(k as int),
                used_tags.deep_view(),
                pattern@,
            ),
        decreases tags@.len() - k,
    {
        let ghost before = tags.deep_view().take(k as int);
        let t = chars_of(tags[k].as_str());
        let tl = t.len();
        assert(tags.deep_view().take(k + 1).drop_last() =~= before);
        assert(tags.deep_view().take(k + 1).last() == t@);
        match find(&t, &p) {
            Some(i) => {
                proof {
                    lemma_find_from(t@, p@, 0);
                    assert(occurs_at(t@, p@, i as int));
                }
                if !contains_text(used_tags, tags[k].as_str()) {
                    let m = Match {
                        prefix: string_of_range(&t, 0, i),
                        matched: string_of_range(&t, i, i + p.len()),
                        suffix: string_of_range(&t, i + p.len(), tl),
                        full: tags[k].clone(),
                    };
                    matches.push(m);
                    assert(m.deep_view() == match_at(t@, i as int, p@.len() as int)) by {
                        assert(t@.take(i as int) =~= t@.subrange(0, i as int));
                        assert(t@.skip(i + p@.len()) =~= t@.subrange(i + p@.len(), t@.len() as int));
                    }
                    assert(matches.deep_view() =~= spec_matches(
                        tags.deep_view().take(before.len() as int + 1),
                        used_tags.deep_view(),
                        pattern@,
                    ).take(matches@.len() as int));
                }
            },
            None => {},
        }
        k = k + 1;
        assert(matches.deep_view() =~= spec_matches(
            tags.deep_view().take(k as int),
            used_tags.deep_view(),
            pattern@,
        ));
    }
    assert(tags.deep_view().take(tags@.len() as int) =~= tags.deep_view());
    let n = matches.len();
    if n == 0 {
        (None, matches)
    } else if let Some(c) = current_selection {
        (Some(if c < n { c } else { n - 1 }), matches)
    } else {
        (None, matches)
    }
}

} // verus!

verus! {

/// The keys that the tag input reacts to.
#[derive(PartialEq, Eq, Structural, Clone, Copy, Debug)]
pub enum Key {
    Enter,
    Space,
    Backspace,
    Delete,
    Up,
    Down,
    Left,
    Right,
    Escape,
    Other,
}

/// What a keyboard event's `key` names.
pub open spec fn spec_key(name: Seq<char>) -> Key {
    if name == "Enter"@ {
        Key::Enter
    } else if name == " "@ || name == "Spacebar"@ {
        Key::Space
    } else if name == "Backspace"@ {
        Key::Backspace
    } else if name == "Delete"@ || name == "Del"@ {
        Key::Delete
    } else if name == "Up"@ || name == "ArrowUp"@ {
        Key::Up
    } else if name == "Down"@ || name == "ArrowDown"@ {
        Key::Down
    } else if name == "Left"@ || name == "ArrowLeft"@ {
        Key::Left
    } else if name == "Right"@ || name == "ArrowRight"@ {
        Key::Right
    } else if name == "Esc"@ || name == "Escape"@ {
        Key::Escape
    } else {
        Key::Other
    }
}

impl Key {
    /// The key that a keyboard event's `key` value names.
    pub fn from_name(name: &str) -> (k: Key)
        ensures
            k == spec_key(name@),
    {
        if same_text(name, "Enter") {
            Key::Enter
        } else if same_text(name, " ") || same_text(name, "Spacebar") {
            Key::Space
        } else if same_text(name, "Backspace") {
            Key::Backspace
        } else if same_text(name, "Delete") || same_text(name, "Del") {
            Key::Delete
        } else if same_text(name, "Up") || same_text(name, "ArrowUp") {
            Key::Up
        } else if same_text(name, "Down") || same_text(name, "ArrowDown") {
            Key::Down
        } else if same_text(name, "Left") || same_text(name, "ArrowLeft") {
            Key::Left
        } else if same_text(name, "Right") || same_text(name, "ArrowRight") {
            Key::Right
        } else if same_text(name, "Esc") || same_text(name, "Escape") {
            Key::Escape
        } else {
            Key::Other
        }
    }
}

} // verus!

verus! {

/// The state of a tag input: the tags entered so far, the tags that can be
/// offered, the offers for what is being typed, the selections and the text
/// being typed.
pub struct TagInputState {
    pub tags: Vec<String>,
    pub available_tags: Vec<String>,
    pub matches: Vec<Match>,
    pub selected_match: Option<usize>,
    pub selected_tag: Option<usize>,
    pub string: String,
    pub focus: bool,
}

/// The model of a [`TagInputState`]: its texts as character sequences.
pub struct TagInputView {
    pub tags: Seq<Seq<char>>,
    pub available_tags: Seq<Seq<char>>,
    pub matches: Seq<MatchView>,
    pub selected_match: Option<usize>,
    pub selected_tag: Option<usize>,
    pub string: Seq<char>,
    pub focus: bool,
}

impl View for TagInputState {
    type V = TagInputView;

    open spec fn view(&self) -> TagInputView {
        TagInputView {
            tags: self.tags.deep_view(),
            available_tags: self.available_tags.deep_view(),
            matches: self.matches.deep_view(),
            selected_match: self.selected_match,
            selected_tag: self.selected_tag,
            string: self.string@,
            focus: self.focus,
        }
    }
}

/// What a key press asks of the page: whether to cancel the browser's own
/// handling of the key, and the tags to report to the owner, if they changed.
pub struct KeyOutcome {
    pub prevent_default: bool,
    pub update: Option<Vec<String>>,
}

/// The model of a [`KeyOutcome`].
pub struct KeyOutcomeView {
    pub prevent_default: bool,
    pub update: Option<Seq<Seq<char>>>,
}

impl View for KeyOutcome {
    type V = KeyOutcomeView;

    open spec fn view(&self) -> KeyOutcomeView {
        KeyOutcomeView {
            prevent_default: self.prevent_default,
            update: match self.update {
                Some(v) => Some(v.deep_view()),
                None => None,
            },
        }
    }
}

impl TagInputView {
    /// A selected tag is one of the tags.
    pub open spec fn wf(self) -> bool {
        self.selected_tag matches Some(t) ==> t < self.tags.len()
    }
}

/// The index before `sel` in a list of `len` items, wrapping to the last.
pub open spec fn step_back(sel: Option<usize>, len: nat) -> usize {
    match sel {
        Some(i) => if i > 0 {
            (i - 1) as usize
        } else {
            (len - 1) as usize
        },
        None => (len - 1) as usize,
    }
}

/// The index after `sel` in a list of `len` items, wrapping to the first.
pub open spec fn step_forward(sel: Option<usize>, len: nat) -> usize {
    match sel {
        Some(i) => if i + 1 < len {
            (i + 1) as usize
        } else {
            0
        },
        None => 0,
    }
}

/// Whether the key commits what was typed as a tag.
pub open spec fn commits(key: Key, value: Seq<char>) -> bool {
    key == Key::Space || (key == Key::Enter && value.len() > 0)
}

/// How a key press changes the tag input, given the text in the input
/// field: the new state, whether the browser's handling is cancelled, and
/// the tags reported to the owner.
pub open spec fn spec_on_key(s: TagInputView, key: Key, value: Seq<char>) -> (
    TagInputView,
    bool,
    Option<Seq<Seq<char>>>,
) {
    if commits(key, value) {
        let tags = match s.selected_match {
            Some(m) => s.tags.push(s.matches[m as int].full),
            None => if value.len() > 0 {
                s.tags.push(value)
            } else {
                s.tags
            },
        };
        (
            TagInputView { tags, string: seq![], matches: seq![], selected_match: None, ..s },
            true,
            Some(tags),
        )
    } else {
        match key {
            Key::Backspace => match s.selected_tag {
                Some(t) => {
                    let tags = s.tags.remove(t as int);
                    let sel = if tags.len() > 0 {
                        Some(if t > 0 { (t - 1) as usize } else { 0 })
                    } else {
                        None
                    };
                    (TagInputView { tags, selected_tag: sel, ..s }, true, Some(tags))
                },
                None => if s.string.len() == 0 {
                    if s.tags.len() > 0 {
                        let tag = s.tags.last();
                        let tags = s.tags.drop_last();
                        let ms = spec_matches(s.available_tags, tags, tag);
                        (
                            TagInputView {
                                tags,
                                matches: ms,
                                selected_match: spec_selection(s.selected_match, ms.len()),
                                string: tag,
                                ..s
                            },
                            true,
                            Some(tags),
                        )
                    } else {
                        (s, true, Some(s.tags))
                    }
                } else {
                    (s, false, None)
                },
            },
            Key::Delete => match s.selected_tag {
                Some(t) => {
                    let tags = s.tags.remove(t as int);
                    let sel = if tags.len() > 0 {
                        Some(if t < tags.len() { t } else { (tags.len() - 1) as usize })
                    } else {
                        None
                    };
                    (TagInputView { tags, selected_tag: sel, ..s }, true, Some(tags))
                },
                None => (s, false, None),
            },
            Key::Up => if s.matches.len() > 0 {
                (
                    TagInputView {
                        selected_match: Some(step_back(s.selected_match, s.matches.len())),
                        ..s
                    },
                    true,
                    None,
                )
            } else {
                (s, true, None)
            },
            Key::Down => if s.matches.len() > 0 {
                (
                    TagInputView {
                        selected_match: Some(step_forward(s.selected_match, s.matches.len())),
                        ..s
                    },
                    true,
                    None,
                )
            } else {
                (s, true, None)
            },
            Key::Left => if s.string.len() == 0 && s.tags.len() > 0 {
                (
                    TagInputView {
                        selected_tag: Some(step_back(s.selected_tag, s.tags.len())),
                        ..s
                    },
                    true,
                    None,
                )
            } else {
                (s, false, None)
            },
            Key::Right => if s.string.len() == 0 && s.tags.len() > 0 {
                (
                    TagInputView {
                        selected_tag: Some(step_forward(s.selected_tag, s.tags.len())),
                        ..s
                    },
                    true,
                    None,
                )
            } else {
                (s, false, None)
            },
            Key::Escape => (
                TagInputView {
                    selected_tag: None,
                    selected_match: None,
                    matches: if s.selected_match is None {
                        seq![]
                    } else {
                        s.matches
                    },
                    ..s
                },
                true,
                None,
            ),
            _ => (s, false, None),
        }
    }
}

} // verus!

verus! {

/// `tags` without any tag equal to `tag`, in the same order.
pub open spec fn without(tags: Seq<Seq<char>>, tag: Seq<char>) -> Seq<Seq<char>>
    decreases tags.len(),
{
    if tags.len() == 0 {
        seq![]
    } else if tags.last() == tag {
        without(tags.drop_last(), tag)
    } else {
        without(tags.drop_last(), tag).push(tags.last())
    }
}

impl TagInputState {
    /// A tag input showing `tags` and offering `available_tags`.
    pub fn new(tags: Vec<String>, available_tags: Option<Vec<String>>) -> (s: Self)
        ensures
            s@ == (TagInputView {
                tags: tags.deep_view(),
                available_tags: match available_tags {
                    Some(v) => v.deep_view(),
                    None => seq![],
                },
                matches: seq![],
                selected_match: None,
                selected_tag: None,
                string: seq![],
                focus: false,
            }),
            s@.wf(),
    {
        let available = match available_tags {
            None => {
                let v: Vec<String> = Vec::new();
                assert(v.deep_view() =~= seq![]);
                v
            },
            Some(v) => v,
        };
        let s = TagInputState {
            tags,
            available_tags: available,
            matches: Vec::new(),
            selected_match: None,
            selected_tag: None,
            string: String::new(),
            focus: false,
        };
        assert(s.matches.deep_view() =~= seq![]);
        s
    }

    /// Handles a key press while the input field holds `value`.
    pub fn on_key(&mut self, key: Key, value: &str) -> (r: KeyOutcome)
        requires
            old(self)@.wf(),
            commits(key, value@) ==> (old(self).selected_match matches Some(m) ==> m < old(
                self,
            ).matches@.len()),
        ensures
            final(self)@ == spec_on_key(old(self)@, key, value@).0,
            r@.prevent_default == spec_on_key(old(self)@, key, value@).1,
            r@.update == spec_on_key(old(self)@, key, value@).2,
            final(self)@.wf(),
    {
        let ghost s0 = self@;
        if key == Key::Space || (key == Key::Enter && !value.is_empty()) {
            if let Some(m) = self.selected_match {
                let full = self.matches[m].full.clone();
                self.tags.push(full);
                assert(self.tags.deep_view() =~= s0.tags.push(s0.matches[m as int].full));
            } else if !value.is_empty() {
                self.tags.push(value.to_owned());
                assert(self.tags.deep_view() =~= s0.tags.push(value@));
            }
            self.string = String::new();
            self.matches = Vec::new();
            self.selected_match = None;
            assert(self.matches.deep_view() =~= seq![]);
            return KeyOutcome { prevent_default: true, update: Some(self.tags.clone()) };
        }
        match key {
            Key::Backspace => {
                if let Some(t) = self.selected_tag {
                    self.tags.remove(t);
                    assert(self.tags.deep_view() =~= s0.tags.remove(t as int));
                    if self.tags.len() > 0 {
                        self.selected_tag = Some(if t > 0 { t - 1 } else { 0 });
                    } else {
                        self.selected_tag = None;
                    }
                    KeyOutcome { prevent_default: true, update: Some(self.tags.clone()) }
                } else if self.string.as_str().is_empty() {
                    if let Some(tag) = self.tags.pop() {
                        assert(self.tags.deep_view() =~= s0.tags.drop_last());
                        let (sel, ms) = compute_matches(
                            &self.available_tags,
                            &self.tags,
                            tag.as_str(),
                            self.selected_match,
                        );
                        self.selected_match = sel;
                        self.matches = ms;
                        self.string = tag;
                    }
                    KeyOutcome { prevent_default: true, update: Some(self.tags.clone()) }
                } else {
                    KeyOutcome { prevent_default: false, update: None }
                }
            },
            Key::Delete => {
                if let Some(t) = self.selected_tag {
                    self.tags.remove(t);
                    assert(self.tags.deep_view() =~= s0.tags.remove(t as int));
                    let n = self.tags.len();
                    if n > 0 {
                        self.selected_tag = Some(if t < n { t } else { n - 1 });
                    } else {
                        self.selected_tag = None;
                    }
                    KeyOutcome { prevent_default: true, update: Some(self.tags.clone()) }
                } else {
                    KeyOutcome { prevent_default: false, update: None }
                }
            },
            Key::Up => {
                let n = self.matches.len();
                if n > 0 {
                    self.selected_match = Some(
                        match self.selected_match {
                            Some(i) => if i > 0 {
                                i - 1
                            } else {
                                n - 1
                            },
                            None => n - 1,
                        },
                    );
                }
                KeyOutcome { prevent_default: true, update: None }
            },
            Key::Down => {
                let n = self.matches.len();
                if n > 0 {
                    self.selected_match = Some(
                        match self.selected_match {
                            Some(i) => if i < n - 1 {
                                i + 1
                            } else {
                                0
                            },
                            None => 0,
                        },
                    );
                }
                KeyOutcome { prevent_default: true, update: None }
            },
            Key::Left => {
                let n = self.tags.len();
                if self.string.as_str().is_empty() && n > 0 {
                    self.selected_tag = Some(
                        match self.selected_tag {
                            Some(i) => if i > 0 {
                                i - 1
                            } else {
                                n - 1
                            },
                            None => n - 1,
                        },
                    );
                    KeyOutcome { prevent_default: true, update: None }
                } else {
                    KeyOutcome { prevent_default: false, update: None }
                }
            },
            Key::Right => {
                let n = self.tags.len();
                if self.string.as_str().is_empty() && n > 0 {
                    self.selected_tag = Some(
                        match self.selected_tag {
                            Some(i) => if i < n - 1 {
                                i + 1
                            } else {
                                0
                            },
                            None => 0,
                        },
                    );
                    KeyOutcome { prevent_default: true, update: None }
                } else {
                    KeyOutcome { prevent_default: false, update: None }
                }
            },
            Key::Escape => {
                if self.selected_match.is_none() {
                    self.matches = Vec::new();
                    assert(self.matches.deep_view() =~= seq![]);
                }
                self.selected_tag = None;
                self.selected_match = None;
                KeyOutcome { prevent_default: true, update: None }
            },
            _ => KeyOutcome { prevent_default: false, update: None },
        }
    }
}

} // verus!

verus! {

/// The tag input after an edit of the input field, which now holds
/// `value`: the offers follow what is typed, and typing drops the tag
/// selection.
pub open spec fn spec_input(s: TagInputView, value: Seq<char>) -> TagInputView {
    if value.len() == 0 {
        TagInputView { string: value, matches: seq![], ..s }
    } else {
        let ms = spec_matches(s.available_tags, s.tags, value);
        TagInputView {
            string: value,
            matches: ms,
            selected_match: spec_selection(s.selected_match, ms.len()),
            selected_tag: None,
            ..s
        }
    }
}

/// The tag input after its delete button removed every tag equal to `tag`.
pub open spec fn spec_delete(s: TagInputView, tag: Seq<char>) -> TagInputView {
    TagInputView {
        tags: without(s.tags, tag),
        matches: spec_matches(s.available_tags, without(s.tags, tag), s.string),
        selected_match: None,
        selected_tag: None,
        ..s
    }
}

/// The tag input after a click on an offered match added `tag`.
pub open spec fn spec_add(s: TagInputView, tag: Seq<char>) -> TagInputView {
    TagInputView {
        tags: s.tags.push(tag),
        string: seq![],
        matches: seq![],
        selected_match: None,
        ..s
    }
}

impl TagInputState {
    /// Handles an edit of the input field, which now holds `value`.
    pub fn on_input(&mut self, value: &str)
        requires
            old(self)@.wf(),
        ensures
            final(self)@ == spec_input(old(self)@, value@),
            final(self)@.wf(),
            final(self)@.string == value@,
            final(self)@.tags == old(self)@.tags,
            final(self)@.available_tags == old(self)@.available_tags,
            final(self)@.focus == old(self)@.focus,
            value@.len() == 0 ==> {
                &&& final(self)@.matches == Seq::<MatchView>::empty()
                &&& final(self)@.selected_match == old(self)@.selected_match
                &&& final(self)@.selected_tag == old(self)@.selected_tag
            },
            value@.len() > 0 ==> {
                &&& final(self)@.matches == spec_matches(
                    old(self)@.available_tags,
                    old(self)@.tags,
                    value@,
                )
                &&& final(self)@.selected_match == spec_selection(
                    old(self)@.selected_match,
                    final(self)@.matches.len(),
                )
                &&& final(self)@.selected_tag is None
            },
    {
        if value.is_empty() {
            self.matches = Vec::new();
            assert(self.matches.deep_view() =~= seq![]);
        } else {
            let (sel, ms) = compute_matches(
                &self.available_tags,
                &self.tags,
                value,
                self.selected_match,
            );
            self.selected_match = sel;
            self.matches = ms;
            self.selected_tag = None;
        }
        self.string = value.to_owned();
    }

    /// Removes every tag equal to `tag`, as its delete button does, and
    /// returns the tags to report to the owner.
    pub fn delete(&mut self, tag: &str) -> (r: Vec<String>)
        requires
            old(self)@.wf(),
        ensures
            final(self)@ == spec_delete(old(self)@, tag@),
            r.deep_view() == final(self)@.tags,
            final(self)@.wf(),
    {
        let mut kept: Vec<String> = Vec::new();
        let mut k: usize = 0;
        while k < self.tags.len()
            invariant
                k <= self.tags@.len(),
                kept.deep_view() == without(self.tags.deep_view().take(k as int), tag@),
            decreases self.tags@.len() - k,
        {
            assert(self.tags.deep_view().take(k + 1).drop_last() =~= self.tags.deep_view().take(
                k as int,
            ));
            if !same_text(self.tags[k].as_str(), tag) {
                kept.push(self.tags[k].clone());
            }
            k = k + 1;
            assert(kept.deep_view() =~= without(self.tags.deep_view().take(k as int), tag@));
        }
        assert(self.tags.deep_view().take(self.tags@.len() as int) =~= self.tags.deep_view());
        let (_, ms) = compute_matches(
            &self.available_tags,
            &kept,
            self.string.as_str(),
            self.selected_match,
        );
        self.tags = kept;
        self.selected_match = None;
        self.matches = ms;
        self.selected_tag = None;
        self.tags.clone()
    }

    /// Selects the tag at `index`, as a click on it does.
    pub fn click(&mut self, index: usize)
        requires
            index < old(self).tags@.len(),
        ensures
            final(self)@ == (TagInputView { selected_tag: Some(index), ..old(self)@ }),
            final(self)@.wf(),
    {
        self.selected_tag = Some(index);
    }

    /// Adds `tag`, as a click on an offered match does, and returns the tags
    /// to report to the owner.
    pub fn add(&mut self, tag: String) -> (r: Vec<String>)
        requires
            old(self)@.wf(),
        ensures
            final(self)@ == spec_add(old(self)@, tag@),
            r.deep_view() == final(self)@.tags,
            final(self)@.wf(),
    {
        let ghost t0 = self@.tags;
        self.tags.push(tag);
        assert(self.tags.deep_view() =~= t0.push(tag@));
        self.string = String::new();
        self.matches = Vec::new();
        assert(self.matches.deep_view() =~= seq![]);
        self.selected_match = None;
        self.tags.clone()
    }

    /// Records whether the input field has the focus.
    pub fn set_focus(&mut self, focus: bool)
        ensures
            final(self)@ == (TagInputView { focus, ..old(self)@ }),
    {
        self.focus = focus;
    }
}

} // verus!

verus! {

/// The tags a key press reports are the tags held after it; keys that
/// neither commit what was typed nor delete (arrows, Escape, an Enter with
/// nothing typed, any other key) leave the tags alone and report nothing.
pub proof fn law_key_reports_tags_held(s: TagInputView, key: Key, value: Seq<char>)
    ensures
        spec_on_key(s, key, value).2 matches Some(t) ==> t == spec_on_key(s, key, value).0.tags,
        !commits(key, value) && key != Key::Backspace && key != Key::Delete ==> spec_on_key(
            s,
            key,
            value,
        ).0.tags == s.tags && spec_on_key(s, key, value).2 is None,
{
}

/// Moving the tag selection left and then right, or right and then left,
/// comes back to the tag that was selected.
pub proof fn law_tag_selection_round_trip(s: TagInputView, value: Seq<char>, i: usize)
    requires
        s.string.len() == 0,
        s.selected_tag == Some(i),
        i < s.tags.len() <= usize::MAX,
    ensures
        spec_on_key(spec_on_key(s, Key::Left, value).0, Key::Right, value).0 == s,
        spec_on_key(spec_on_key(s, Key::Right, value).0, Key::Left, value).0 == s,
{
}

/// Moving the match selection up and then down, or down and then up, comes
/// back to the match that was selected.
pub proof fn law_match_selection_round_trip(s: TagInputView, value: Seq<char>, i: usize)
    requires
        s.selected_match == Some(i),
        i < s.matches.len() <= usize::MAX,
    ensures
        spec_on_key(spec_on_key(s, Key::Up, value).0, Key::Down, value).0 == s,
        spec_on_key(spec_on_key(s, Key::Down, value).0, Key::Up, value).0 == s,
{
}

/// With nothing selected and nothing typed, Backspace takes the last tag back
/// into the input field, and Enter on that text puts it back: the tags are as
/// before.
pub proof fn law_backspace_then_enter_restores_tags(s: TagInputView)
    requires
        s.wf(),
        s.string.len() == 0,
        s.selected_tag is None,
        s.selected_match is None,
        s.tags.len() > 0,
        s.tags.last().len() > 0,
    ensures
        ({
            let after_backspace = spec_on_key(s, Key::Backspace, seq![]).0;
            &&& after_backspace.string == s.tags.last()
            &&& spec_on_key(after_backspace, Key::Enter, after_backspace.string).0.tags
                == s.tags
        }),
{
    let b = spec_on_key(s, Key::Backspace, seq![]).0;
    assert(b.tags.push(s.tags.last()) =~= s.tags);
}

/// Committing typed text with no match selected appends exactly that text as
/// the last tag, clears the input and reports the new tags.
pub proof fn law_commit_appends_typed_tag(s: TagInputView, value: Seq<char>)
    requires
        value.len() > 0,
        s.selected_match is None,
    ensures
        ({
            let (n, prevent, update) = spec_on_key(s, Key::Enter, value);
            &&& n.tags == s.tags.push(value)
            &&& n.string.len() == 0
            &&& prevent
            &&& update == Some(n.tags)
        }),
{
}

/// Committing (Space, or Enter with text typed) while an offered match is
/// selected appends that match's full tag, whatever was typed; the input
/// is cleared, no match stays offered or selected, and the new tags are
/// reported.
pub proof fn law_commit_takes_selected_match(s: TagInputView, key: Key, value: Seq<char>, m: usize)
    requires
        key == Key::Space || (key == Key::Enter && value.len() > 0),
        s.selected_match == Some(m),
        m < s.matches.len(),
    ensures
        ({
            let (n, prevent, update) = spec_on_key(s, key, value);
            &&& n.tags == s.tags.push(s.matches[m as int].full)
            &&& n.string.len() == 0
            &&& n.matches.len() == 0
            &&& n.selected_match is None
            &&& prevent
            &&& update == Some(s.tags.push(s.matches[m as int].full))
        }),
{
}

/// Space with nothing typed and no match selected adds no tag.
pub proof fn law_space_with_nothing_typed(s: TagInputView)
    requires
        s.selected_match is None,
    ensures
        spec_on_key(s, Key::Space, seq![]).0.tags == s.tags,
        spec_on_key(s, Key::Space, seq![]).2 == Some(s.tags),
{
}

/// Two presses of Escape drop every selection and every offered match.
pub proof fn law_escape_twice_clears(s: TagInputView, value: Seq<char>)
    ensures
        ({
            let n = spec_on_key(spec_on_key(s, Key::Escape, value).0, Key::Escape, value).0;
            &&& n.selected_tag is None
            &&& n.selected_match is None
            &&& n.matches.len() == 0
            &&& n.tags == s.tags
        }),
{
}

/// One event of a tag input, with what it carries: a key press with the
/// text of the input field, an edit of the field, a click on a tag, the
/// field taking or losing the focus, a tag's delete button, or a click on
/// an offered match.
pub enum TagEvent {
    Key(Key, Seq<char>),
    Input(Seq<char>),
    Click(usize),
    Focus(bool),
    DeleteTag(Seq<char>),
    AddTag(Seq<char>),
}

/// The tag input after the event `e`, and the tags reported to the owner,
/// if any.
pub open spec fn spec_event(s: TagInputView, e: TagEvent) -> (TagInputView, Option<Seq<Seq<char>>>) {
    match e {
        TagEvent::Key(key, value) => (spec_on_key(s, key, value).0, spec_on_key(s, key, value).2),
        TagEvent::Input(value) => (spec_input(s, value), None),
        TagEvent::Click(index) => (TagInputView { selected_tag: Some(index), ..s }, None),
        TagEvent::Focus(focus) => (TagInputView { focus, ..s }, None),
        TagEvent::DeleteTag(tag) => (spec_delete(s, tag), Some(spec_delete(s, tag).tags)),
        TagEvent::AddTag(tag) => (spec_add(s, tag), Some(spec_add(s, tag).tags)),
    }
}

/// Whether the event may change the tags: a key that commits what was
/// typed, Backspace, Delete, a tag's delete button, or a click on a match.
pub open spec fn may_change_tags(e: TagEvent) -> bool {
    match e {
        TagEvent::Key(key, value) => commits(key, value) || key == Key::Backspace || key
            == Key::Delete,
        TagEvent::DeleteTag(_) => true,
        TagEvent::AddTag(_) => true,
        _ => false,
    }
}

/// The tag input after the events `es`, one after the other.
pub open spec fn spec_run(s: TagInputView, es: Seq<TagEvent>) -> TagInputView
    decreases es.len(),
{
    if es.len() == 0 {
        s
    } else {
        spec_run(spec_event(s, es[0]).0, es.drop_first())
    }
}

/// Whether no event of `es`, run from `s`, reports tags to the owner.
pub open spec fn run_is_quiet(s: TagInputView, es: Seq<TagEvent>) -> bool
    decreases es.len(),
{
    if es.len() == 0 {
        true
    } else {
        spec_event(s, es[0]).1 is None && run_is_quiet(spec_event(s, es[0]).0, es.drop_first())
    }
}

/// Whether every report made while `es` runs from `s` is exactly the tags
/// held right after that event.
pub open spec fn run_reports_held_tags(s: TagInputView, es: Seq<TagEvent>) -> bool
    decreases es.len(),
{
    if es.len() == 0 {
        true
    } else {
        let (next, report) = spec_event(s, es[0]);
        (report matches Some(t) ==> t == next.tags) && run_reports_held_tags(next, es.drop_first())
    }
}

/// Over any run of events: every report to the owner is exactly the tags
/// held after the event that made it; and a run of events none of which
/// may change the tags (typing, arrows, Escape, an empty Enter, clicks on
/// tags, focus and blur) leaves the tags as they were and reports nothing.
pub proof fn law_runs_keep_tags(s: TagInputView, es: Seq<TagEvent>)
    ensures
        run_reports_held_tags(s, es),
        (forall|i: int| 0 <= i < es.len() ==> !may_change_tags(#[trigger] es[i])) ==> spec_run(
            s,
            es,
        ).tags == s.tags && run_is_quiet(s, es),
    decreases es.len(),
{
    if es.len() > 0 {
        let e = es[0];
        let next = spec_event(s, e).0;
        let rest = es.drop_first();
        law_runs_keep_tags(next, rest);
        if let TagEvent::Key(key, value) = e {
            law_key_reports_tags_held(s, key, value);
        }
        if forall|i: int| 0 <= i < es.len() ==> !may_change_tags(#[trigger] es[i]) {
            assert(!may_change_tags(es[0]));
            assert forall|i: int| 0 <= i < rest.len() implies !may_change_tags(#[trigger] rest[i]) by {
                assert(rest[i] == es[i + 1]);
            }
        }
    }
}

} // verus!
