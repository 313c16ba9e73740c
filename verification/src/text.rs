use vstd::prelude::*;

verus! {

broadcast use vstd::string::group_string_axioms;

/// The characters of `s`, in order.
pub fn chars_of(s: &str) -> (v: Vec<char>)
    ensures
        v@ == s@,
{
    let mut v: Vec<char> = Vec::new();
    for c in it: s.chars()
        invariant
            it.seq() == s@,
            v@ == it.seq().take(it.index()),
    {
        v.push(c);
    }
    v
}

} // verus!

verus! {

/// Wraps `String::push`, which appends one character to the string.
#[verifier::external_body]
fn push_char(s: &mut String, c: char)
    ensures
        final(s)@ == old(s)@.push(c),
{
    s.push(c);
}

/// The string made of the given characters.
pub fn string_of(v: &[char]) -> (s: String)
    ensures
        s@ == v@,
{
    let mut s = String::new();
    let mut i: usize = 0;
    while i < v.len()
        invariant
            i <= v@.len(),
            s@ == v@.take(i as int),
        decreases v@.len() - i,
    {
        push_char(&mut s, v[i]);
        i = i + 1;
        assert(s@ =~= v@.take(i as int));
    }
    assert(v@.take(v@.len() as int) =~= v@);
    s
}

/// `p` occurs in `h` starting at position `i`.
pub open spec fn occurs_at(h: Seq<char>, p: Seq<char>, i: int) -> bool {
    0 <= i && i + p.len() <= h.len() && h.subrange(i, i + p.len()) == p
}

/// The first position at or after `i` where `p` occurs in `h`.
pub open spec fn find_from(h: Seq<char>, p: Seq<char>, i: int) -> Option<int>
    decreases h.len() + 1 - i,
{
    if i < 0 || i + p.len() > h.len() {
        None
    } else if occurs_at(h, p, i) {
        Some(i)
    } else {
        find_from(h, p, i + 1)
    }
}

/// The first position where `p` occurs in `h`, if any.
pub open spec fn first_occurrence(h: Seq<char>, p: Seq<char>) -> Option<int> {
    find_from(h, p, 0)
}

/// What `find_from` returns is the first occurrence at or after `i`.
pub proof fn lemma_find_from(h: Seq<char>, p: Seq<char>, i: int)
    requires
        0 <= i,
    ensures
        match find_from(h, p, i) {
            Some(k) => i <= k && occurs_at(h, p, k) && forall|j: int|
                i <= j < k ==> !occurs_at(h, p, j),
            None => forall|j: int| i <= j ==> !occurs_at(h, p, j),
        },
    decreases h.len() + 1 - i,
{
    if i + p.len() > h.len() {
    } else if occurs_at(h, p, i) {
    } else {
        lemma_find_from(h, p, i + 1);
    }
}

/// Whether `p` occurs in `h` at position `i`.
fn matches_at(h: &[char], p: &[char], i: usize) -> (r: bool)
    requires
        i + p@.len() <= h@.len(),
    ensures
        r == occurs_at(h@, p@, i as int),
{
    let mut k: usize = 0;
    while k < p.len()
        invariant
            i + p.len() <= h.len(),
            k <= p@.len(),
            forall|j: int| 0 <= j < k ==> h@[i + j] == p@[j],
        decreases p@.len() - k,
    {
        if h[i + k] != p[k] {
            assert(h@.subrange(i as int, i + p@.len())[k as int] != p@[k as int]);
            return false;
        }
        k = k + 1;
    }
    assert(h@.subrange(i as int, i + p@.len()) =~= p@);
    true
}

/// The first position where `p` occurs in `h`, as `str::find` reports it in
/// characters.
pub fn find(h: &[char], p: &[char]) -> (r: Option<usize>)
    ensures
        r matches Some(i) ==> first_occurrence(h@, p@) == Some(i as int),
        r is None ==> first_occurrence(h@, p@) is None,
{
    if p.len() > h.len() {
        return None;
    }
    let last = h.len() - p.len();
    let mut i: usize = 0;
    while i <= last
        invariant
            last == h@.len() - p@.len(),
            i <= last + 1,
            find_from(h@, p@, 0) == find_from(h@, p@, i as int),
        decreases last + 1 - i,
    {
        if matches_at(h, p, i) {
            return Some(i);
        }
        if i == last {
            return None;
        }
        i = i + 1;
    }
    None
}

} // verus!

verus! {

/// The string made of the characters of `v` from position `i` to `j`.
pub fn string_of_range(v: &[char], i: usize, j: usize) -> (s: String)
    requires
        i <= j <= v@.len(),
    ensures
        s@ == v@.subrange(i as int, j as int),
{
    let mut s = String::new();
    let mut k: usize = i;
    while k < j
        invariant
            i <= k <= j <= v@.len(),
            s@ == v@.subrange(i as int, k as int),
        decreases j - k,
    {
        push_char(&mut s, v[k]);
        k = k + 1;
        assert(s@ =~= v@.subrange(i as int, k as int));
    }
    s
}

/// Whether the two strings hold the same characters.
pub fn same_text(a: &str, b: &str) -> (r: bool)
    ensures
        r == (a@ == b@),
{
    let x = chars_of(a);
    let y = chars_of(b);
    if x.len() != y.len() {
        return false;
    }
    let mut k: usize = 0;
    while k < x.len()
        invariant
            x@ == a@,
            y@ == b@,
            x@.len() == y@.len(),
            k <= x@.len(),
            forall|j: int| 0 <= j < k ==> x@[j] == y@[j],
        decreases x@.len() - k,
    {
        if x[k] != y[k] {
            return false;
        }
        k = k + 1;
    }
    assert(x@ =~= y@);
    true
}

/// Whether `v` holds a string with the same characters as `s`.
pub fn contains_text(v: &Vec<String>, s: &str) -> (r: bool)
    ensures
        r == v.deep_view().contains(s@),
{
    let mut k: usize = 0;
    while k < v.len()
        invariant
            k <= v@.len(),
            forall|j: int| 0 <= j < k ==> v.deep_view()[j] != s@,
        decreases v@.len() - k,
    {
        if same_text(v[k].as_str(), s) {
            assert(v.deep_view()[k as int] == s@);
            return true;
        }
        k = k + 1;
    }
    proof {
        lemma_absent(v, s);
    }
    false
}

proof fn lemma_absent(v: &Vec<String>, s: &str)
    requires
        forall|j: int| 0 <= j < v@.len() ==> v.deep_view()[j] != s@,
    ensures
        !v.deep_view().contains(s@),
{
    if v.deep_view().contains(s@) {
        let j = choose|j: int| 0 <= j < v.deep_view().len() && v.deep_view()[j] == s@;
        assert(v.deep_view()[j] == s@);
    }
}

} // verus!

verus! {

/// The texts written one after the other, separated by the character `sep`.
pub open spec fn join_with(texts: Seq<Seq<char>>, sep: char) -> Seq<char>
    decreases texts.len(),
{
    if texts.len() == 0 {
        seq![]
    } else if texts.len() == 1 {
        texts[0]
    } else {
        join_with(texts.drop_last(), sep) + seq![sep] + texts.last()
    }
}

} // verus!

verus! {

/// The position of the last `c` in `s`, if any.
pub open spec fn last_index_of(s: Seq<char>, c: char) -> Option<int>
    decreases s.len(),
{
    if s.len() == 0 {
        None
    } else if s.last() == c {
        Some(s.len() - 1)
    } else {
        last_index_of(s.drop_last(), c)
    }
}

/// The pieces of `s` between occurrences of `sep`, as `str::split(sep)`
/// gives them; there is always at least one piece.
pub open spec fn split_on(s: Seq<char>, sep: char) -> Seq<Seq<char>>
    decreases s.len(),
{
    match last_index_of(s, sep) {
        None => seq![s],
        Some(i) => if 0 <= i < s.len() {
            split_on(s.take(i), sep).push(s.skip(i + 1))
        } else {
            seq![s]
        },
    }
}

/// Where the last `c` of `s` is.
pub proof fn lemma_last_index_of(s: Seq<char>, c: char)
    ensures
        match last_index_of(s, c) {
            Some(i) => 0 <= i < s.len() && s[i] == c && forall|j: int|
                i < j < s.len() ==> s[j] != c,
            None => forall|j: int| 0 <= j < s.len() ==> s[j] != c,
        },
    decreases s.len(),
{
    if s.len() > 0 && s.last() != c {
        let d = s.drop_last();
        lemma_last_index_of(d, c);
        assert(forall|j: int| 0 <= j < d.len() ==> d[j] == s[j]);
    }
}

/// Adding a character other than the separator extends the last piece.
pub proof fn lemma_split_extend(s: Seq<char>, sep: char, c: char)
    requires
        c != sep,
    ensures
        split_on(s.push(c), sep) == split_on(s, sep).drop_last().push(
            split_on(s, sep).last().push(c),
        ),
        split_on(s, sep).len() > 0,
    decreases s.len(),
{
    let t = s.push(c);
    assert(t.drop_last() =~= s);
    lemma_last_index_of(s, sep);
    match last_index_of(s, sep) {
        None => {
            assert(split_on(t, sep) =~= seq![t]);
        },
        Some(i) => {
            assert(t.take(i) =~= s.take(i));
            assert(t.skip(i + 1) =~= s.skip(i + 1).push(c));
            assert(split_on(s, sep) == split_on(s.take(i), sep).push(s.skip(i + 1)));
        },
    }
}

proof fn lemma_separator_last(j: Seq<char>, sep: char, last: Seq<char>)
    requires
        forall|k: int| 0 <= k < last.len() ==> last[k] != sep,
    ensures
        last_index_of(j + seq![sep] + last, sep) == Some(j.len() as int),
    decreases last.len(),
{
    let s = j + seq![sep] + last;
    if last.len() == 0 {
        assert(s.last() == sep);
    } else {
        assert(s.drop_last() =~= j + seq![sep] + last.drop_last());
        lemma_separator_last(j, sep, last.drop_last());
    }
}

/// Splitting texts joined with `sep` gives them back, when there is at
/// least one and none contains `sep`.
pub proof fn lemma_split_join(texts: Seq<Seq<char>>, sep: char)
    requires
        texts.len() > 0,
        forall|i: int, j: int|
            0 <= i < texts.len() && 0 <= j < texts[i].len() ==> texts[i][j] != sep,
    ensures
        split_on(join_with(texts, sep), sep) == texts,
    decreases texts.len(),
{
    let last = texts.last();
    assert(forall|j: int| 0 <= j < last.len() ==> last[j] != sep);
    if texts.len() == 1 {
        lemma_last_index_of(last, sep);
        assert(split_on(last, sep) =~= seq![last]);
        assert(texts =~= seq![last]);
    } else {
        let d = texts.drop_last();
        lemma_split_join(d, sep);
        let j = join_with(d, sep);
        let s = j + seq![sep] + last;
        lemma_separator_last(j, sep, last);
        assert(s.take(j.len() as int) =~= j);
        assert(s.skip(j.len() as int + 1) =~= last);
        assert(texts =~= d.push(last));
    }
}

} // verus!

verus! {

/// The pieces of `text` between occurrences of `sep`, as `str::split(sep)`
/// gives them.
pub fn split_text(text: &str, sep: char) -> (r: Vec<String>)
    ensures
        r.deep_view() == split_on(text@, sep),
{
    let cs = chars_of(text);
    let mut out: Vec<String> = Vec::new();
    let mut cur: Vec<char> = Vec::new();
    let mut k: usize = 0;
    proof {
        assert(cs@.take(0) =~= seq![]);
        assert(last_index_of(seq![], sep) is None);
        assert(out.deep_view().push(cur@) =~= seq![seq![]]);
    }
    while k < cs.len()
        invariant
            cs@ == text@,
            k <= cs@.len(),
            out.deep_view().push(cur@) == split_on(cs@.take(k as int), sep),
        decreases cs@.len() - k,
    {
        let ghost before = cs@.take(k as int);
        let ghost after = cs@.take(k + 1);
        assert(after.drop_last() =~= before);
        let c = cs[k];
        if c == sep {
            proof {
                assert(last_index_of(after, sep) == Some(k as int));
                assert(after.take(k as int) =~= before);
                assert(after.skip(k + 1) =~= Seq::<char>::empty());
            }
            let ghost piece = cur@;
            out.push(string_of(&cur));
            cur = Vec::new();
            assert(out.deep_view() =~= split_on(before, sep).drop_last().push(piece));
            assert(out.deep_view().push(cur@) =~= split_on(after, sep));
        } else {
            let ghost old_cur = cur@;
            proof {
                lemma_split_extend(before, sep, c);
                assert(after =~= before.push(c));
                assert(out.deep_view() =~= split_on(before, sep).drop_last());
                assert(old_cur == split_on(before, sep).last());
            }
            cur.push(c);
            assert(cur@ =~= old_cur.push(c));
            assert(out.deep_view().push(cur@) =~= split_on(after, sep));
        }
        k = k + 1;
    }
    assert(cs@.take(cs@.len() as int) =~= cs@);
    out.push(string_of(&cur));
    out
}

} // verus!
