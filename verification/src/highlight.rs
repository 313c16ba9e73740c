use vstd::prelude::*;
use vstd::utf8::{encode_scalar, encode_utf8, is_ascii_chars};
use crate::text::{chars_of, find, first_occurrence, lemma_find_from, occurs_at, string_of_range};

verus! {

/// A piece of a text: either shown as is, or highlighted because it matched
/// a search term.
pub enum Zone {
    Highlight(String),
    Normal(String),
}

/// The characters of a [`Zone`], with its kind.
pub enum ZoneView {
    Highlight(Seq<char>),
    Normal(Seq<char>),
}

impl DeepView for Zone {
    type V = ZoneView;

    open spec fn deep_view(&self) -> ZoneView {
        match self {
            Zone::Highlight(s) => ZoneView::Highlight(s@),
            Zone::Normal(s) => ZoneView::Normal(s@),
        }
    }
}

/// What `str::to_lowercase` returns for a string with these characters.
pub uninterp spec fn lowercase(s: Seq<char>) -> Seq<char>;

/// `c` with an ASCII upper-case letter made lower-case.
pub open spec fn ascii_lower_char(c: char) -> char {
    if 'A' <= c <= 'Z' {
        ((c as u32) + 32) as char
    } else {
        c
    }
}

/// `s` with its ASCII upper-case letters made lower-case.
pub open spec fn ascii_lower(s: Seq<char>) -> Seq<char> {
    s.map_values(|c: char| ascii_lower_char(c))
}

/// The lowercase form of `s` as `str::to_lowercase` gives it: for ASCII
/// text, its ASCII lowercase form.
pub open spec fn lower_text(s: Seq<char>) -> Seq<char> {
    if is_ascii_chars(s) {
        ascii_lower(s)
    } else {
        lowercase(s)
    }
}

/// Calls `str::to_lowercase`. Its contract claims that the result is a
/// function of the characters of `s`, named [`lowercase`], and that ASCII
/// text is lowercased letter by letter, `A`..`Z` becoming `a`..`z`; the
/// Unicode case mapping of other characters is left unsaid.
#[verifier::external_body]
fn to_lowercase(s: &str) -> (r: String)
    ensures
        r@ == lowercase(s@),
        is_ascii_chars(s@) ==> r@ == ascii_lower(s@),
{
    s.to_lowercase()
}

/// The number of bytes of the UTF-8 form of `c`.
pub open spec fn utf8_width(c: char) -> nat {
    encode_scalar(c as u32).len()
}

/// The position in `s` of the character at which the UTF-8 form of `s`
/// reaches `b` bytes, if a character starts (or `s` ends) exactly there.
pub open spec fn char_index_at(s: Seq<char>, b: int) -> Option<int>
    decreases s.len(),
{
    if b == 0 {
        Some(0)
    } else if b < 0 || s.len() == 0 {
        None
    } else {
        match char_index_at(s.drop_first(), b - utf8_width(s[0])) {
            Some(j) => Some(j + 1),
            None => None,
        }
    }
}

/// The zones of the text `s` for the (lowercase) term `p`, as the byte
/// positions of `str::find` make them: the first occurrence of `p` in the
/// lowercase form of `s` is located by its byte offsets there, and those
/// same byte offsets cut `s` into what comes before (a normal zone), the
/// highlighted zone and the rest, which is split the same way. `None` where
/// an offset does not fall between two characters of `s` (the slicing would
/// fail), or where `p` is empty (the splitting would never end).
pub open spec fn spec_highlight_text(s: Seq<char>, p: Seq<char>) -> Option<Seq<ZoneView>>
    decreases s.len(),
{
    let l = lower_text(s);
    if p.len() == 0 {
        None
    } else {
        match first_occurrence(l, p) {
            None => Some(seq![ZoneView::Normal(s)]),
            Some(i) => {
                let b0 = encode_utf8(l.take(i)).len() as int;
                let bp = encode_utf8(p).len() as int;
                match char_index_at(s, b0) {
                    None => None,
                    Some(j0) => match char_index_at(s.skip(j0), bp) {
                        None => None,
                        Some(k) => {
                            proof {
                                lemma_char_index_bounds(s, b0);
                                lemma_char_index_bounds(s.skip(j0), bp);
                                lemma_utf8_nonempty(p);
                            }
                            let j1 = j0 + k;
                            let head = if j0 == 0 {
                                seq![ZoneView::Highlight(s.subrange(0, j1))]
                            } else {
                                seq![ZoneView::Normal(s.take(j0)), ZoneView::Highlight(s.subrange(j0, j1))]
                            };
                            match spec_highlight_text(s.skip(j1), p) {
                                Some(rest) => Some(head + rest),
                                None => None,
                            }
                        },
                    },
                }
            },
        }
    }
}

/// Where `char_index_at` lands: within the text, and past its start when
/// the offset is positive.
pub proof fn lemma_char_index_bounds(s: Seq<char>, b: int)
    ensures
        char_index_at(s, b) matches Some(j) ==> 0 <= j <= s.len() && (b > 0 ==> j > 0),
    decreases s.len(),
{
    if b != 0 && b >= 0 && s.len() > 0 {
        lemma_char_index_bounds(s.drop_first(), b - utf8_width(s[0]));
    }
}

/// A non-empty text has a non-empty UTF-8 form.
pub proof fn lemma_utf8_nonempty(p: Seq<char>)
    requires
        p.len() > 0,
    ensures
        encode_utf8(p).len() > 0,
{
    assert(encode_scalar(p[0] as u32).len() > 0);
}

/// Appending a character adds its width to the UTF-8 length.
proof fn lemma_utf8_push(a: Seq<char>, c: char)
    ensures
        encode_utf8(a.push(c)).len() == encode_utf8(a).len() + utf8_width(c),
        utf8_width(c) <= 4,
    decreases a.len(),
{
    assert(encode_scalar(c as u32).len() <= 4);
    if a.len() == 0 {
        assert(seq![c].drop_first() =~= Seq::<char>::empty());
        assert(a.push(c) =~= seq![c]);
        assert(encode_utf8(Seq::<char>::empty()) =~= Seq::<u8>::empty());
        assert(encode_utf8(seq![c]) =~= encode_scalar(c as u32) + encode_utf8(
            Seq::<char>::empty(),
        ));
    } else {
        assert(a.push(c).drop_first() =~= a.drop_first().push(c));
        assert(a.push(c)[0] == a[0]);
        lemma_utf8_push(a.drop_first(), c);
    }
}

/// The width of a character's UTF-8 form.
fn width_of(c: char) -> (w: u128)
    ensures
        w == utf8_width(c),
{
    proof {
        vstd::utf8::char_is_scalar(c);
    }
    let v = c as u32;
    if v < 0x80 {
        1
    } else if v < 0x800 {
        2
    } else if v < 0x10000 {
        3
    } else {
        4
    }
}

/// The UTF-8 length of the first `k` characters of `v`.
fn utf8_prefix_len(v: &Vec<char>, k: usize) -> (r: u128)
    requires
        k <= v@.len(),
    ensures
        r == encode_utf8(v@.take(k as int)).len(),
{
    let mut acc: u128 = 0;
    let mut j: usize = 0;
    assert(v@.take(0) =~= Seq::<char>::empty());
    while j < k
        invariant
            j <= k <= v@.len(),
            acc == encode_utf8(v@.take(j as int)).len(),
            acc <= 4 * j,
        decreases k - j,
    {
        proof {
            lemma_utf8_push(v@.take(j as int), v@[j as int]);
            assert(v@.take(j as int).push(v@[j as int]) =~= v@.take(j + 1));
        }
        acc = acc + width_of(v[j]);
        j = j + 1;
    }
    acc
}

/// Where the UTF-8 form of `v` from position `from` on reaches `b` bytes,
/// counted in characters from `from`.
fn char_index_from(v: &Vec<char>, from: usize, b: u128) -> (r: Option<usize>)
    requires
        from <= v@.len(),
    ensures
        r matches Some(k) ==> char_index_at(v@.skip(from as int), b as int) == Some(k as int)
            && from + k <= v@.len(),
        r is None ==> char_index_at(v@.skip(from as int), b as int) is None,
{
    let mut j: usize = from;
    let mut acc: u128 = 0;
    while acc < b && j < v.len()
        invariant
            from <= j <= v@.len(),
            acc <= b,
            char_index_at(v@.skip(from as int), b as int) == match char_index_at(
                v@.skip(j as int),
                b - acc,
            ) {
                Some(x) => Some(x + (j - from)),
                None => None,
            },
        decreases v@.len() - j,
    {
        let w = width_of(v[j]);
        proof {
            let t = v@.skip(j as int);
            assert(t[0] == v@[j as int]);
            assert(t.drop_first() =~= v@.skip(j + 1));
        }
        if w > b - acc {
            assert(char_index_at(v@.skip(j + 1), b - acc - w) is None);
            assert(char_index_at(v@.skip(j as int), b - acc) is None);
            return None;
        }
        acc = acc + w;
        j = j + 1;
    }
    if acc == b {
        Some(j - from)
    } else {
        proof {
            assert(v@.skip(j as int).len() == 0);
        }
        None
    }
}

/// The zones that one zone becomes for the term `p`: highlighted zones stay
/// as they are, normal ones are split.
pub open spec fn spec_highlight_zone(z: ZoneView, p: Seq<char>) -> Option<Seq<ZoneView>> {
    match z {
        ZoneView::Highlight(_) => Some(seq![z]),
        ZoneView::Normal(s) => spec_highlight_text(s, p),
    }
}

/// The zones that a list of zones becomes for the term `p`, in order.
pub open spec fn spec_highlight_zones(zs: Seq<ZoneView>, p: Seq<char>) -> Option<Seq<ZoneView>>
    decreases zs.len(),
{
    if zs.len() == 0 {
        Some(seq![])
    } else {
        match (spec_highlight_zones(zs.drop_last(), p), spec_highlight_zone(zs.last(), p)) {
            (Some(a), Some(b)) => Some(a + b),
            _ => None,
        }
    }
}

/// The model of an optional list of zones.
pub open spec fn zones_view(r: Option<Vec<Zone>>) -> Option<Seq<ZoneView>> {
    match r {
        Some(v) => Some(v.deep_view()),
        None => None,
    }
}

/// Splits the characters of `s` from position `start` on for the term `p`.
fn highlight_from(s: &Vec<char>, start: usize, p: &Vec<char>) -> (r: Option<Vec<Zone>>)
    requires
        start <= s@.len(),
        p@.len() > 0,
    ensures
        zones_view(r) == spec_highlight_text(s@.skip(start as int), p@),
    decreases s@.len() - start,
{
    let ghost t = s@.skip(start as int);
    let n = s.len();
    let piece = string_of_range(s, start, n);
    assert(piece@ =~= t);
    let lowered = chars_of(to_lowercase(piece.as_str()).as_str());
    assert(lowered@ == lower_text(t));
    match find(&lowered, p) {
        None => {
            let v = vec![Zone::Normal(piece)];
            assert(v.deep_view() =~= seq![ZoneView::Normal(t)]);
            Some(v)
        },
        Some(i) => {
            proof {
                lemma_find_from(lowered@, p@, 0);
            }
            let b0 = utf8_prefix_len(&lowered, i);
            let bp = utf8_prefix_len(p, p.len());
            assert(p@.take(p@.len() as int) =~= p@);
            let j0 = match char_index_from(s, start, b0) {
                Some(j) => j,
                None => {
                    return None;
                },
            };
            assert(s@.skip(start + j0) =~= t.skip(j0 as int));
            let k = match char_index_from(s, start + j0, bp) {
                Some(k) => k,
                None => {
                    return None;
                },
            };
            proof {
                lemma_char_index_bounds(t, b0 as int);
                lemma_char_index_bounds(t.skip(j0 as int), bp as int);
                lemma_utf8_nonempty(p@);
            }
            let end = start + j0 + k;
            let rest = highlight_from(s, end, p);
            assert(s@.skip(end as int) =~= t.skip(j0 + k));
            match rest {
                None => None,
                Some(mut rest) => {
                    let mut v: Vec<Zone> = Vec::new();
                    if j0 > 0 {
                        v.push(Zone::Normal(string_of_range(s, start, start + j0)));
                    }
                    v.push(Zone::Highlight(string_of_range(s, start + j0, end)));
                    let ghost head = v.deep_view();
                    let ghost tail = rest.deep_view();
                    proof {
                        assert(s@.subrange(start as int, start + j0) =~= t.take(j0 as int));
                        assert(s@.subrange(start + j0, end as int) =~= t.subrange(
                            j0 as int,
                            j0 + k,
                        ));
                        if j0 == 0 {
                            assert(head =~= seq![ZoneView::Highlight(t.subrange(0, j0 + k))]);
                        } else {
                            assert(head =~= seq![
                                ZoneView::Normal(t.take(j0 as int)),
                                ZoneView::Highlight(t.subrange(j0 as int, j0 + k)),
                            ]);
                        }
                    }
                    v.append(&mut rest);
                    assert(v.deep_view() =~= head + tail);
                    Some(v)
                },
            }
        },
    }
}

} // verus!

verus! {

/// Splits every normal zone of `zs` for the term `p`.
fn highlight_zones(zs: &Vec<Zone>, p: &Vec<char>) -> (r: Option<Vec<Zone>>)
    ensures
        zones_view(r) == spec_highlight_zones(zs.deep_view(), p@),
{
    let mut out: Vec<Zone> = Vec::new();
    let mut k: usize = 0;
    while k < zs.len()
        invariant
            k <= zs@.len(),
            spec_highlight_zones(zs.deep_view().take(k as int), p@) == Some(out.deep_view()),
        decreases zs@.len() - k,
    {
        let ghost before = out.deep_view();
        assert(zs.deep_view().take(k + 1).drop_last() =~= zs.deep_view().take(k as int));
        assert(zs.deep_view().take(k + 1).last() == zs@[k as int].deep_view());
        match &zs[k] {
            Zone::Highlight(s) => {
                out.push(Zone::Highlight(s.clone()));
                assert(out.deep_view() =~= before + seq![ZoneView::Highlight(s@)]);
            },
            Zone::Normal(s) => {
                if p.len() == 0 {
                    proof {
                        lemma_zones_none(zs.deep_view(), p@, k as int + 1);
                    }
                    return None;
                }
                let cs = chars_of(s.as_str());
                assert(cs@.skip(0) =~= cs@);
                match highlight_from(&cs, 0, p) {
                    None => {
                        proof {
                            lemma_zones_none(zs.deep_view(), p@, k as int + 1);
                        }
                        return None;
                    },
                    Some(mut more) => {
                        let ghost m = more.deep_view();
                        out.append(&mut more);
                        assert(out.deep_view() =~= before + m);
                    },
                }
            },
        }
        k = k + 1;
    }
    assert(zs.deep_view().take(zs@.len() as int) =~= zs.deep_view());
    Some(out)
}

/// Once a prefix of the zones cannot be split, neither can the whole list.
proof fn lemma_zones_none(zs: Seq<ZoneView>, p: Seq<char>, k: int)
    requires
        0 <= k <= zs.len(),
        spec_highlight_zones(zs.take(k), p) is None,
    ensures
        spec_highlight_zones(zs, p) is None,
    decreases zs.len() - k,
{
    if k < zs.len() {
        assert(zs.take(k + 1).drop_last() =~= zs.take(k));
        lemma_zones_none(zs, p, k + 1);
    } else {
        assert(zs.take(k) =~= zs);
    }
}

/// The length in bytes of the UTF-8 encoding of `t`, as `str::len` reports it.
pub open spec fn byte_len(t: Seq<char>) -> usize {
    encode_utf8(t).len() as usize
}

/// `x` inserted into `sorted` after the last term that is at least as long.
pub open spec fn insert_by_len(sorted: Seq<Seq<char>>, x: Seq<char>) -> Seq<Seq<char>>
    decreases sorted.len(),
{
    if sorted.len() == 0 {
        seq![x]
    } else if byte_len(sorted.last()) >= byte_len(x) {
        sorted.push(x)
    } else {
        insert_by_len(sorted.drop_last(), x).push(sorted.last())
    }
}

/// The terms, longest first; terms of equal length keep their order.
pub open spec fn sort_by_len(terms: Seq<Seq<char>>) -> Seq<Seq<char>>
    decreases terms.len(),
{
    if terms.len() == 0 {
        seq![]
    } else {
        insert_by_len(sort_by_len(terms.drop_last()), terms.last())
    }
}

proof fn lemma_insert_by_len(sorted: Seq<Seq<char>>, x: Seq<char>, j: int)
    requires
        0 <= j <= sorted.len(),
        forall|m: int| j <= m < sorted.len() ==> byte_len(#[trigger] sorted[m]) < byte_len(x),
        j == 0 || byte_len(sorted[j - 1]) >= byte_len(x),
    ensures
        insert_by_len(sorted, x) == sorted.take(j).push(x) + sorted.skip(j),
    decreases sorted.len(),
{
    if sorted.len() == 0 {
        assert(sorted.take(j).push(x) + sorted.skip(j) =~= seq![x]);
    } else if byte_len(sorted.last()) >= byte_len(x) {
        assert(sorted.take(j).push(x) + sorted.skip(j) =~= sorted.push(x));
    } else {
        let d = sorted.drop_last();
        lemma_insert_by_len(d, x, j);
        assert((d.take(j).push(x) + d.skip(j)).push(sorted.last()) =~= sorted.take(j).push(x)
            + sorted.skip(j));
    }
}

/// The terms sorted longest first (in bytes), stably.
fn sort_by_len_desc(terms: &Vec<String>) -> (r: Vec<String>)
    ensures
        r.deep_view() == sort_by_len(terms.deep_view()),
{
    let mut res: Vec<String> = Vec::new();
    let mut k: usize = 0;
    assert(terms.deep_view().take(0) =~= seq![]);
    assert(res.deep_view() =~= seq![]);
    while k < terms.len()
        invariant
            k <= terms@.len(),
            res.deep_view() == sort_by_len(terms.deep_view().take(k as int)),
        decreases terms@.len() - k,
    {
        let x = terms[k].clone();
        let xl = x.as_str().len();
        let mut j = res.len();
        while j > 0 && res[j - 1].as_str().len() < xl
            invariant
                j <= res@.len(),
                xl == byte_len(x@),
                forall|m: int|
                    j <= m < res@.len() ==> byte_len(#[trigger] res.deep_view()[m]) < byte_len(
                        x@,
                    ),
            decreases j,
        {
            j = j - 1;
        }
        let ghost before = res.deep_view();
        proof {
            lemma_insert_by_len(before, x@, j as int);
        }
        res.insert(j, x);
        assert(res.deep_view() =~= before.take(j as int).push(x@) + before.skip(j as int));
        assert(terms.deep_view().take(k + 1).drop_last() =~= terms.deep_view().take(k as int));
        k = k + 1;
    }
    assert(terms.deep_view().take(terms@.len() as int) =~= terms.deep_view());
    res
}

} // verus!

verus! {

/// Each term lowercased.
pub open spec fn lowercase_all(ts: Seq<Seq<char>>) -> Seq<Seq<char>> {
    ts.map_values(|t: Seq<char>| lower_text(t))
}

/// The zones after splitting by each term of `terms` in turn.
pub open spec fn spec_fold(zs: Seq<ZoneView>, terms: Seq<Seq<char>>) -> Option<Seq<ZoneView>>
    decreases terms.len(),
{
    if terms.len() == 0 {
        Some(zs)
    } else {
        match spec_highlight_zones(zs, terms[0]) {
            Some(z) => spec_fold(z, terms.drop_first()),
            None => None,
        }
    }
}

/// How `text` is shown for the search `terms`: with no terms, as one normal
/// zone; else split by each lowercased term, the longest terms first.
pub open spec fn spec_highlight(text: Seq<char>, terms: Option<Seq<Seq<char>>>) -> Option<
    Seq<ZoneView>,
> {
    match terms {
        None => Some(seq![ZoneView::Normal(text)]),
        Some(ts) => if ts.len() == 0 {
            Some(seq![ZoneView::Normal(text)])
        } else {
            spec_fold(
                seq![ZoneView::Normal(text)],
                lowercase_all(sort_by_len(ts)),
            )
        },
    }
}

/// Splits `text` into the zones to show for the search `terms`, matching
/// case-insensitively, longest terms first. `None` where a term's lowercase
/// form is empty, or where a byte offset found in the lowercase form of a
/// text does not fall between two of its characters.
pub fn highlight(text: &str, terms: Option<&Vec<String>>) -> (r: Option<Vec<Zone>>)
    ensures
        zones_view(r) == spec_highlight(
            text@,
            match terms {
                Some(t) => Some(t.deep_view()),
                None => None,
            },
        ),
{
    let start = vec![Zone::Normal(text.to_owned())];
    assert(start.deep_view() =~= seq![ZoneView::Normal(text@)]);
    let ts = match terms {
        None => {
            return Some(start);
        },
        Some(ts) => ts,
    };
    if ts.len() == 0 {
        return Some(start);
    }
    let sorted = sort_by_len_desc(ts);
    let ghost lowered = lowercase_all(sorted.deep_view());
    let ghost init = start.deep_view();
    let mut zones = start;
    let mut k: usize = 0;
    assert(lowered.skip(0) =~= lowered);
    while k < sorted.len()
        invariant
            k <= sorted@.len(),
            ts@.len() > 0,
            terms == Some(ts),
            init == seq![ZoneView::Normal(text@)],
            sorted.deep_view() == sort_by_len(ts.deep_view()),
            lowered == lowercase_all(sorted.deep_view()),
            spec_fold(init, lowered) == spec_fold(zones.deep_view(), lowered.skip(k as int)),
        decreases sorted@.len() - k,
    {
        let p = chars_of(to_lowercase(sorted[k].as_str()).as_str());
        assert(p@ == lower_text(sorted.deep_view()[k as int]));
        assert(lowered.skip(k as int).len() > 0);
        assert(lowered.skip(k as int)[0] == p@);
        assert(lowered.skip(k as int).drop_first() =~= lowered.skip(k + 1));
        match highlight_zones(&zones, &p) {
            Some(z) => {
                zones = z;
            },
            None => {
                assert(spec_fold(zones.deep_view(), lowered.skip(k as int)) is None);
                assert(spec_fold(init, lowered) is None);
                assert(ts.deep_view().len() > 0);
                return None;
            },
        }
        k = k + 1;
    }
    assert(lowered.skip(sorted@.len() as int) =~= seq![]);
    Some(zones)
}

} // verus!

verus! {

/// The characters of a zone.
pub open spec fn zone_text(z: ZoneView) -> Seq<char> {
    match z {
        ZoneView::Highlight(s) => s,
        ZoneView::Normal(s) => s,
    }
}

/// The characters of the zones, one after the other.
pub open spec fn joined(zs: Seq<ZoneView>) -> Seq<char>
    decreases zs.len(),
{
    if zs.len() == 0 {
        seq![]
    } else {
        joined(zs.drop_last()) + zone_text(zs.last())
    }
}

proof fn lemma_joined_single(z: ZoneView)
    ensures
        joined(seq![z]) == zone_text(z),
{
    assert(seq![z].drop_last() =~= Seq::<ZoneView>::empty());
    assert(joined(Seq::<ZoneView>::empty()) + zone_text(z) =~= zone_text(z));
}

proof fn lemma_joined_concat(a: Seq<ZoneView>, b: Seq<ZoneView>)
    ensures
        joined(a + b) == joined(a) + joined(b),
    decreases b.len(),
{
    if b.len() == 0 {
        assert(a + b =~= a);
        assert(joined(b) =~= seq![]);
        assert(joined(a) + joined(b) =~= joined(a));
    } else {
        lemma_joined_concat(a, b.drop_last());
        assert((a + b).drop_last() =~= a + b.drop_last());
        assert(joined(a) + joined(b.drop_last()) + zone_text(b.last()) =~= joined(a) + (joined(
            b.drop_last(),
        ) + zone_text(b.last())));
    }
}

proof fn lemma_text_keeps_characters(s: Seq<char>, p: Seq<char>)
    ensures
        spec_highlight_text(s, p) matches Some(zs) ==> joined(zs) == s,
    decreases s.len(),
{
    let l = lower_text(s);
    if p.len() > 0 {
        if let Some(i) = first_occurrence(l, p) {
            let b0 = encode_utf8(l.take(i)).len() as int;
            let bp = encode_utf8(p).len() as int;
            if let Some(j0) = char_index_at(s, b0) {
                if let Some(k) = char_index_at(s.skip(j0), bp) {
                    lemma_char_index_bounds(s, b0);
                    lemma_char_index_bounds(s.skip(j0), bp);
                    lemma_utf8_nonempty(p);
                    let j1 = j0 + k;
                    lemma_text_keeps_characters(s.skip(j1), p);
                    let head = if j0 == 0 {
                        seq![ZoneView::Highlight(s.subrange(0, j1))]
                    } else {
                        seq![ZoneView::Normal(s.take(j0)), ZoneView::Highlight(s.subrange(j0, j1))]
                    };
                    if let Some(rest) = spec_highlight_text(s.skip(j1), p) {
                        lemma_joined_concat(head, rest);
                        if j0 == 0 {
                            lemma_joined_single(ZoneView::Highlight(s.subrange(0, j1)));
                            assert(s.subrange(0, j1) + s.skip(j1) =~= s);
                        } else {
                            assert(head.drop_last() =~= seq![ZoneView::Normal(s.take(j0))]);
                            lemma_joined_single(ZoneView::Normal(s.take(j0)));
                            assert(s.take(j0) + s.subrange(j0, j1) + s.skip(j1) =~= s);
                        }
                    }
                }
            }
        } else {
            lemma_joined_single(ZoneView::Normal(s));
        }
    }
}

proof fn lemma_zones_keep_characters(zs: Seq<ZoneView>, p: Seq<char>)
    ensures
        spec_highlight_zones(zs, p) matches Some(r) ==> joined(r) == joined(zs),
    decreases zs.len(),
{
    if zs.len() > 0 {
        lemma_zones_keep_characters(zs.drop_last(), p);
        let z = zs.last();
        if let (Some(a), Some(b)) = (
            spec_highlight_zones(zs.drop_last(), p),
            spec_highlight_zone(z, p),
        ) {
            lemma_joined_concat(a, b);
            match z {
                ZoneView::Highlight(s) => {
                    lemma_joined_single(z);
                },
                ZoneView::Normal(s) => {
                    lemma_text_keeps_characters(s, p);
                },
            }
        }
    }
}

proof fn lemma_fold_keeps_characters(zs: Seq<ZoneView>, terms: Seq<Seq<char>>)
    ensures
        spec_fold(zs, terms) matches Some(r) ==> joined(r) == joined(zs),
    decreases terms.len(),
{
    if terms.len() > 0 {
        lemma_zones_keep_characters(zs, terms[0]);
        if let Some(z) = spec_highlight_zones(zs, terms[0]) {
            lemma_fold_keeps_characters(z, terms.drop_first());
        }
    }
}

/// Highlighting only splits the text: the zones, read one after the other,
/// give back the text, whatever the terms.
pub proof fn law_highlight_keeps_text(text: Seq<char>, terms: Option<Seq<Seq<char>>>)
    ensures
        spec_highlight(text, terms) matches Some(zs) ==> joined(zs) == text,
{
    let start = seq![ZoneView::Normal(text)];
    lemma_joined_single(ZoneView::Normal(text));
    if let Some(ts) = terms {
        if ts.len() > 0 {
            lemma_fold_keeps_characters(start, lowercase_all(sort_by_len(ts)));
        }
    }
}

} // verus!

verus! {

proof fn lemma_ascii_lower_facts(s: Seq<char>)
    requires
        is_ascii_chars(s),
    ensures
        ascii_lower(s).len() == s.len(),
        is_ascii_chars(ascii_lower(s)),
        lower_text(s) == ascii_lower(s),
        encode_utf8(s).len() == s.len(),
{
    vstd::utf8::is_ascii_chars_encode_utf8(s);
    assert forall|i: int| 0 <= i < ascii_lower(s).len() implies '\0' <= #[trigger] ascii_lower(
        s,
    )[i] <= '\u{7f}' by {
        assert('\0' <= s[i] <= '\u{7f}');
    }
}

proof fn lemma_ascii_char_index(s: Seq<char>, b: int)
    requires
        is_ascii_chars(s),
        0 <= b <= s.len(),
    ensures
        char_index_at(s, b) == Some(b),
    decreases s.len(),
{
    if b > 0 {
        assert('\0' <= s[0] <= '\u{7f}');
        assert(utf8_width(s[0]) == 1);
        let t = s.drop_first();
        assert forall|i: int| 0 <= i < t.len() implies '\0' <= #[trigger] t[i] <= '\u{7f}' by {
            assert(t[i] == s[i + 1]);
        }
        lemma_ascii_char_index(t, b - 1);
    }
}

proof fn lemma_ascii_sub(s: Seq<char>, a: int, b: int)
    requires
        is_ascii_chars(s),
        0 <= a <= b <= s.len(),
    ensures
        is_ascii_chars(s.subrange(a, b)),
        ascii_lower(s.subrange(a, b)) == ascii_lower(s).subrange(a, b),
{
    let t = s.subrange(a, b);
    assert forall|i: int| 0 <= i < t.len() implies '\0' <= #[trigger] t[i] <= '\u{7f}' by {
        assert(t[i] == s[a + i]);
    }
    assert(ascii_lower(t) =~= ascii_lower(s).subrange(a, b));
}

/// No occurrence of `p` in `n`, ignoring ASCII case.
pub open spec fn free_of(n: Seq<char>, p: Seq<char>) -> bool {
    first_occurrence(ascii_lower(n), p) is None
}

/// Zones split for the terms `ps`: a highlighted zone is one of the terms,
/// ignoring case; a normal zone is ASCII and holds none of them.
pub open spec fn split_for(zs: Seq<ZoneView>, ps: Seq<Seq<char>>) -> bool {
    forall|z: int|
        0 <= z < zs.len() ==> match #[trigger] zs[z] {
            ZoneView::Highlight(h) => ps.contains(ascii_lower(h)),
            ZoneView::Normal(n) => is_ascii_chars(n) && forall|q: Seq<char>|
                #[trigger] ps.contains(q) ==> free_of(n, q),
        }
}

proof fn lemma_free_sub(s: Seq<char>, a: int, b: int, p: Seq<char>)
    requires
        is_ascii_chars(s),
        0 <= a <= b <= s.len(),
        free_of(s, p),
    ensures
        free_of(s.subrange(a, b), p),
{
    lemma_ascii_sub(s, a, b);
    lemma_ascii_lower_facts(s);
    let l = ascii_lower(s);
    lemma_find_from(l, p, 0);
    let n = ascii_lower(s.subrange(a, b));
    lemma_find_from(n, p, 0);
    if let Some(q) = first_occurrence(n, p) {
        assert(n.subrange(q, q + p.len()) =~= l.subrange(a + q, a + q + p.len()));
        assert(occurs_at(l, p, a + q));
    }
}

proof fn lemma_ascii_split(s: Seq<char>, p: Seq<char>, ps: Seq<Seq<char>>)
    requires
        is_ascii_chars(s),
        p.len() > 0,
        forall|q: Seq<char>| #[trigger] ps.contains(q) ==> free_of(s, q),
    ensures
        spec_highlight_text(s, p) matches Some(zs) && split_for(zs, ps.push(p)),
    decreases s.len(),
{
    lemma_ascii_lower_facts(s);
    let l = lower_text(s);
    let qs = ps.push(p);
    lemma_find_from(l, p, 0);
    assert(qs.contains(p)) by {
        assert(qs[ps.len() as int] == p);
    }
    assert forall|q: Seq<char>| #[trigger] qs.contains(q) implies q == p || ps.contains(q) by {
        if q != p {
            let m = choose|m: int| 0 <= m < qs.len() && qs[m] == q;
            assert(ps[m] == q);
        }
    }
    match first_occurrence(l, p) {
        None => {
            assert(spec_highlight_text(s, p) == Some(seq![ZoneView::Normal(s)]));
            assert(free_of(s, p));
        },
        Some(i) => {
            let plen = p.len() as int;
            let j1 = i + plen;
            lemma_ascii_sub(s, 0, i);
            lemma_ascii_sub(s, i, j1);
            lemma_ascii_sub(s, j1, s.len() as int);
            assert(s.subrange(0, i) =~= s.take(i));
            assert(s.subrange(j1, s.len() as int) =~= s.skip(j1));
            lemma_ascii_sub(l, 0, i);
            assert(l.subrange(0, i) =~= l.take(i));
            lemma_ascii_lower_facts(l.take(i));
            lemma_ascii_char_index(s, i);
            lemma_ascii_sub(s, i, s.len() as int);
            assert(s.subrange(i, s.len() as int) =~= s.skip(i));
            lemma_ascii_char_index(s.skip(i), plen);
            assert(occurs_at(l, p, i));
            assert(is_ascii_chars(p)) by {
                assert forall|x: int| 0 <= x < p.len() implies '\0' <= #[trigger] p[x]
                    <= '\u{7f}' by {
                    assert(p[x] == l[i + x]);
                }
            }
            lemma_ascii_lower_facts(p);
            assert forall|q: Seq<char>| #[trigger] ps.contains(q) implies free_of(s.skip(j1), q) by {
                lemma_free_sub(s, j1, s.len() as int, q);
            }
            lemma_ascii_split(s.skip(j1), p, ps);
            let rest = spec_highlight_text(s.skip(j1), p)->0;
            let h = s.subrange(i, j1);
            assert(ascii_lower(h) == p);
            let n = s.take(i);
            if i > 0 {
                lemma_find_from(ascii_lower(n), p, 0);
                assert(free_of(n, p)) by {
                    if let Some(q) = first_occurrence(ascii_lower(n), p) {
                        assert(ascii_lower(n).subrange(q, q + plen) =~= l.subrange(q, q + plen));
                        assert(occurs_at(l, p, q));
                    }
                }
                assert forall|q: Seq<char>| #[trigger] ps.contains(q) implies free_of(n, q) by {
                    lemma_free_sub(s, 0, i, q);
                }
            }
            let head = if i == 0 {
                seq![ZoneView::Highlight(h)]
            } else {
                seq![ZoneView::Normal(n), ZoneView::Highlight(h)]
            };
            let zs = head + rest;
            assert(spec_highlight_text(s, p) == Some(zs));
            assert forall|z: int| 0 <= z < zs.len() implies match #[trigger] zs[z] {
                ZoneView::Highlight(h) => qs.contains(ascii_lower(h)),
                ZoneView::Normal(n) => is_ascii_chars(n) && forall|q: Seq<char>|
                    #[trigger] qs.contains(q) ==> free_of(n, q),
            } by {
                if z >= head.len() {
                    assert(zs[z] == rest[z - head.len()]);
                }
            }
        },
    }
}

/// Highlighting an ASCII text for a non-empty term always succeeds: each
/// highlighted zone is an occurrence of the term, ignoring ASCII case, and
/// no normal zone holds one.
pub proof fn law_ascii_highlight(s: Seq<char>, p: Seq<char>)
    requires
        is_ascii_chars(s),
        p.len() > 0,
    ensures
        spec_highlight_text(s, p) matches Some(zs) && forall|z: int|
            0 <= z < zs.len() ==> match #[trigger] zs[z] {
                ZoneView::Highlight(h) => ascii_lower(h) == p,
                ZoneView::Normal(n) => free_of(n, p),
            },
{
    let ps = Seq::<Seq<char>>::empty();
    lemma_ascii_split(s, p, ps);
    let zs = spec_highlight_text(s, p)->0;
    assert(ps.push(p).contains(p)) by {
        assert(ps.push(p)[0] == p);
    }
    assert forall|z: int| 0 <= z < zs.len() implies match #[trigger] zs[z] {
        ZoneView::Highlight(h) => ascii_lower(h) == p,
        ZoneView::Normal(n) => free_of(n, p),
    } by {
        if let ZoneView::Highlight(h) = zs[z] {
            let m = choose|m: int| 0 <= m < ps.push(p).len() && ps.push(p)[m] == ascii_lower(h);
        }
    }
}

proof fn lemma_contains_push<A>(xs: Seq<A>, p: A)
    ensures
        forall|y: A| #[trigger] xs.push(p).contains(y) <==> xs.contains(y) || y == p,
{
    assert forall|y: A| #[trigger] xs.push(p).contains(y) implies xs.contains(y) || y == p by {
        let m = choose|m: int| 0 <= m < xs.push(p).len() && xs.push(p)[m] == y;
        if m < xs.len() {
            assert(xs[m] == y);
        }
    }
    assert forall|y: A| xs.contains(y) || y == p implies #[trigger] xs.push(p).contains(y) by {
        if xs.contains(y) {
            let m = choose|m: int| 0 <= m < xs.len() && xs[m] == y;
            assert(xs.push(p)[m] == y);
        } else {
            assert(xs.push(p)[xs.len() as int] == y);
        }
    }
}

proof fn lemma_insert_members(sorted: Seq<Seq<char>>, x: Seq<char>)
    ensures
        forall|y: Seq<char>|
            #[trigger] insert_by_len(sorted, x).contains(y) <==> sorted.contains(y) || y == x,
    decreases sorted.len(),
{
    if sorted.len() == 0 {
        lemma_contains_push(sorted, x);
        assert(sorted.push(x) =~= seq![x]);
    } else if byte_len(sorted.last()) >= byte_len(x) {
        lemma_contains_push(sorted, x);
    } else {
        let d = sorted.drop_last();
        lemma_insert_members(d, x);
        lemma_contains_push(insert_by_len(d, x), sorted.last());
        lemma_contains_push(d, sorted.last());
        assert(d.push(sorted.last()) =~= sorted);
    }
}

proof fn lemma_sort_members(ts: Seq<Seq<char>>)
    ensures
        forall|y: Seq<char>| #[trigger] sort_by_len(ts).contains(y) <==> ts.contains(y),
    decreases ts.len(),
{
    if ts.len() > 0 {
        let d = ts.drop_last();
        lemma_sort_members(d);
        lemma_insert_members(sort_by_len(d), ts.last());
        lemma_contains_push(d, ts.last());
        assert(d.push(ts.last()) =~= ts);
    }
}

proof fn lemma_zones_split(zs: Seq<ZoneView>, p: Seq<char>, ps: Seq<Seq<char>>)
    requires
        split_for(zs, ps),
        p.len() > 0,
    ensures
        spec_highlight_zones(zs, p) matches Some(r) && split_for(r, ps.push(p)),
    decreases zs.len(),
{
    lemma_contains_push(ps, p);
    if zs.len() > 0 {
        let d = zs.drop_last();
        assert forall|z: int| 0 <= z < d.len() implies match #[trigger] d[z] {
            ZoneView::Highlight(h) => ps.contains(ascii_lower(h)),
            ZoneView::Normal(n) => is_ascii_chars(n) && forall|q: Seq<char>|
                #[trigger] ps.contains(q) ==> free_of(n, q),
        } by {
            assert(d[z] == zs[z]);
        }
        lemma_zones_split(d, p, ps);
        let a = spec_highlight_zones(d, p)->0;
        let last = zs.last();
        assert(last == zs[zs.len() - 1]);
        match last {
            ZoneView::Highlight(h) => {
                assert(split_for(seq![last], ps.push(p))) by {
                    assert forall|z: int| 0 <= z < 1 implies match #[trigger] seq![last][z] {
                        ZoneView::Highlight(h) => ps.push(p).contains(ascii_lower(h)),
                        ZoneView::Normal(n) => is_ascii_chars(n) && forall|q: Seq<char>|
                            #[trigger] ps.push(p).contains(q) ==> free_of(n, q),
                    } by {
                        assert(seq![last][z] == last);
                    }
                }
            },
            ZoneView::Normal(n) => {
                lemma_ascii_split(n, p, ps);
            },
        }
        let b = spec_highlight_zone(last, p)->0;
        let r = a + b;
        assert forall|z: int| 0 <= z < r.len() implies match #[trigger] r[z] {
            ZoneView::Highlight(h) => ps.push(p).contains(ascii_lower(h)),
            ZoneView::Normal(n) => is_ascii_chars(n) && forall|q: Seq<char>|
                #[trigger] ps.push(p).contains(q) ==> free_of(n, q),
        } by {
            if z < a.len() {
                assert(r[z] == a[z]);
            } else {
                assert(r[z] == b[z - a.len()]);
            }
        }
    }
}

proof fn lemma_fold_split(zs: Seq<ZoneView>, terms: Seq<Seq<char>>, ps: Seq<Seq<char>>)
    requires
        split_for(zs, ps),
        forall|k: int| 0 <= k < terms.len() ==> #[trigger] terms[k].len() > 0,
    ensures
        spec_fold(zs, terms) matches Some(r) && split_for(r, ps + terms),
    decreases terms.len(),
{
    if terms.len() == 0 {
        assert(ps + terms =~= ps);
    } else {
        assert(terms[0].len() > 0);
        lemma_zones_split(zs, terms[0], ps);
        let z = spec_highlight_zones(zs, terms[0])->0;
        let rest = terms.drop_first();
        assert forall|k: int| 0 <= k < rest.len() implies #[trigger] rest[k].len() > 0 by {
            assert(rest[k] == terms[k + 1]);
        }
        lemma_fold_split(z, rest, ps.push(terms[0]));
        assert(ps.push(terms[0]) + rest =~= ps + terms);
    }
}

/// Highlighting an ASCII text for non-empty ASCII terms always succeeds:
/// each highlighted zone is one of the terms, ignoring ASCII case, and no
/// normal zone holds any of them.
pub proof fn law_highlight_ascii_terms(text: Seq<char>, ts: Seq<Seq<char>>)
    requires
        is_ascii_chars(text),
        ts.len() > 0,
        forall|m: int| 0 <= m < ts.len() ==> #[trigger] ts[m].len() > 0 && is_ascii_chars(ts[m]),
    ensures
        spec_highlight(text, Some(ts)) matches Some(zs) && forall|z: int|
            0 <= z < zs.len() ==> match #[trigger] zs[z] {
                ZoneView::Highlight(h) => exists|m: int|
                    0 <= m < ts.len() && ascii_lower(h) == ascii_lower(#[trigger] ts[m]),
                ZoneView::Normal(n) => forall|m: int|
                    0 <= m < ts.len() ==> free_of(n, ascii_lower(#[trigger] ts[m])),
            },
{
    let sorted = sort_by_len(ts);
    lemma_sort_members(ts);
    let terms = lowercase_all(sorted);
    assert forall|k: int| 0 <= k < sorted.len() implies #[trigger] sorted[k].len() > 0
        && is_ascii_chars(sorted[k]) && terms[k] == ascii_lower(sorted[k]) by {
        assert(sorted.contains(sorted[k]));
        assert(ts.contains(sorted[k]));
        let m = choose|m: int| 0 <= m < ts.len() && ts[m] == sorted[k];
        assert(ts[m].len() > 0 && is_ascii_chars(ts[m]));
        lemma_ascii_lower_facts(sorted[k]);
    }
    assert forall|k: int| 0 <= k < terms.len() implies #[trigger] terms[k].len() > 0 by {
        lemma_ascii_lower_facts(sorted[k]);
    }
    let start = seq![ZoneView::Normal(text)];
    let ps = Seq::<Seq<char>>::empty();
    assert(split_for(start, ps)) by {
        assert forall|z: int| 0 <= z < start.len() implies match #[trigger] start[z] {
            ZoneView::Highlight(h) => ps.contains(ascii_lower(h)),
            ZoneView::Normal(n) => is_ascii_chars(n) && forall|q: Seq<char>|
                #[trigger] ps.contains(q) ==> free_of(n, q),
        } by {
            assert(start[z] == ZoneView::Normal(text));
        }
    }
    lemma_fold_split(start, terms, ps);
    assert(ps + terms =~= terms);
    let zs = spec_fold(start, terms)->0;
    assert forall|z: int| 0 <= z < zs.len() implies match #[trigger] zs[z] {
        ZoneView::Highlight(h) => exists|m: int|
            0 <= m < ts.len() && ascii_lower(h) == ascii_lower(#[trigger] ts[m]),
        ZoneView::Normal(n) => forall|m: int|
            0 <= m < ts.len() ==> free_of(n, ascii_lower(#[trigger] ts[m])),
    } by {
        match zs[z] {
            ZoneView::Highlight(h) => {
                assert(terms.contains(ascii_lower(h)));
                let k = choose|k: int| 0 <= k < terms.len() && terms[k] == ascii_lower(h);
                assert(sorted.contains(sorted[k]));
                let m = choose|m: int| 0 <= m < ts.len() && ts[m] == sorted[k];
                assert(ascii_lower(h) == ascii_lower(ts[m]));
            },
            ZoneView::Normal(n) => {
                assert forall|m: int| 0 <= m < ts.len() implies free_of(
                    n,
                    ascii_lower(#[trigger] ts[m]),
                ) by {
                    assert(ts.contains(ts[m]));
                    assert(sorted.contains(ts[m]));
                    let k = choose|k: int| 0 <= k < sorted.len() && sorted[k] == ts[m];
                    assert(terms[k] == ascii_lower(ts[m]));
                    assert(terms.contains(terms[k]));
                }
            },
        }
    }
}

proof fn lemma_zones_of_one(text: Seq<char>, p: Seq<char>)
    ensures
        spec_highlight_zones(seq![ZoneView::Normal(text)], p) == spec_highlight_text(text, p),
{
    let start = seq![ZoneView::Normal(text)];
    assert(start.drop_last() =~= Seq::<ZoneView>::empty());
    assert(start.last() == ZoneView::Normal(text));
    assert(spec_highlight_zones(Seq::<ZoneView>::empty(), p) == Some(Seq::<ZoneView>::empty()));
    assert(spec_highlight_zones(start.drop_last(), p) == Some(Seq::<ZoneView>::empty()));
    assert(spec_highlight_zone(start.last(), p) == spec_highlight_text(text, p));
    if let Some(b) = spec_highlight_text(text, p) {
        assert(Seq::<ZoneView>::empty() + b =~= b);
    }
}

proof fn lemma_fold_one(zs: Seq<ZoneView>, p: Seq<char>)
    ensures
        spec_fold(zs, seq![p]) == spec_highlight_zones(zs, p),
{
    assert(seq![p].drop_first() =~= Seq::<Seq<char>>::empty());
    assert(seq![p][0] == p);
    if let Some(z) = spec_highlight_zones(zs, p) {
        assert(spec_fold(z, Seq::<Seq<char>>::empty()) == Some(z));
    }
}

proof fn lemma_sort_one(t: Seq<char>)
    ensures
        sort_by_len(seq![t]) == seq![t],
{
    let e = Seq::<Seq<char>>::empty();
    assert(seq![t].drop_last() =~= e);
    assert(seq![t].last() == t);
    assert(sort_by_len(e) == e);
    assert(insert_by_len(e, t) == seq![t]);
}

/// With a single search term, the text is split for the term's lowercase
/// form as `str::to_lowercase` writes it, whatever the term's characters:
/// a term that is not ASCII is matched through `lowercase` of it.
pub proof fn law_single_term_lowercased(text: Seq<char>, t: Seq<char>)
    ensures
        spec_highlight(text, Some(seq![t])) == spec_highlight_text(text, lower_text(t)),
        !is_ascii_chars(t) ==> spec_highlight(text, Some(seq![t])) == spec_highlight_text(
            text,
            lowercase(t),
        ),
        is_ascii_chars(t) ==> spec_highlight(text, Some(seq![t])) == spec_highlight_text(
            text,
            ascii_lower(t),
        ),
{
    let ts = seq![t];
    lemma_sort_one(t);
    assert(lowercase_all(seq![t]) =~= seq![lower_text(t)]);
    lemma_fold_one(seq![ZoneView::Normal(text)], lower_text(t));
    lemma_zones_of_one(text, lower_text(t));
}

/// With two search terms, the longer one (in bytes) splits the text first
/// and the other then splits what is left normal; of two terms of the same
/// length, the first given goes first. Each is matched through its
/// lowercase form.
pub proof fn law_two_terms_longest_first(text: Seq<char>, a: Seq<char>, b: Seq<char>)
    ensures
        ({
            let (first, second) = if byte_len(a) >= byte_len(b) {
                (a, b)
            } else {
                (b, a)
            };
            spec_highlight(text, Some(seq![a, b])) == match spec_highlight_text(
                text,
                lower_text(first),
            ) {
                Some(z) => spec_highlight_zones(z, lower_text(second)),
                None => None,
            }
        }),
{
    let ts = seq![a, b];
    assert(ts.drop_last() =~= seq![a]);
    lemma_sort_one(a);
    assert(ts.last() == b);
    let (first, second) = if byte_len(a) >= byte_len(b) {
        (a, b)
    } else {
        (b, a)
    };
    if byte_len(a) >= byte_len(b) {
        assert(insert_by_len(seq![a], b) =~= seq![a, b]);
    } else {
        assert(insert_by_len(Seq::<Seq<char>>::empty(), b) =~= seq![b]);
        assert(seq![a].drop_last() =~= Seq::<Seq<char>>::empty());
        assert(seq![a].last() == a);
        assert(seq![b].push(a) =~= seq![b, a]);
        assert(insert_by_len(seq![a], b) =~= seq![b, a]);
    }
    assert(sort_by_len(ts) =~= seq![first, second]);
    let terms = lowercase_all(seq![first, second]);
    assert(terms =~= seq![lower_text(first), lower_text(second)]);
    lemma_zones_of_one(text, lower_text(first));
    assert(terms.drop_first() =~= seq![lower_text(second)]);
    if let Some(z) = spec_highlight_text(text, lower_text(first)) {
        lemma_fold_one(z, lower_text(second));
    }
}

} // verus!
