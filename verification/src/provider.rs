use vstd::prelude::*;
use crate::data::{Bookmark, Tag};
use crate::eventually::Eventually;
use crate::query::{clone_tags, opt_tags, Order, Params, ParamsView};
use crate::text::{contains_text, join_with};
use crate::url::{decimal, decimal_string, percent_encoded, url_encode};
use vstd::utf8::encode_utf8;

verus! {

/// One page of bookmarks and the number of pages.
pub struct Data {
    pub pages_count: u64,
    pub bookmarks: Vec<Bookmark>,
}

/// How many bookmarks there are, and how many of them are private.
#[derive(PartialEq, Eq, Structural, Clone, Copy, Debug)]
pub struct Stats {
    pub count_total: u64,
    pub count_private: u64,
}

/// The page size used when none is asked for.
pub const DEFAULT_PAGE_SIZE: u64 = 20;

/// The state of the bookmark list: what is shown, and what was loaded.
pub struct State {
    pub order: Order,
    pub page: u64,
    pub page_size: u64,
    pub tags: Vec<String>,
    pub data: Eventually<Data>,
    pub stats: Eventually<Stats>,
}

/// The shown part of a [`State`]: order, page, page size and tags.
pub struct Shown {
    pub order: Order,
    pub page: u64,
    pub page_size: u64,
    pub tags: Seq<Seq<char>>,
}

impl State {
    /// What the state shows.
    pub open spec fn shown(&self) -> Shown {
        Shown {
            order: self.order,
            page: self.page,
            page_size: self.page_size,
            tags: self.tags.deep_view(),
        }
    }
}

/// What the list shows for the parameters `p`: each parameter that is given
/// replaces the default (first page, 20 per page, no tags, newest first);
/// an empty list of tags counts as none.
pub open spec fn spec_shown_for(p: Option<ParamsView>) -> Shown {
    match p {
        None => Shown { order: Order::CreationDateDesc, page: 0, page_size: 20, tags: seq![] },
        Some(p) => Shown {
            order: match p.order {
                Some(o) => o,
                None => Order::CreationDateDesc,
            },
            page: match p.page {
                Some(x) => x,
                None => 0,
            },
            page_size: match p.page_size {
                Some(x) => x,
                None => 20,
            },
            tags: match p.tags {
                Some(t) => t,
                None => seq![],
            },
        },
    }
}

/// The parameters that describe what a state shows: only what differs from
/// the defaults is given.
pub open spec fn spec_params_of(s: Shown) -> ParamsView {
    ParamsView {
        page: if s.page == 0 {
            None
        } else {
            Some(s.page)
        },
        page_size: if s.page_size == 20 {
            None
        } else {
            Some(s.page_size)
        },
        tags: if s.tags.len() == 0 {
            None
        } else {
            Some(s.tags)
        },
        search_terms: None,
        order: match s.order {
            Order::CreationDateDesc => None,
            Order::CreationDateAsc => Some(Order::CreationDateAsc),
        },
        filter: None,
    }
}

impl Default for State {
    fn default() -> (r: Self)
        ensures
            r.shown() == spec_shown_for(None),
            r.data is Empty,
            r.stats is Empty,
    {
        let tags: Vec<String> = Vec::new();
        assert(tags.deep_view() =~= seq![]);
        State {
            order: Order::CreationDateDesc,
            page: 0,
            page_size: DEFAULT_PAGE_SIZE,
            tags,
            data: Eventually::Empty,
            stats: Eventually::Empty,
        }
    }
}

impl State {
    /// The state for the parameters `value`, with nothing loaded.
    pub fn from_params(value: Option<&Params>) -> (r: State)
        ensures
            r.shown() == spec_shown_for(
                match value {
                    Some(p) => Some(p@),
                    None => None,
                },
            ),
            r.data is Empty,
            r.stats is Empty,
    {
        let mut state = State::default();
        let value = match value {
            None => {
                return state;
            },
            Some(v) => v,
        };
        if let Some(page) = value.page {
            state.page = page;
        }
        if let Some(page_size) = value.page_size {
            state.page_size = page_size;
        }
        if let Some(tags) = &value.tags {
            if tags.len() > 0 {
                state.tags = tags.clone();
            } else {
                assert(tags.deep_view() =~= seq![]);
            }
        }
        if let Some(order) = value.order {
            state.order = order;
        }
        state
    }

    /// A state that shows the same, with the same statistics and no page of
    /// bookmarks loaded.
    fn reset_copy(&self) -> (r: State)
        ensures
            r.shown() == self.shown(),
            r.stats == self.stats,
            r.data is Empty,
    {
        State {
            order: self.order,
            page: self.page,
            page_size: self.page_size,
            tags: self.tags.clone(),
            data: Eventually::Empty,
            stats: self.stats,
        }
    }
}

impl Params {
    /// The parameters that describe what `state` shows.
    pub fn from_state(state: &State) -> (r: Params)
        ensures
            r@ == spec_params_of(state.shown()),
    {
        Params {
            page: if state.page == 0 {
                None
            } else {
                Some(state.page)
            },
            page_size: if state.page_size == DEFAULT_PAGE_SIZE {
                None
            } else {
                Some(state.page_size)
            },
            tags: if state.tags.len() == 0 {
                None
            } else {
                Some(state.tags.clone())
            },
            search_terms: None,
            order: match state.order {
                Order::CreationDateDesc => None,
                Order::CreationDateAsc => Some(state.order),
            },
            filter: None,
        }
    }
}

/// The parameters that a state emits bring back a state that shows the
/// same.
pub proof fn law_params_restore_state(s: Shown)
    ensures
        spec_shown_for(Some(spec_params_of(s))) == s,
{
    if s.tags.len() == 0 {
        assert(s.tags =~= seq![]);
    }
}

/// Parameters that went through a state come out with the defaults left
/// out, and a second pass changes nothing.
pub proof fn law_params_normal_form(p: ParamsView)
    ensures
        ({
            let n = spec_params_of(spec_shown_for(Some(p)));
            spec_params_of(spec_shown_for(Some(n))) == n
        }),
{
    law_params_restore_state(spec_shown_for(Some(p)));
}

} // verus!

verus! {

/// What the list has to load next.
#[derive(PartialEq, Eq, Structural, Clone, Copy, Debug)]
pub enum Fetch {
    Stats,
    Bookmarks,
    Nothing,
}

/// How a user action reaches the list: as new parameters for the page's
/// address when the list has an owner that keeps them there, else as a new
/// state for the list itself.
pub enum Update {
    Navigate(Params),
    Replace(State),
}

impl State {
    /// Handles new parameters from the page's address: once a page of
    /// bookmarks was shown, the state is rebuilt from them, keeping the
    /// statistics and dropping the page.
    pub fn on_params_changed(&mut self, params: Option<&Params>)
        ensures
            old(self).data is Loaded ==> {
                &&& final(self).shown() == spec_shown_for(
                    match params {
                        Some(p) => Some(p@),
                        None => None,
                    },
                )
                &&& final(self).stats == old(self).stats
                &&& final(self).data is Empty
            },
            !(old(self).data is Loaded) ==> *final(self) == *old(self),
    {
        if self.data.is_some() {
            let mut fresh = State::from_params(params);
            fresh.stats = self.stats;
            *self = fresh;
        }
    }

    /// Decides what to load when the list is drawn, and marks it as being
    /// loaded: the statistics first, then the page of bookmarks.
    pub fn next_fetch(&mut self) -> (r: Fetch)
        ensures
            old(self).stats is Empty ==> r == Fetch::Stats && final(self).stats is Loading
                && final(self).data == old(self).data,
            old(self).stats is Loaded && old(self).data is Empty ==> r == Fetch::Bookmarks
                && final(self).data is Loading && final(self).stats == old(self).stats,
            !(old(self).stats is Empty) && !(old(self).stats is Loaded && old(self).data is Empty)
                ==> r == Fetch::Nothing && *final(self) == *old(self),
            final(self).shown() == old(self).shown(),
    {
        if self.stats.is_none() {
            self.stats = Eventually::Loading;
            Fetch::Stats
        } else if self.data.is_none() && self.stats.is_some() {
            self.data = Eventually::Loading;
            Fetch::Bookmarks
        } else {
            Fetch::Nothing
        }
    }

    /// Stores the statistics that arrived.
    pub fn on_stats_loaded(&mut self, count_total: u64, count_private: u64)
        ensures
            final(self).stats == Eventually::Loaded(Stats { count_total, count_private }),
            final(self).data == old(self).data,
            final(self).shown() == old(self).shown(),
    {
        self.stats = Eventually::Loaded(Stats { count_total, count_private });
    }

    /// Stores the page of bookmarks that arrived.
    pub fn on_bookmarks_loaded(&mut self, bookmarks: Vec<Bookmark>, pages_count: u64)
        ensures
            final(self).data == Eventually::Loaded(Data { pages_count, bookmarks }),
            final(self).stats == old(self).stats,
            final(self).shown() == old(self).shown(),
    {
        self.data = Eventually::Loaded(Data { pages_count, bookmarks });
    }

    /// The number of bookmarks, or 0 until it is known.
    pub fn links(&self) -> (r: u64)
        ensures
            r == (match self.stats {
                Eventually::Loaded(s) => s.count_total,
                _ => 0,
            }),
    {
        match self.stats {
            Eventually::Loaded(s) => s.count_total,
            _ => 0,
        }
    }

    /// The number of private bookmarks, or 0 until it is known.
    pub fn private_links(&self) -> (r: u64)
        ensures
            r == (match self.stats {
                Eventually::Loaded(s) => s.count_private,
                _ => 0,
            }),
    {
        match self.stats {
            Eventually::Loaded(s) => s.count_private,
            _ => 0,
        }
    }

    /// The number of pages, or 0 while no page is loaded.
    pub open spec fn pages_count(&self) -> u64 {
        match self.data {
            Eventually::Loaded(d) => d.pages_count,
            _ => 0,
        }
    }

    /// The state after choosing the order: first page, in that order.
    pub fn on_change_order(&self, order: Order) -> (r: State)
        ensures
            r.shown() == (Shown { order, page: 0, ..self.shown() }),
            r.stats == self.stats,
            r.data is Empty,
    {
        let mut n = self.reset_copy();
        n.order = order;
        n.page = 0;
        n
    }

    /// The state after going to the previous page; the first page stays.
    pub fn on_previous(&self) -> (r: State)
        ensures
            r.shown() == (Shown { page: previous_page(self.page), ..self.shown() }),
            r.stats == self.stats,
            r.data is Empty,
    {
        let mut n = self.reset_copy();
        n.page = if self.page > 0 {
            self.page - 1
        } else {
            0
        };
        n
    }

    /// The state after going to the next page, never past the last page
    /// loaded (the first page while none is loaded).
    pub fn on_next(&self) -> (r: State)
        requires
            self.page < u64::MAX,
        ensures
            r.shown() == (Shown { page: next_page(self.page, self.pages_count()), ..self.shown() }),
            r.stats == self.stats,
            r.data is Empty,
    {
        let count = match &self.data {
            Eventually::Loaded(d) => d.pages_count,
            _ => 0,
        };
        let last = if count > 0 {
            count - 1
        } else {
            0
        };
        let next = self.page + 1;
        let mut n = self.reset_copy();
        n.page = if last < next {
            last
        } else {
            next
        };
        n
    }

    /// The state after choosing the page size: first page, that size.
    pub fn on_change_page_size(&self, page_size: u64) -> (r: State)
        ensures
            r.shown() == (Shown { page: 0, page_size, ..self.shown() }),
            r.stats == self.stats,
            r.data is Empty,
    {
        let mut n = self.reset_copy();
        n.page = 0;
        n.page_size = page_size;
        n
    }

    /// The state after clicking the tag `tag` of a bookmark: the tag is added
    /// to the filter, unless it is already there (then nothing changes).
    pub fn on_select_tag_filter(&self, tag: String) -> (r: Option<State>)
        ensures
            self.tags.deep_view().contains(tag@) ==> r is None,
            !self.tags.deep_view().contains(tag@) ==> (r matches Some(n) && n.shown() == (Shown {
                tags: self.tags.deep_view().push(tag@),
                ..self.shown()
            }) && n.stats == self.stats && n.data is Empty),
    {
        if contains_text(&self.tags, tag.as_str()) {
            None
        } else {
            let mut n = self.reset_copy();
            let ghost t0 = n.tags.deep_view();
            n.tags.push(tag);
            assert(n.tags.deep_view() =~= t0.push(tag@));
            Some(n)
        }
    }

    /// The state after editing the tag filter.
    pub fn on_change_tags(&self, tags: Vec<String>) -> (r: State)
        ensures
            r.shown() == (Shown { tags: tags.deep_view(), ..self.shown() }),
            r.stats == self.stats,
            r.data is Empty,
    {
        let mut n = self.reset_copy();
        n.tags = tags;
        n
    }
}

/// Hands a new state to the owner as parameters for the address, when there
/// is one, else to the list itself.
pub fn trigger_update(has_owner: bool, new_state: State) -> (r: Update)
    ensures
        has_owner ==> (r matches Update::Navigate(p) && p@ == spec_params_of(
            new_state.shown(),
        )),
        !has_owner ==> (r matches Update::Replace(s) && s == new_state),
{
    if has_owner {
        Update::Navigate(Params::from_state(&new_state))
    } else {
        Update::Replace(new_state)
    }
}

/// The page before `page`; the first page stays.
pub open spec fn previous_page(page: u64) -> u64 {
    if page > 0 {
        (page - 1) as u64
    } else {
        0
    }
}

/// The page after `page`, capped at the last of `pages_count` pages (the
/// first page when there is none).
pub open spec fn next_page(page: u64, pages_count: u64) -> u64 {
    let last = if pages_count > 0 {
        (pages_count - 1) as u64
    } else {
        0
    };
    if last < page + 1 {
        last
    } else {
        (page + 1) as u64
    }
}

/// Going to the next page and then to the previous one comes back to the
/// page shown, unless it was the last page; the next page never passes the
/// last page, and the previous page never goes below the first.
pub proof fn law_paging(page: u64, pages_count: u64)
    requires
        page < u64::MAX,
    ensures
        page + 1 < pages_count ==> previous_page(next_page(page, pages_count)) == page,
        pages_count > 0 ==> next_page(page, pages_count) < pages_count,
        next_page(page, pages_count) <= page + 1,
        previous_page(page) <= page,
{
}

} // verus!

verus! {

/// The parameters of the request for a page of bookmarks: the order, the
/// page, the page size (as `count`) and the tags, each percent-encoded,
/// joined with `+`.
pub open spec fn spec_fetch_query(s: Shown) -> Seq<(Seq<char>, Seq<char>)> {
    seq![
        ("order"@, match s.order {
            Order::CreationDateAsc => "creation_date:asc"@,
            Order::CreationDateDesc => "creation_date:desc"@,
        }),
        ("page"@, decimal(s.page as nat)),
        ("count"@, decimal(s.page_size as nat)),
        ("tags"@, join_with(
            s.tags.map_values(|t: Seq<char>| percent_encoded(encode_utf8(t))),
            '+',
        )),
    ]
}

/// The model of a list of request parameters.
pub open spec fn pairs_view(v: Seq<(String, String)>) -> Seq<(Seq<char>, Seq<char>)> {
    v.map_values(|p: (String, String)| (p.0@, p.1@))
}

/// The tags, percent-encoded and joined with `+`.
fn encoded_tags(tags: &Vec<String>) -> (r: String)
    ensures
        r@ == join_with(
            tags.deep_view().map_values(|t: Seq<char>| percent_encoded(encode_utf8(t))),
            '+',
        ),
{
    let ghost enc = tags.deep_view().map_values(|t: Seq<char>| percent_encoded(encode_utf8(t)));
    let mut s = String::new();
    let mut k: usize = 0;
    while k < tags.len()
        invariant
            k <= tags@.len(),
            enc == tags.deep_view().map_values(|t: Seq<char>| percent_encoded(encode_utf8(t))),
            s@ == join_with(enc.take(k as int), '+'),
        decreases tags@.len() - k,
    {
        let e = url_encode(tags[k].as_str());
        let ghost d = enc.take(k + 1);
        assert(d.drop_last() =~= enc.take(k as int));
        assert(d.last() == e@);
        if k > 0 {
            s.append("+");
            proof {
                reveal_strlit("+");
            }
        }
        s.append(e.as_str());
        proof {
            if k == 0 {
                assert(d =~= seq![enc[0]]);
            }
            assert(s@ =~= join_with(d, '+'));
        }
        k = k + 1;
    }
    assert(enc.take(tags@.len() as int) =~= enc);
    s
}

/// The parameters of the request for the page of bookmarks that `state`
/// shows.
pub fn fetch_query(state: &State) -> (r: Vec<(String, String)>)
    ensures
        pairs_view(r@) == spec_fetch_query(state.shown()),
{
    let mut v: Vec<(String, String)> = Vec::new();
    v.push((String::from_str("order"), String::from_str(state.order.query_param())));
    v.push((String::from_str("page"), decimal_string(state.page)));
    v.push((String::from_str("count"), decimal_string(state.page_size)));
    v.push((String::from_str("tags"), encoded_tags(&state.tags)));
    assert(pairs_view(v@) =~= spec_fetch_query(state.shown()));
    v
}

} // verus!

verus! {

/// The page sizes that the list offers.
pub fn page_size_options() -> (r: [u64; 3])
    ensures
        r@ == seq![20u64, 50u64, 100u64],
{
    let r = [20u64, 50u64, 100u64];
    assert(r@ =~= seq![20u64, 50u64, 100u64]);
    r
}

/// The style of a page size choice: marked when it is the current size.
pub fn page_size_class(current: u64, option: u64) -> (r: &'static str)
    ensures
        r@ == (if current == option {
            "bookmarks__page-size-item--selected"@
        } else {
            "bookmarks__page-size-item"@
        }),
{
    if current == option {
        "bookmarks__page-size-item--selected"
    } else {
        "bookmarks__page-size-item"
    }
}

/// The style of a filter choice: marked when it is the current filter.
pub fn filter_class(current: Option<crate::query::Filter>, option: crate::query::Filter) -> (r:
    &'static str)
    ensures
        r@ == (if current == Some(option) {
            "bookmarks__filter-item--selected"@
        } else {
            "bookmarks__filter-item"@
        }),
{
    if current == Some(option) {
        "bookmarks__filter-item--selected"
    } else {
        "bookmarks__filter-item"
    }
}

} // verus!

verus! {

impl Data {
    /// A short description of the data: its number of pages and of
    /// bookmarks, as `Data { pages_count: P, bookmarks.len(): B }`.
    pub fn describe(&self) -> (r: String)
        ensures
            r@ == "Data { pages_count: "@ + decimal(self.pages_count as nat)
                + ", bookmarks.len(): "@ + decimal(self.bookmarks@.len()) + " }"@,
    {
        let mut s = String::from_str("Data { pages_count: ");
        s.append(decimal_string(self.pages_count).as_str());
        s.append(", bookmarks.len(): ");
        let n = self.bookmarks.len();
        s.append(decimal_string(n as u64).as_str());
        s.append(" }");
        s
    }
}

/// The statistics to show after their request: what the server sent, or
/// zeros when the request failed.
pub fn stats_or_zero(answer: Option<Stats>) -> (r: Stats)
    ensures
        r == (match answer {
            Some(s) => s,
            None => Stats { count_total: 0, count_private: 0 },
        }),
{
    match answer {
        Some(s) => s,
        None => Stats { count_total: 0, count_private: 0 },
    }
}

/// The tags to offer after their request: what the server sent, or none
/// when the request failed.
pub fn tags_or_empty(answer: Option<Vec<Tag>>) -> (r: Vec<Tag>)
    ensures
        answer matches Some(t) ==> r == t,
        answer is None ==> r@.len() == 0,
{
    match answer {
        Some(t) => t,
        None => Vec::new(),
    }
}

/// The page of bookmarks to show after its request: what the server sent,
/// or no bookmark and no page when the request failed.
pub fn page_or_empty(answer: Option<(Vec<Bookmark>, u64)>) -> (r: (Vec<Bookmark>, u64))
    ensures
        answer matches Some(a) ==> r == a,
        answer is None ==> r.0@.len() == 0 && r.1 == 0,
{
    match answer {
        Some(a) => a,
        None => (Vec::new(), 0),
    }
}

} // verus!

verus! {

/// The tags of a request for bookmarks can be told apart: splitting the
/// `tags` parameter at `+` gives each tag percent-encoded, in order.
pub proof fn law_request_tags_separable(tags: Seq<Seq<char>>)
    requires
        tags.len() > 0,
    ensures
        crate::text::split_on(
            join_with(tags.map_values(|t: Seq<char>| percent_encoded(encode_utf8(t))), '+'),
            '+',
        ) == tags.map_values(|t: Seq<char>| percent_encoded(encode_utf8(t))),
{
    let enc = tags.map_values(|t: Seq<char>| percent_encoded(encode_utf8(t)));
    assert forall|i: int, j: int| 0 <= i < enc.len() && 0 <= j < enc[i].len() implies enc[i][j]
        != '+' by {
        crate::url::lemma_encoded_has_no_plus(encode_utf8(tags[i]));
    }
    crate::text::lemma_split_join(enc, '+');
}

} // verus!
