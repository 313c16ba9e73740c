use vstd::prelude::*;
use crate::text::{join_with, lemma_split_join, split_on, split_text};

verus! {

/// The order in which bookmarks are listed.
#[derive(PartialEq, Eq, Structural, Clone, Copy, Debug)]
pub enum Order {
    CreationDateDesc,
    CreationDateAsc,
}

impl Default for Order {
    fn default() -> (r: Self)
        ensures
            r == Order::CreationDateDesc,
    {
        Order::CreationDateDesc
    }
}

impl Order {
    /// The other order.
    pub fn invert(&self) -> (r: Order)
        ensures
            r != *self,
    {
        match self {
            Order::CreationDateAsc => Order::CreationDateDesc,
            Order::CreationDateDesc => Order::CreationDateAsc,
        }
    }

    /// The name of the icon that shows the order.
    pub fn icon(&self) -> (r: &'static str)
        ensures
            r@ == (match *self {
                Order::CreationDateAsc => "expand_less"@,
                Order::CreationDateDesc => "expand_more"@,
            }),
    {
        match self {
            Order::CreationDateAsc => "expand_less",
            Order::CreationDateDesc => "expand_more",
        }
    }

    /// The value of the `order` parameter of a request for bookmarks.
    pub fn query_param(&self) -> (r: &'static str)
        ensures
            r@ == (match *self {
                Order::CreationDateAsc => "creation_date:asc"@,
                Order::CreationDateDesc => "creation_date:desc"@,
            }),
    {
        match self {
            Order::CreationDateAsc => "creation_date:asc",
            Order::CreationDateDesc => "creation_date:desc",
        }
    }
}

/// Inverting the order twice gives it back.
pub proof fn law_invert_involution(o: Order)
    ensures
        ({
            let i = match o {
                Order::CreationDateAsc => Order::CreationDateDesc,
                Order::CreationDateDesc => Order::CreationDateAsc,
            };
            &&& i != o
            &&& (match i {
                Order::CreationDateAsc => Order::CreationDateDesc,
                Order::CreationDateDesc => Order::CreationDateAsc,
            }) == o
        }),
{
}

/// Which bookmarks are listed: the private ones or the public ones.
#[derive(PartialEq, Eq, Structural, Clone, Copy, Debug)]
pub enum Filter {
    Private,
    Public,
}

/// The order as it is written in the page's address.
#[derive(PartialEq, Eq, Structural, Clone, Copy, Debug)]
pub enum QueryOrder {
    CreationDateDesc,
    CreationDateAsc,
}

/// The filter as it is written in the page's address.
#[derive(PartialEq, Eq, Structural, Clone, Copy, Debug)]
pub enum QueryFilter {
    Private,
    Public,
}

impl QueryOrder {
    /// The order shown by this address value.
    pub fn from_order(o: Order) -> (r: QueryOrder)
        ensures
            r == spec_query_order(o),
    {
        match o {
            Order::CreationDateDesc => QueryOrder::CreationDateDesc,
            Order::CreationDateAsc => QueryOrder::CreationDateAsc,
        }
    }

    /// The order that this address value stands for.
    pub fn to_order(&self) -> (r: Order)
        ensures
            r == spec_order(*self),
    {
        match self {
            QueryOrder::CreationDateDesc => Order::CreationDateDesc,
            QueryOrder::CreationDateAsc => Order::CreationDateAsc,
        }
    }

    /// The text of this value in the page's address. The descending order is
    /// written `creation_date:asc` and the ascending one `creation_date:desc`,
    /// the reverse of the names used in requests to the server.
    pub fn as_query_value(&self) -> (r: &'static str)
        ensures
            r@ == spec_query_order_text(*self),
    {
        match self {
            QueryOrder::CreationDateDesc => "creation_date:asc",
            QueryOrder::CreationDateAsc => "creation_date:desc",
        }
    }

    /// The value that `text` writes in the page's address, if any.
    pub fn from_query_value(text: &str) -> (r: Option<QueryOrder>)
        ensures
            r == spec_parse_query_order(text@),
    {
        if crate::text::same_text(text, "creation_date:asc") {
            Some(QueryOrder::CreationDateDesc)
        } else if crate::text::same_text(text, "creation_date:desc") {
            Some(QueryOrder::CreationDateAsc)
        } else {
            None
        }
    }
}

/// The address value of an order.
pub open spec fn spec_query_order(o: Order) -> QueryOrder {
    match o {
        Order::CreationDateDesc => QueryOrder::CreationDateDesc,
        Order::CreationDateAsc => QueryOrder::CreationDateAsc,
    }
}

/// The order of an address value.
pub open spec fn spec_order(q: QueryOrder) -> Order {
    match q {
        QueryOrder::CreationDateDesc => Order::CreationDateDesc,
        QueryOrder::CreationDateAsc => Order::CreationDateAsc,
    }
}

/// The order value written as `t` in the page's address.
pub open spec fn spec_parse_query_order(t: Seq<char>) -> Option<QueryOrder> {
    if t == "creation_date:asc"@ {
        Some(QueryOrder::CreationDateDesc)
    } else if t == "creation_date:desc"@ {
        Some(QueryOrder::CreationDateAsc)
    } else {
        None
    }
}

/// The text of an address value of the order.
pub open spec fn spec_query_order_text(q: QueryOrder) -> Seq<char> {
    match q {
        QueryOrder::CreationDateDesc => "creation_date:asc"@,
        QueryOrder::CreationDateAsc => "creation_date:desc"@,
    }
}

impl QueryFilter {
    /// The address value of a filter.
    pub fn from_filter(f: Filter) -> (r: QueryFilter)
        ensures
            r == spec_query_filter(f),
    {
        match f {
            Filter::Private => QueryFilter::Private,
            Filter::Public => QueryFilter::Public,
        }
    }

    /// The filter of this address value.
    pub fn to_filter(&self) -> (r: Filter)
        ensures
            r == spec_filter(*self),
    {
        match self {
            QueryFilter::Private => Filter::Private,
            QueryFilter::Public => Filter::Public,
        }
    }

    /// The text of this value in the page's address.
    pub fn as_query_value(&self) -> (r: &'static str)
        ensures
            r@ == spec_query_filter_text(*self),
    {
        match self {
            QueryFilter::Private => "private",
            QueryFilter::Public => "public",
        }
    }

    /// The value that `text` writes in the page's address, if any.
    pub fn from_query_value(text: &str) -> (r: Option<QueryFilter>)
        ensures
            r == spec_parse_query_filter(text@),
    {
        if crate::text::same_text(text, "private") {
            Some(QueryFilter::Private)
        } else if crate::text::same_text(text, "public") {
            Some(QueryFilter::Public)
        } else {
            None
        }
    }
}

/// The text of an address value of the filter.
pub open spec fn spec_query_filter_text(q: QueryFilter) -> Seq<char> {
    match q {
        QueryFilter::Private => "private"@,
        QueryFilter::Public => "public"@,
    }
}

/// The filter value written as `t` in the page's address.
pub open spec fn spec_parse_query_filter(t: Seq<char>) -> Option<QueryFilter> {
    if t == "private"@ {
        Some(QueryFilter::Private)
    } else if t == "public"@ {
        Some(QueryFilter::Public)
    } else {
        None
    }
}

/// The address value of a filter.
pub open spec fn spec_query_filter(f: Filter) -> QueryFilter {
    match f {
        Filter::Private => QueryFilter::Private,
        Filter::Public => QueryFilter::Public,
    }
}

/// The filter of an address value.
pub open spec fn spec_filter(q: QueryFilter) -> Filter {
    match q {
        QueryFilter::Private => Filter::Private,
        QueryFilter::Public => Filter::Public,
    }
}

/// Converting an order or a filter to its address value and back gives it
/// back, and the other way round; reading the text of an address value gives
/// the value back.
pub proof fn law_query_values_round_trip(o: Order, q: QueryOrder, f: Filter, g: QueryFilter)
    ensures
        spec_order(spec_query_order(o)) == o,
        spec_query_order(spec_order(q)) == q,
        spec_filter(spec_query_filter(f)) == f,
        spec_query_filter(spec_filter(g)) == g,
        spec_parse_query_order(spec_query_order_text(q)) == Some(q),
        spec_parse_query_filter(spec_query_filter_text(g)) == Some(g),
{
    reveal_strlit("creation_date:asc");
    reveal_strlit("creation_date:desc");
    reveal_strlit("private");
    reveal_strlit("public");
    assert("creation_date:asc"@[14] != "creation_date:desc"@[14]);
    assert("private"@.len() != "public"@.len());
}

} // verus!

verus! {

/// The tags written one after the other, separated by single spaces.
pub open spec fn join_spaces(tags: Seq<Seq<char>>) -> Seq<char> {
    join_with(tags, ' ')
}

/// The pieces of `s` between spaces, as `str::split(' ')` gives them; there
/// is always at least one piece.
pub open spec fn split_spaces(s: Seq<char>) -> Seq<Seq<char>> {
    split_on(s, ' ')
}

/// The address text of the tags: `None` stays `None`, else the tags joined
/// with spaces.
pub fn serialize_tags(tags: Option<&Vec<String>>) -> (r: Option<String>)
    ensures
        match tags {
            None => r is None,
            Some(v) => r matches Some(s) && s@ == join_spaces(v.deep_view()),
        },
{
    match tags {
        None => None,
        Some(v) => {
            let mut s = String::new();
            let mut k: usize = 0;
            while k < v.len()
                invariant
                    k <= v@.len(),
                    s@ == join_spaces(v.deep_view().take(k as int)),
                decreases v@.len() - k,
            {
                let ghost d = v.deep_view().take(k + 1);
                assert(d.drop_last() =~= v.deep_view().take(k as int));
                if k > 0 {
                    s.append(" ");
                    proof {
                        reveal_strlit(" ");
                    }
                }
                s.append(v[k].as_str());
                proof {
                    if k == 0 {
                        assert(d =~= seq![v.deep_view()[0]]);
                        assert(s@ =~= join_spaces(d));
                    } else {
                        assert(s@ =~= join_spaces(d));
                    }
                }
                k = k + 1;
            }
            assert(v.deep_view().take(v@.len() as int) =~= v.deep_view());
            Some(s)
        },
    }
}

/// The tags written in an address text: the pieces between spaces. Never
/// `None`: even the empty text holds one (empty) tag.
pub fn deserialize_tags(text: &str) -> (r: Option<Vec<String>>)
    ensures
        r matches Some(v) && v.deep_view() == split_spaces(text@),
{
    Some(split_text(text, ' '))
}

/// Reading back the address text of a non-empty list of tags without spaces
/// gives the same tags.
pub proof fn law_tags_round_trip(tags: Seq<Seq<char>>)
    requires
        tags.len() > 0,
        forall|i: int, j: int| 0 <= i < tags.len() && 0 <= j < tags[i].len() ==> tags[i][j] != ' ',
    ensures
        split_spaces(join_spaces(tags)) == tags,
{
    lemma_split_join(tags, ' ');
}

} // verus!

verus! {

/// The model of optional tags.
pub open spec fn opt_tags(o: Option<Vec<String>>) -> Option<Seq<Seq<char>>> {
    match o {
        Some(v) => Some(v.deep_view()),
        None => None,
    }
}

/// A copy of optional tags.
pub fn clone_tags(o: &Option<Vec<String>>) -> (r: Option<Vec<String>>)
    ensures
        opt_tags(r) == opt_tags(*o),
{
    match o {
        Some(v) => Some(v.clone()),
        None => None,
    }
}

/// What the bookmark list shows: page, page size, tags, search terms, order
/// and filter; an absent value means the default.
pub struct Params {
    pub page: Option<u64>,
    pub page_size: Option<u64>,
    pub tags: Option<Vec<String>>,
    pub search_terms: Option<Vec<String>>,
    pub order: Option<Order>,
    pub filter: Option<Filter>,
}

/// The model of [`Params`].
pub struct ParamsView {
    pub page: Option<u64>,
    pub page_size: Option<u64>,
    pub tags: Option<Seq<Seq<char>>>,
    pub search_terms: Option<Seq<Seq<char>>>,
    pub order: Option<Order>,
    pub filter: Option<Filter>,
}

impl View for Params {
    type V = ParamsView;

    open spec fn view(&self) -> ParamsView {
        ParamsView {
            page: self.page,
            page_size: self.page_size,
            tags: opt_tags(self.tags),
            search_terms: opt_tags(self.search_terms),
            order: self.order,
            filter: self.filter,
        }
    }
}

/// The same parameters as they are written in the page's address.
pub struct QueryParams {
    pub page: Option<u64>,
    pub page_size: Option<u64>,
    pub tags: Option<Vec<String>>,
    pub terms: Option<Vec<String>>,
    pub order: Option<QueryOrder>,
    pub filter: Option<QueryFilter>,
}

/// The model of [`QueryParams`].
pub struct QueryParamsView {
    pub page: Option<u64>,
    pub page_size: Option<u64>,
    pub tags: Option<Seq<Seq<char>>>,
    pub terms: Option<Seq<Seq<char>>>,
    pub order: Option<QueryOrder>,
    pub filter: Option<QueryFilter>,
}

impl View for QueryParams {
    type V = QueryParamsView;

    open spec fn view(&self) -> QueryParamsView {
        QueryParamsView {
            page: self.page,
            page_size: self.page_size,
            tags: opt_tags(self.tags),
            terms: opt_tags(self.terms),
            order: self.order,
            filter: self.filter,
        }
    }
}

/// The address form of list parameters.
pub open spec fn spec_to_query(p: ParamsView) -> QueryParamsView {
    QueryParamsView {
        page: p.page,
        page_size: p.page_size,
        tags: p.tags,
        terms: p.search_terms,
        order: match p.order {
            Some(o) => Some(spec_query_order(o)),
            None => None,
        },
        filter: match p.filter {
            Some(f) => Some(spec_query_filter(f)),
            None => None,
        },
    }
}

/// The list parameters of an address form.
pub open spec fn spec_from_query(q: QueryParamsView) -> ParamsView {
    ParamsView {
        page: q.page,
        page_size: q.page_size,
        tags: q.tags,
        search_terms: q.terms,
        order: match q.order {
            Some(o) => Some(spec_order(o)),
            None => None,
        },
        filter: match q.filter {
            Some(f) => Some(spec_filter(f)),
            None => None,
        },
    }
}

impl Default for QueryParams {
    fn default() -> (r: Self)
        ensures
            r@ == (QueryParamsView {
                page: None,
                page_size: None,
                tags: None,
                terms: None,
                order: None,
                filter: None,
            }),
    {
        QueryParams { page: None, page_size: None, tags: None, terms: None, order: None, filter: None }
    }
}

impl Default for Params {
    fn default() -> (r: Self)
        ensures
            r@ == (ParamsView {
                page: None,
                page_size: None,
                tags: None,
                search_terms: None,
                order: None,
                filter: None,
            }),
    {
        Params {
            page: None,
            page_size: None,
            tags: None,
            search_terms: None,
            order: None,
            filter: None,
        }
    }
}

impl QueryParams {
    /// The address form of `value`.
    pub fn from_params(value: Params) -> (r: QueryParams)
        ensures
            r@ == spec_to_query(value@),
    {
        QueryParams {
            page: value.page,
            page_size: value.page_size,
            tags: value.tags,
            terms: value.search_terms,
            order: match value.order {
                Some(o) => Some(QueryOrder::from_order(o)),
                None => None,
            },
            filter: match value.filter {
                Some(f) => Some(QueryFilter::from_filter(f)),
                None => None,
            },
        }
    }
}

impl Params {
    /// The list parameters that the address form `value` writes.
    pub fn from_query(value: &QueryParams) -> (r: Params)
        ensures
            r@ == spec_from_query(value@),
    {
        Params {
            page: value.page,
            page_size: value.page_size,
            tags: clone_tags(&value.tags),
            search_terms: clone_tags(&value.terms),
            order: match &value.order {
                Some(o) => Some(o.to_order()),
                None => None,
            },
            filter: match &value.filter {
                Some(f) => Some(f.to_filter()),
                None => None,
            },
        }
    }

    /// A copy of the parameters.
    pub fn copy(&self) -> (r: Params)
        ensures
            r@ == self@,
    {
        Params {
            page: self.page,
            page_size: self.page_size,
            tags: clone_tags(&self.tags),
            search_terms: clone_tags(&self.search_terms),
            order: self.order,
            filter: self.filter,
        }
    }
}

/// Writing list parameters in the address and reading them back gives them
/// back, and so does the other way round.
pub proof fn law_query_params_round_trip(p: ParamsView, q: QueryParamsView)
    ensures
        spec_from_query(spec_to_query(p)) == p,
        spec_to_query(spec_from_query(q)) == q,
{
}

} // verus!

verus! {

/// Whether the two lists hold the same tags in the same order.
pub fn same_tag_lists(a: &Vec<String>, b: &Vec<String>) -> (r: bool)
    ensures
        r == (a.deep_view() == b.deep_view()),
{
    if a.len() != b.len() {
        assert(a.deep_view().len() != b.deep_view().len());
        return false;
    }
    let mut k: usize = 0;
    while k < a.len()
        invariant
            a@.len() == b@.len(),
            k <= a@.len(),
            forall|j: int| 0 <= j < k ==> a.deep_view()[j] == b.deep_view()[j],
        decreases a@.len() - k,
    {
        if !crate::text::same_text(a[k].as_str(), b[k].as_str()) {
            assert(a.deep_view()[k as int] != b.deep_view()[k as int]);
            return false;
        }
        k = k + 1;
    }
    assert(a.deep_view() =~= b.deep_view());
    true
}

/// Whether the two optional lists of tags are equal.
pub fn same_tags(a: &Option<Vec<String>>, b: &Option<Vec<String>>) -> (r: bool)
    ensures
        r == (opt_tags(*a) == opt_tags(*b)),
{
    match (a, b) {
        (Some(x), Some(y)) => same_tag_lists(x, y),
        (None, None) => true,
        _ => false,
    }
}

impl Params {
    /// Whether the two parameters are equal.
    pub fn same_as(&self, other: &Params) -> (r: bool)
        ensures
            r == (self@ == other@),
    {
        self.page == other.page && self.page_size == other.page_size && same_tags(
            &self.tags,
            &other.tags,
        ) && same_tags(&self.search_terms, &other.search_terms) && self.order == other.order
            && self.filter == other.filter
    }
}

} // verus!
