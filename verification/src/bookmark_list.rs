use vstd::prelude::*;
use crate::data::Bookmark;

verus! {

/// The order of the plain bookmark list, by creation date.
#[derive(PartialEq, Eq, Structural, Clone, Copy, Debug)]
pub enum Order {
    Asc,
    Desc,
}

impl Default for Order {
    fn default() -> (r: Self)
        ensures
            r == Order::Desc,
    {
        Order::Desc
    }
}

impl Order {
    /// The value of the direction in a request for bookmarks.
    pub fn query_param(&self) -> (r: &'static str)
        ensures
            r@ == (match *self {
                Order::Asc => "asc"@,
                Order::Desc => "desc"@,
            }),
    {
        match self {
            Order::Asc => "asc",
            Order::Desc => "desc",
        }
    }

    /// The other order.
    pub fn invert(&self) -> (r: Order)
        ensures
            r != *self,
    {
        match self {
            Order::Asc => Order::Desc,
            Order::Desc => Order::Asc,
        }
    }

    /// The name of the icon that shows the order.
    pub fn icon(&self) -> (r: &'static str)
        ensures
            r@ == (match *self {
                Order::Asc => "expand_less"@,
                Order::Desc => "expand_more"@,
            }),
    {
        match self {
            Order::Asc => "expand_less",
            Order::Desc => "expand_more",
        }
    }

    /// The `order` parameter of the request for bookmarks:
    /// `creation_date:` followed by the direction.
    pub fn request_param(&self) -> (r: String)
        ensures
            r@ == "creation_date:"@ + (match *self {
                Order::Asc => "asc"@,
                Order::Desc => "desc"@,
            }),
    {
        let mut s = String::from_str("creation_date:");
        s.append(self.query_param());
        s
    }
}

/// The state of the plain bookmark list: its order, whether a load is under
/// way, and the bookmarks once loaded.
pub struct State {
    pub order: Order,
    pub loading: bool,
    pub bookmarks: Option<Vec<Bookmark>>,
}

impl Default for State {
    fn default() -> (r: Self)
        ensures
            r.order == Order::Desc,
            !r.loading,
            r.bookmarks is None,
    {
        State { order: Order::Desc, loading: false, bookmarks: None }
    }
}

impl State {
    /// The state after choosing an order: nothing loaded yet.
    pub fn on_change_order(order: Order) -> (r: State)
        ensures
            r.order == order,
            !r.loading,
            r.bookmarks is None,
    {
        State { order, loading: false, bookmarks: None }
    }

    /// Whether a load has to start, marking it as under way: only when
    /// nothing is loaded and no load is under way.
    pub fn start_loading(&mut self) -> (r: bool)
        ensures
            r == (old(self).bookmarks is None && !old(self).loading),
            r ==> final(self).loading && final(self).order == old(self).order
                && final(self).bookmarks is None,
            !r ==> *final(self) == *old(self),
    {
        if self.bookmarks.is_none() && !self.loading {
            self.loading = true;
            true
        } else {
            false
        }
    }

    /// Stores the bookmarks that arrived.
    pub fn on_loaded(&mut self, bookmarks: Vec<Bookmark>)
        ensures
            final(self).bookmarks == Some(bookmarks),
            !final(self).loading,
            final(self).order == old(self).order,
    {
        self.bookmarks = Some(bookmarks);
        self.loading = false;
    }
}

} // verus!
