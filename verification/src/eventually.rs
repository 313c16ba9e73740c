use vstd::prelude::*;

verus! {

/// A value that is either not requested yet, being loaded, or available.
#[derive(PartialEq, Eq, Structural, Clone, Copy, Debug, Hash, PartialOrd, Ord)]
pub enum Eventually<T> {
    /// Not requested yet.
    Empty,
    /// Requested, not arrived.
    Loading,
    /// Available.
    Loaded(T),
}

impl<T> Default for Eventually<T> {
    fn default() -> (r: Self)
        ensures
            r is Empty,
    {
        Eventually::Empty
    }
}

/// `b` borrows what `e` holds, in the same state.
pub open spec fn borrowed<T>(e: Eventually<T>, b: Eventually<&T>) -> bool {
    match e {
        Eventually::Empty => b is Empty,
        Eventually::Loading => b is Loading,
        Eventually::Loaded(t) => b == Eventually::Loaded(&t),
    }
}

/// `r` is what mapping `e` with `f` may give: the same state, and for an
/// available value, one that `f` may return for it.
pub open spec fn mapped_by<T, U, F: FnOnce(T) -> U>(e: Eventually<T>, f: F, r: Eventually<U>) -> bool {
    match e {
        Eventually::Empty => r is Empty,
        Eventually::Loading => r is Loading,
        Eventually::Loaded(x) => r matches Eventually::Loaded(y) && f.ensures((x,), y),
    }
}

impl<T> Eventually<T> {
    /// Borrows the value, keeping the loading state.
    pub fn as_ref(&self) -> (r: Eventually<&T>)
        ensures
            borrowed(*self, r),
    {
        match self {
            Eventually::Empty => Eventually::Empty,
            Eventually::Loading => Eventually::Loading,
            Eventually::Loaded(t) => Eventually::Loaded(t),
        }
    }

    /// Applies `f` to an available value; `None` and `Loading` are kept.
    pub fn map<U, F: FnOnce(T) -> U>(self, f: F) -> (r: Eventually<U>)
        requires
            self matches Eventually::Loaded(x) ==> f.requires((x,)),
        ensures
            mapped_by(self, f, r),
    {
        match self {
            Eventually::Loaded(x) => Eventually::Loaded(f(x)),
            Eventually::Loading => Eventually::Loading,
            Eventually::Empty => Eventually::Empty,
        }
    }

    /// The available value, or `T::default()` while none is available.
    pub fn unwrap_or_default(self) -> (r: T) where T: Default
        ensures
            match self {
                Eventually::Loaded(x) => r == x,
                _ => T::default.ensures((), r),
            },
    {
        match self {
            Eventually::Loaded(x) => x,
            Eventually::Empty => T::default(),
            Eventually::Loading => T::default(),
        }
    }

    /// Whether nothing was requested yet.
    pub fn is_none(&self) -> (r: bool)
        ensures
            r == (*self is Empty),
    {
        matches!(self, Eventually::Empty)
    }

    /// Whether the value is available.
    pub fn is_some(&self) -> (r: bool)
        ensures
            r == (*self is Loaded),
    {
        matches!(self, Eventually::Loaded(_))
    }
}

/// Mapping with a function that gives back its argument changes nothing.
pub proof fn law_map_identity<T, F: FnOnce(T) -> T>(e: Eventually<T>, f: F, r: Eventually<T>)
    requires
        mapped_by(e, f, r),
        forall|x: T, y: T| f.ensures((x,), y) ==> y == x,
    ensures
        r == e,
{
}

/// Mapping with `f` and then with `g` gives what mapping once with their
/// composition `h` gives, when `h` has one result for each argument.
pub proof fn law_map_composition<T, U, V, F: FnOnce(T) -> U, G: FnOnce(U) -> V, H: FnOnce(T) -> V>(
    e: Eventually<T>,
    f: F,
    g: G,
    h: H,
    r1: Eventually<U>,
    r2: Eventually<V>,
    r3: Eventually<V>,
)
    requires
        mapped_by(e, f, r1),
        mapped_by(r1, g, r2),
        mapped_by(e, h, r3),
        forall|x: T, y: U, z: V| f.ensures((x,), y) && g.ensures((y,), z) ==> h.ensures((x,), z),
        forall|x: T, z1: V, z2: V| h.ensures((x,), z1) && h.ensures((x,), z2) ==> z1 == z2,
    ensures
        r2 == r3,
{
    if let Eventually::Loaded(x) = e {
        let y = r1->Loaded_0;
        let z = r2->Loaded_0;
        assert(h.ensures((x,), z));
    }
}

/// Borrowing keeps the state, and copying the borrowed value back out
/// gives the value back.
pub proof fn law_as_ref_copy_back<T, F: FnOnce(&T) -> T>(
    e: Eventually<T>,
    b: Eventually<&T>,
    f: F,
    r: Eventually<T>,
)
    requires
        borrowed(e, b),
        mapped_by(b, f, r),
        forall|x: &T, y: T| f.ensures((x,), y) ==> y == *x,
    ensures
        (b is Empty) == (e is Empty),
        (b is Loading) == (e is Loading),
        (b is Loaded) == (e is Loaded),
        r == e,
{
}

} // verus!
