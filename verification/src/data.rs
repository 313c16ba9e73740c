use vstd::prelude::*;

verus! {

/// A moment, as seconds and nanoseconds since 1970-01-01T00:00:00Z.
#[derive(PartialEq, Eq, Structural, Clone, Copy, Debug)]
pub struct DateStamp {
    pub seconds: i64,
    pub nanoseconds: u32,
}

/// What the current user may do with a bookmark.
#[derive(PartialEq, Eq, Structural, Clone, Copy, Debug)]
pub enum Access {
    Read,
    Write,
}

/// A bookmark as the pages show it.
pub struct Bookmark {
    pub id: i32,
    pub url: String,
    pub title: Option<String>,
    pub description: Option<String>,
    pub tags: Vec<String>,
    pub creation_date: DateStamp,
    pub update_date: Option<DateStamp>,
    pub access: Access,
    pub private: bool,
    pub pinned: bool,
}

/// The model of an optional text.
pub open spec fn opt_text(o: Option<String>) -> Option<Seq<char>> {
    match o {
        Some(s) => Some(s@),
        None => None,
    }
}

/// A copy of an optional text.
pub fn clone_text(o: &Option<String>) -> (r: Option<String>)
    ensures
        opt_text(r) == opt_text(*o),
{
    match o {
        Some(s) => Some(s.clone()),
        None => None,
    }
}

/// The model of a [`Bookmark`].
pub struct BookmarkView {
    pub id: i32,
    pub url: Seq<char>,
    pub title: Option<Seq<char>>,
    pub description: Option<Seq<char>>,
    pub tags: Seq<Seq<char>>,
    pub creation_date: DateStamp,
    pub update_date: Option<DateStamp>,
    pub access: Access,
    pub private: bool,
    pub pinned: bool,
}

impl View for Bookmark {
    type V = BookmarkView;

    open spec fn view(&self) -> BookmarkView {
        BookmarkView {
            id: self.id,
            url: self.url@,
            title: opt_text(self.title),
            description: opt_text(self.description),
            tags: self.tags.deep_view(),
            creation_date: self.creation_date,
            update_date: self.update_date,
            access: self.access,
            private: self.private,
            pinned: self.pinned,
        }
    }
}

impl Default for Bookmark {
    fn default() -> (r: Self)
        ensures
            r@ == (BookmarkView {
                id: 0,
                url: seq![],
                title: None,
                description: None,
                tags: seq![],
                creation_date: DateStamp { seconds: 0, nanoseconds: 0 },
                update_date: None,
                access: Access::Read,
                private: true,
                pinned: false,
            }),
    {
        let tags: Vec<String> = Vec::new();
        assert(tags.deep_view() =~= seq![]);
        Bookmark {
            id: 0,
            url: String::new(),
            title: None,
            description: None,
            tags,
            creation_date: DateStamp { seconds: 0, nanoseconds: 0 },
            update_date: None,
            access: Access::Read,
            private: true,
            pinned: false,
        }
    }
}

/// A tag and the number of bookmarks that carry it.
pub struct Tag {
    pub name: String,
    pub count: i32,
}

/// The body of a request that creates a bookmark.
pub struct CreateBookmarkRequest {
    pub url: String,
    pub title: Option<String>,
    pub description: Option<String>,
    pub tags: Option<Vec<String>>,
    pub private: Option<bool>,
}

/// The body of a request that updates a bookmark.
pub struct UpdateBookmarkRequest {
    pub url: String,
    pub title: Option<String>,
    pub description: Option<String>,
    pub tags: Vec<String>,
    pub private: bool,
    pub pinned: bool,
}

impl CreateBookmarkRequest {
    /// The request that creates `bookmark`: its address, title, description,
    /// tags and privacy.
    pub fn from_bookmark(bookmark: &Bookmark) -> (r: CreateBookmarkRequest)
        ensures
            r.url@ == bookmark.url@,
            opt_text(r.title) == opt_text(bookmark.title),
            opt_text(r.description) == opt_text(bookmark.description),
            r.tags matches Some(t) && t.deep_view() == bookmark.tags.deep_view(),
            r.private == Some(bookmark.private),
    {
        CreateBookmarkRequest {
            url: bookmark.url.clone(),
            title: clone_text(&bookmark.title),
            description: clone_text(&bookmark.description),
            tags: Some(bookmark.tags.clone()),
            private: Some(bookmark.private),
        }
    }
}

impl UpdateBookmarkRequest {
    /// The request that stores `bookmark` as it is.
    pub fn from_bookmark(bookmark: &Bookmark) -> (r: UpdateBookmarkRequest)
        ensures
            r.url@ == bookmark.url@,
            opt_text(r.title) == opt_text(bookmark.title),
            opt_text(r.description) == opt_text(bookmark.description),
            r.tags.deep_view() == bookmark.tags.deep_view(),
            r.private == bookmark.private,
            r.pinned == bookmark.pinned,
    {
        UpdateBookmarkRequest {
            url: bookmark.url.clone(),
            title: clone_text(&bookmark.title),
            description: clone_text(&bookmark.description),
            tags: bookmark.tags.clone(),
            private: bookmark.private,
            pinned: bookmark.pinned,
        }
    }
}

} // verus!
