use vstd::prelude::*;
use crate::data::{
    clone_text, opt_text, Access, Bookmark, BookmarkView, CreateBookmarkRequest,
    UpdateBookmarkRequest,
};
use crate::url::{percent_encoded, url_encode};
use vstd::utf8::encode_utf8;

verus! {

/// The text of an optional input field: none when the field is empty.
pub open spec fn field_text(value: Seq<char>) -> Option<Seq<char>> {
    if value.len() == 0 {
        None
    } else {
        Some(value)
    }
}

/// The optional text of an input field that holds `value`.
pub fn field_value(value: &str) -> (r: Option<String>)
    ensures
        opt_text(r) == field_text(value@),
{
    if value.is_empty() {
        None
    } else {
        Some(value.to_owned())
    }
}

/// The two steps of adding a bookmark: entering its address, then its
/// details.
#[derive(PartialEq, Eq, Structural, Clone, Copy, Debug)]
pub enum Step {
    Init,
    Details,
}

impl Default for Step {
    fn default() -> (r: Self)
        ensures
            r == Step::Init,
    {
        Step::Init
    }
}

/// Why a bookmark could not be stored.
#[derive(PartialEq, Eq, Structural, Clone, Copy, Debug)]
pub enum FormError {
    Forbidden,
    NotFound,
    Other,
}

/// How the server answered a request that stores a bookmark.
#[derive(PartialEq, Eq, Structural, Clone, Copy, Debug)]
pub enum StoreOutcome {
    Success,
    Forbidden,
    NotFound,
    Other,
}

/// What a form asks of the page after an answer: to go to the bookmark
/// list, or to stay.
#[derive(PartialEq, Eq, Structural, Clone, Copy, Debug)]
pub enum AfterAnswer {
    GoToBookmarks,
    Stay,
}

/// The state of the page that adds a bookmark.
pub struct CreateState {
    pub focused: bool,
    pub in_progress: bool,
    pub step: Step,
    pub bookmark: Bookmark,
    pub error: Option<FormError>,
}

/// What submitting the page that adds a bookmark does.
pub enum CreateSubmit {
    /// A request is already under way: nothing.
    Ignored,
    /// Look up the address: the percent-encoded address to ask about.
    LookUp(String),
    /// Store the bookmark with this request.
    Create(CreateBookmarkRequest),
}

/// What the server knows of an address.
pub struct UrlInfo {
    pub url: String,
    pub title: Option<String>,
    pub description: Option<String>,
}

impl Default for CreateState {
    fn default() -> (r: Self)
        ensures
            !r.focused,
            !r.in_progress,
            r.step == Step::Init,
            r.bookmark@ == Bookmark::default_view(),
            r.error is None,
    {
        CreateState {
            focused: false,
            in_progress: false,
            step: Step::Init,
            bookmark: Bookmark::default(),
            error: None,
        }
    }
}

impl CreateState {
    /// The page that adds a bookmark, opened with the `url` parameter of
    /// its address (as the bookmarklet does): a fresh form whose address
    /// field holds that address, or is empty without one.
    pub fn from_query(url: Option<&str>) -> (r: Self)
        ensures
            !r.focused,
            !r.in_progress,
            r.step == Step::Init,
            r.bookmark@ == (BookmarkView {
                url: match url {
                    Some(u) => u@,
                    None => seq![],
                },
                ..Bookmark::default_view()
            }),
            r.error is None,
    {
        let mut state = CreateState::default();
        if let Some(u) = url {
            state.bookmark.url = u.to_owned();
        }
        state
    }
}

impl Bookmark {
    /// The model of [`Bookmark::default`].
    pub open spec fn default_view() -> BookmarkView {
        BookmarkView {
            id: 0,
            url: seq![],
            title: None,
            description: None,
            tags: seq![],
            creation_date: crate::data::DateStamp { seconds: 0, nanoseconds: 0 },
            update_date: None,
            access: Access::Read,
            private: true,
            pinned: false,
        }
    }
}

impl CreateState {
    /// Which input takes the focus when the page is drawn, if one has to:
    /// the address in the first step, the title in the second.
    pub fn take_focus(&mut self) -> (r: Option<Step>)
        ensures
            old(self).focused ==> r is None && *final(self) == *old(self),
            !old(self).focused ==> r == Some(old(self).step) && final(self).focused
                && final(self).step == old(self).step && final(self).in_progress == old(
                self,
            ).in_progress && final(self).bookmark == old(self).bookmark && final(self).error
                == old(self).error,
    {
        if self.focused {
            None
        } else {
            self.focused = true;
            Some(self.step)
        }
    }

    /// Submits the form: ignored while a request is under way; else the
    /// request starts: the address is looked up in the first step, the
    /// bookmark is created in the second.
    pub fn on_submit(&mut self) -> (r: CreateSubmit)
        ensures
            old(self).in_progress ==> r is Ignored && *final(self) == *old(self),
            !old(self).in_progress ==> final(self).in_progress && final(self).step == old(
                self,
            ).step && final(self).bookmark == old(self).bookmark && final(self).focused == old(
                self,
            ).focused && final(self).error == old(self).error,
            !old(self).in_progress && old(self).step == Step::Init ==> (r matches CreateSubmit::LookUp(
                u,
            ) && u@ == percent_encoded(encode_utf8(old(self).bookmark.url@))),
            !old(self).in_progress && old(self).step == Step::Details ==> (r matches CreateSubmit::Create(
                req,
            ) && req.url@ == old(self).bookmark.url@ && opt_text(req.title) == opt_text(
                old(self).bookmark.title,
            ) && opt_text(req.description) == opt_text(old(self).bookmark.description) && (
            req.tags matches Some(t) && t.deep_view() == old(self).bookmark.tags.deep_view())
                && req.private == Some(old(self).bookmark.private)),
    {
        if self.in_progress {
            return CreateSubmit::Ignored;
        }
        self.in_progress = true;
        match self.step {
            Step::Init => CreateSubmit::LookUp(url_encode(self.bookmark.url.as_str())),
            Step::Details => CreateSubmit::Create(CreateBookmarkRequest::from_bookmark(&self.bookmark)),
        }
    }

    /// Handles the answer of the address look-up: the details step starts,
    /// with what the server knows of the address, if anything.
    pub fn on_url_info(&mut self, info: Option<UrlInfo>)
        ensures
            final(self).step == Step::Details,
            !final(self).focused,
            !final(self).in_progress,
            final(self).error == old(self).error,
            info is None ==> final(self).bookmark == old(self).bookmark,
            info matches Some(i) ==> final(self).bookmark@ == (BookmarkView {
                url: i.url@,
                title: opt_text(i.title),
                description: opt_text(i.description),
                ..old(self).bookmark@
            }),
    {
        self.step = Step::Details;
        self.focused = false;
        self.in_progress = false;
        if let Some(i) = info {
            self.bookmark.url = i.url;
            self.bookmark.title = i.title;
            self.bookmark.description = i.description;
        }
    }

    /// Handles the answer to the creation: on success the page goes to the
    /// bookmark list; a refusal or any other failure is shown and the form
    /// can be submitted again.
    pub fn on_create_answer(&mut self, outcome: StoreOutcome) -> (r: AfterAnswer)
        ensures
            outcome == StoreOutcome::Success ==> r == AfterAnswer::GoToBookmarks && *final(self)
                == *old(self),
            outcome == StoreOutcome::Forbidden ==> r == AfterAnswer::Stay && final(self).error
                == Some(FormError::Forbidden) && !final(self).in_progress,
            outcome != StoreOutcome::Success && outcome != StoreOutcome::Forbidden ==> r
                == AfterAnswer::Stay && final(self).error == Some(FormError::Other)
                && !final(self).in_progress,
            final(self).step == old(self).step,
            final(self).bookmark == old(self).bookmark,
            final(self).focused == old(self).focused,
    {
        match outcome {
            StoreOutcome::Success => AfterAnswer::GoToBookmarks,
            StoreOutcome::Forbidden => {
                self.in_progress = false;
                self.error = Some(FormError::Forbidden);
                AfterAnswer::Stay
            },
            _ => {
                self.in_progress = false;
                self.error = Some(FormError::Other);
                AfterAnswer::Stay
            },
        }
    }

    /// Handles an edit of the address: back to the first step.
    pub fn on_input_url(&mut self, value: &str)
        ensures
            final(self).step == Step::Init,
            final(self).bookmark@ == (BookmarkView { url: value@, ..old(self).bookmark@ }),
            final(self).in_progress == old(self).in_progress,
            final(self).focused == old(self).focused,
            final(self).error == old(self).error,
    {
        self.step = Step::Init;
        self.bookmark.url = value.to_owned();
    }

    /// Handles an edit of the title: an empty field means no title.
    pub fn on_input_title(&mut self, value: &str)
        ensures
            final(self).bookmark@ == (BookmarkView {
                title: field_text(value@),
                ..old(self).bookmark@
            }),
            final(self).step == old(self).step,
            final(self).in_progress == old(self).in_progress,
            final(self).focused == old(self).focused,
            final(self).error == old(self).error,
    {
        self.bookmark.title = field_value(value);
    }

    /// Handles an edit of the description: an empty field means none.
    pub fn on_input_description(&mut self, value: &str)
        ensures
            final(self).bookmark@ == (BookmarkView {
                description: field_text(value@),
                ..old(self).bookmark@
            }),
            final(self).step == old(self).step,
            final(self).in_progress == old(self).in_progress,
            final(self).focused == old(self).focused,
            final(self).error == old(self).error,
    {
        self.bookmark.description = field_value(value);
    }

    /// Handles new tags from the tag input.
    pub fn on_update_tags(&mut self, tags: Vec<String>)
        ensures
            final(self).bookmark@ == (BookmarkView { tags: tags.deep_view(), ..old(self).bookmark@ }),
            final(self).step == old(self).step,
            final(self).in_progress == old(self).in_progress,
            final(self).focused == old(self).focused,
            final(self).error == old(self).error,
    {
        self.bookmark.tags = tags;
    }

    /// Handles a click on the "private" box: the privacy flips.
    pub fn on_toggle_private(&mut self)
        ensures
            final(self).bookmark@ == (BookmarkView {
                private: !old(self).bookmark.private,
                ..old(self).bookmark@
            }),
            final(self).step == old(self).step,
            final(self).in_progress == old(self).in_progress,
            final(self).focused == old(self).focused,
            final(self).error == old(self).error,
    {
        self.bookmark.private = !self.bookmark.private;
    }
}

/// The style of a form's submit button: disabled while a request is under
/// way.
pub fn button_class(in_progress: bool) -> (r: &'static str)
    ensures
        r@ == (if in_progress {
            "button--disabled"@
        } else {
            "button--action"@
        }),
{
    if in_progress {
        "button--disabled"
    } else {
        "button--action"
    }
}

/// The state of the page that edits a bookmark.
pub struct EditState {
    pub focused: bool,
    pub bookmark: Bookmark,
    pub error: Option<FormError>,
}

/// Whether the user may change a bookmark; the edit and delete pages show
/// only a refusal otherwise.
pub fn can_change(access: Access) -> (r: bool)
    ensures
        r == (access == Access::Write),
{
    access == Access::Write
}

impl EditState {
    /// The state of the edit page for `bookmark`.
    pub fn new(bookmark: Bookmark) -> (r: EditState)
        ensures
            !r.focused,
            r.bookmark == bookmark,
            r.error is None,
    {
        EditState { focused: false, bookmark, error: None }
    }

    /// Whether the address input takes the focus now (only the first time).
    pub fn take_focus(&mut self) -> (r: bool)
        ensures
            r == !old(self).focused,
            final(self).focused,
            final(self).bookmark == old(self).bookmark,
            final(self).error == old(self).error,
    {
        if self.focused {
            false
        } else {
            self.focused = true;
            true
        }
    }

    /// The request that stores the edited bookmark.
    pub fn on_submit(&self) -> (r: UpdateBookmarkRequest)
        ensures
            r.url@ == self.bookmark.url@,
            opt_text(r.title) == opt_text(self.bookmark.title),
            opt_text(r.description) == opt_text(self.bookmark.description),
            r.tags.deep_view() == self.bookmark.tags.deep_view(),
            r.private == self.bookmark.private,
            r.pinned == self.bookmark.pinned,
    {
        UpdateBookmarkRequest::from_bookmark(&self.bookmark)
    }

    /// Handles the answer to the update: on success the page goes to the
    /// bookmark list; else the reason is shown.
    pub fn on_update_answer(&mut self, outcome: StoreOutcome) -> (r: AfterAnswer)
        ensures
            outcome == StoreOutcome::Success ==> r == AfterAnswer::GoToBookmarks && *final(self)
                == *old(self),
            outcome == StoreOutcome::Forbidden ==> r == AfterAnswer::Stay && final(self).error
                == Some(FormError::Forbidden),
            outcome == StoreOutcome::NotFound ==> r == AfterAnswer::Stay && final(self).error
                == Some(FormError::NotFound),
            outcome == StoreOutcome::Other ==> r == AfterAnswer::Stay && final(self).error
                == Some(FormError::Other),
            final(self).bookmark == old(self).bookmark,
            final(self).focused == old(self).focused,
    {
        match outcome {
            StoreOutcome::Success => AfterAnswer::GoToBookmarks,
            StoreOutcome::Forbidden => {
                self.error = Some(FormError::Forbidden);
                AfterAnswer::Stay
            },
            StoreOutcome::NotFound => {
                self.error = Some(FormError::NotFound);
                AfterAnswer::Stay
            },
            StoreOutcome::Other => {
                self.error = Some(FormError::Other);
                AfterAnswer::Stay
            },
        }
    }

    /// Handles an edit of the address.
    pub fn on_input_url(&mut self, value: &str)
        ensures
            final(self).bookmark@ == (BookmarkView { url: value@, ..old(self).bookmark@ }),
            final(self).error == old(self).error,
            final(self).focused == old(self).focused,
    {
        self.bookmark.url = value.to_owned();
    }

    /// Handles an edit of the title: an empty field means no title.
    pub fn on_input_title(&mut self, value: &str)
        ensures
            final(self).bookmark@ == (BookmarkView {
                title: field_text(value@),
                ..old(self).bookmark@
            }),
            final(self).error == old(self).error,
            final(self).focused == old(self).focused,
    {
        self.bookmark.title = field_value(value);
    }

    /// Handles an edit of the description: an empty field means none.
    pub fn on_input_description(&mut self, value: &str)
        ensures
            final(self).bookmark@ == (BookmarkView {
                description: field_text(value@),
                ..old(self).bookmark@
            }),
            final(self).error == old(self).error,
            final(self).focused == old(self).focused,
    {
        self.bookmark.description = field_value(value);
    }

    /// Handles new tags from the tag input.
    pub fn on_update_tags(&mut self, tags: Vec<String>)
        ensures
            final(self).bookmark@ == (BookmarkView { tags: tags.deep_view(), ..old(self).bookmark@ }),
            final(self).error == old(self).error,
            final(self).focused == old(self).focused,
    {
        self.bookmark.tags = tags;
    }
}

/// What the delete page shows after the server answered: `None` when the
/// bookmark was deleted (the page goes to the bookmark list), else why not.
pub fn delete_error(outcome: StoreOutcome) -> (r: Option<FormError>)
    ensures
        r == (match outcome {
            StoreOutcome::Success => None,
            StoreOutcome::Forbidden => Some(FormError::Forbidden),
            StoreOutcome::NotFound => Some(FormError::NotFound),
            StoreOutcome::Other => Some(FormError::Other),
        }),
{
    match outcome {
        StoreOutcome::Success => None,
        StoreOutcome::Forbidden => Some(FormError::Forbidden),
        StoreOutcome::NotFound => Some(FormError::NotFound),
        StoreOutcome::Other => Some(FormError::Other),
    }
}

/// The request that pins or unpins a bookmark: the bookmark as it is, with
/// the pin flipped from what is shown.
pub fn pin_request(bookmark: &Bookmark, pinned_shown: bool) -> (r: UpdateBookmarkRequest)
    ensures
        r.url@ == bookmark.url@,
        opt_text(r.title) == opt_text(bookmark.title),
        opt_text(r.description) == opt_text(bookmark.description),
        r.tags.deep_view() == bookmark.tags.deep_view(),
        r.private == bookmark.private,
        r.pinned == !pinned_shown,
{
    let mut request = UpdateBookmarkRequest::from_bookmark(bookmark);
    request.pinned = !pinned_shown;
    request
}

} // verus!
