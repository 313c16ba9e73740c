use vstd::prelude::*;
use crate::data::{opt_text, Bookmark, Tag};
use crate::routes::spec_path;
use crate::routes::{Route, RouteView};
use crate::url::{decimal, decimal_string};

verus! {

/// What the application knows of its session and of itself.
pub struct AppState {
    pub username: Option<String>,
    pub commit: Option<String>,
    pub build_date: Option<String>,
    pub ready: bool,
}

impl AppState {
    /// Nothing known yet: no page is shown before the start-up requests
    /// have answered.
    pub fn new() -> (r: Self)
        ensures
            r.username is None,
            r.commit is None,
            r.build_date is None,
            !r.ready,
    {
        AppState { username: None, commit: None, build_date: None, ready: false }
    }

    /// The start-up requests have answered: the user of the current
    /// session, and the commit and build date of the application, each
    /// when the server sent it. Pages are shown from then on.
    pub fn on_started(&mut self, session_user: Option<String>, application: Option<(String, String)>)
        ensures
            final(self).ready,
            opt_text(final(self).username) == (match session_user {
                Some(u) => Some(u@),
                None => opt_text(old(self).username),
            }),
            opt_text(final(self).commit) == (match application {
                Some(a) => Some(a.0@),
                None => opt_text(old(self).commit),
            }),
            opt_text(final(self).build_date) == (match application {
                Some(a) => Some(a.1@),
                None => opt_text(old(self).build_date),
            }),
    {
        if let Some(u) = session_user {
            self.username = Some(u);
        }
        if let Some((commit, build_date)) = application {
            self.commit = Some(commit);
            self.build_date = Some(build_date);
        }
        self.ready = true;
    }

    /// A user logged in.
    pub fn on_login(&mut self, username: String)
        ensures
            opt_text(final(self).username) == Some(username@),
            opt_text(final(self).commit) == opt_text(old(self).commit),
            opt_text(final(self).build_date) == opt_text(old(self).build_date),
            final(self).ready == old(self).ready,
    {
        self.username = Some(username);
    }

    /// The user logged out.
    pub fn on_logout(&mut self)
        ensures
            final(self).username is None,
            opt_text(final(self).commit) == opt_text(old(self).commit),
            opt_text(final(self).build_date) == opt_text(old(self).build_date),
            final(self).ready == old(self).ready,
    {
        self.username = None;
    }

    /// Whether a user is logged in.
    pub fn logged_in(&self) -> (r: bool)
        ensures
            r == self.username is Some,
    {
        self.username.is_some()
    }

    /// The link of the page footer: the repository's tree at the commit
    /// the application was built from, or at `master` when it is unknown.
    pub fn footer_link(&self, repository: &str) -> (r: String)
        ensures
            r@ == repository@ + "/tree/"@ + (match self.commit {
                Some(c) => c@,
                None => "master"@,
            }),
    {
        let mut s = String::from_str(repository);
        s.append("/tree/");
        match &self.commit {
            Some(c) => s.append(c.as_str()),
            None => s.append("master"),
        }
        s
    }
}

/// The state of the main menu: whether its list of pages is unfolded.
pub struct MenuState {
    pub expanded: bool,
}

impl MenuState {
    /// A folded menu.
    pub fn new() -> (r: Self)
        ensures
            !r.expanded,
    {
        MenuState { expanded: false }
    }

    /// The menu button was clicked: the list folds or unfolds.
    pub fn on_toggle(&mut self)
        ensures
            final(self).expanded == !old(self).expanded,
    {
        self.expanded = !self.expanded;
    }

    /// A page of the list was chosen: the list folds and the page opens.
    pub fn on_choose(&mut self, page: Route) -> (r: Route)
        ensures
            !final(self).expanded,
            r@ == page@,
    {
        self.expanded = false;
        page
    }

    /// The style of the list of pages.
    pub fn submenu_class(&self) -> (r: &'static str)
        ensures
            r@ == (if self.expanded {
                "menu__left-submenu--expanded"@
            } else {
                "menu__left-submenu"@
            }),
    {
        if self.expanded {
            "menu__left-submenu--expanded"
        } else {
            "menu__left-submenu"
        }
    }
}

/// The pages listed in the main menu, in order.
pub fn menu_pages() -> (r: Vec<Route>)
    ensures
        r@.len() == 4,
        r@[0]@ == RouteView::Bookmarks,
        r@[1]@ == RouteView::TagCloud,
        r@[2]@ == RouteView::AddBookmark,
        r@[3]@ == RouteView::Tools,
{
    vec![Route::Bookmarks, Route::TagCloud, Route::AddBookmark, Route::Tools]
}

/// The account pages of the menu: the profile and logging out for a
/// logged-in user, logging in for anyone else.
pub fn account_pages(logged_in: bool) -> (r: Vec<Route>)
    ensures
        logged_in ==> r@.len() == 2 && r@[0]@ == RouteView::Profile && r@[1]@
            == RouteView::Logout,
        !logged_in ==> r@.len() == 1 && r@[0]@ == RouteView::Login,
{
    if logged_in {
        vec![Route::Profile, Route::Logout]
    } else {
        vec![Route::Login]
    }
}

/// Whether the QR code of a bookmark is shown over the page.
pub struct QrCodeState {
    pub overlay_open: bool,
}

impl Default for QrCodeState {
    fn default() -> (r: Self)
        ensures
            !r.overlay_open,
    {
        QrCodeState { overlay_open: false }
    }
}

impl QrCodeState {
    /// The QR code icon was clicked.
    pub fn open(&mut self)
        ensures
            final(self).overlay_open,
    {
        self.overlay_open = true;
    }

    /// The overlay was clicked.
    pub fn close(&mut self)
        ensures
            !final(self).overlay_open,
    {
        self.overlay_open = false;
    }
}

/// The position shown between the pager's arrows: the page, counted from
/// one, and the number of pages, as `P / N`.
pub fn nav_label(page: u64, page_count: u64) -> (r: String)
    requires
        page < u64::MAX,
    ensures
        r@ == decimal((page + 1) as nat) + " / "@ + decimal(page_count as nat),
{
    let mut s = decimal_string(page + 1);
    s.append(" / ");
    s.append(decimal_string(page_count).as_str());
    s
}

/// What follows a logout request.
pub struct LogoutStep {
    /// Whether the application is told that the user is gone.
    pub notify: bool,
    /// The page shown next.
    pub next: Route,
}

/// After the logout request: the application forgets the user only when
/// the server confirmed; the home page follows either way.
pub fn after_logout(confirmed: bool) -> (r: LogoutStep)
    ensures
        r.notify == confirmed,
        r.next@ == RouteView::Index,
{
    LogoutStep { notify: confirmed, next: Route::Index }
}

/// The text of a bookmark's link: its title, or its address when it has
/// none.
pub fn shown_title(bookmark: &Bookmark) -> (r: String)
    ensures
        r@ == (match bookmark.title {
            Some(t) => t@,
            None => bookmark.url@,
        }),
{
    match &bookmark.title {
        Some(t) => t.clone(),
        None => bookmark.url.clone(),
    }
}

/// The pin shown after the server answered a pin request: that of the
/// saved bookmark, or the one shown before when the request failed.
pub fn pinned_after_answer(shown: bool, saved_pinned: Option<bool>) -> (r: bool)
    ensures
        r == (match saved_pinned {
            Some(p) => p,
            None => shown,
        }),
{
    match saved_pinned {
        Some(p) => p,
        None => shown,
    }
}

/// The link of a tag in the tag cloud: the bookmark list filtered by that
/// tag, the tag's name written as it is.
pub fn tag_link(tag: &Tag) -> (r: String)
    ensures
        r@ == spec_path(RouteView::Bookmarks) + "?tags="@ + tag.name@,
{
    let mut s = Route::Bookmarks.to_path();
    s.append("?tags=");
    s.append(tag.name.as_str());
    s
}

/// How a bookmark's date is shown: the text, and a hint shown on hovering.
pub struct DateDisplay {
    pub text: String,
    pub hint: Option<String>,
}

/// The date shown for a bookmark, from its creation date and its update
/// date, if any, each already written out: the creation date alone, or,
/// for an updated bookmark, the creation date marked with ` *` and the
/// update date as the hint `updated: ...`.
pub fn date_display(created: &str, updated: Option<&str>) -> (r: DateDisplay)
    ensures
        updated is None ==> r.text@ == created@ && r.hint is None,
        updated matches Some(u) ==> r.text@ == created@ + " *"@ && (r.hint matches Some(h)
            && h@ == "updated: "@ + u@),
{
    match updated {
        None => DateDisplay { text: String::from_str(created), hint: None },
        Some(u) => {
            let mut text = String::from_str(created);
            text.append(" *");
            let mut hint = String::from_str("updated: ");
            hint.append(u);
            DateDisplay { text, hint: Some(hint) }
        },
    }
}

} // verus!
