use vstd::prelude::*;
use vstd::arithmetic::power::pow;
use crate::text::{
    chars_of, find, find_from, first_occurrence, join_with, lemma_find_from, same_text, split_on,
    split_text, string_of_range,
};
use crate::url::{decimal, decimal_string, parse_i32, spec_parse_i32};

verus! {

/// The pages of the application.
pub enum Route {
    Index,
    Bookmarks,
    AddBookmark,
    ViewBookmark { id: i32 },
    DeleteBookmark { id: i32 },
    EditBookmark { id: i32 },
    TagCloud,
    Tools,
    ToolImportShaarliApi,
    SignupForm,
    SignupSuccess,
    Login,
    RecoverPasswordStart,
    RecoverPasswordForm { id: String },
    ValidateEmail { uuid: u128 },
    Profile,
    Logout,
    NotFound,
}

/// The model of a [`Route`]: the same pages, the recovery token as
/// characters.
pub enum RouteView {
    Index,
    Bookmarks,
    AddBookmark,
    ViewBookmark(i32),
    DeleteBookmark(i32),
    EditBookmark(i32),
    TagCloud,
    Tools,
    ToolImportShaarliApi,
    SignupForm,
    SignupSuccess,
    Login,
    RecoverPasswordStart,
    RecoverPasswordForm(Seq<char>),
    ValidateEmail(u128),
    Profile,
    Logout,
    NotFound,
}

impl View for Route {
    type V = RouteView;

    open spec fn view(&self) -> RouteView {
        match self {
            Route::Index => RouteView::Index,
            Route::Bookmarks => RouteView::Bookmarks,
            Route::AddBookmark => RouteView::AddBookmark,
            Route::ViewBookmark { id } => RouteView::ViewBookmark(*id),
            Route::DeleteBookmark { id } => RouteView::DeleteBookmark(*id),
            Route::EditBookmark { id } => RouteView::EditBookmark(*id),
            Route::TagCloud => RouteView::TagCloud,
            Route::Tools => RouteView::Tools,
            Route::ToolImportShaarliApi => RouteView::ToolImportShaarliApi,
            Route::SignupForm => RouteView::SignupForm,
            Route::SignupSuccess => RouteView::SignupSuccess,
            Route::Login => RouteView::Login,
            Route::RecoverPasswordStart => RouteView::RecoverPasswordStart,
            Route::RecoverPasswordForm { id } => RouteView::RecoverPasswordForm(id@),
            Route::ValidateEmail { uuid } => RouteView::ValidateEmail(*uuid),
            Route::Profile => RouteView::Profile,
            Route::Logout => RouteView::Logout,
            Route::NotFound => RouteView::NotFound,
        }
    }
}

/// The lower-case hexadecimal digit of `d`, for `d` below 16.
pub open spec fn hex_lower(d: int) -> char {
    if d < 10 {
        (48 + d) as char
    } else {
        (87 + d) as char
    }
}

/// The 32 lower-case hexadecimal digits of `v`, most significant first.
pub open spec fn hex32(v: u128) -> Seq<char> {
    Seq::new(32, |i: int| hex_lower((v as int / pow(16, (31 - i) as nat)) % 16))
}

/// The hyphenated form of a UUID with the value `v`: its 32 hexadecimal
/// digits in groups of 8, 4, 4, 4 and 12, separated by hyphens.
pub open spec fn uuid_text(v: u128) -> Seq<char> {
    let h = hex32(v);
    h.subrange(0, 8) + seq!['-'] + h.subrange(8, 12) + seq!['-'] + h.subrange(12, 16) + seq!['-']
        + h.subrange(16, 20) + seq!['-'] + h.subrange(20, 32)
}

/// Calls `Uuid::from_u128` and `Uuid::to_string`, which writes the UUID's
/// 16 bytes (most significant first) as 32 lower-case hexadecimal digits,
/// hyphenated after the 8th, 12th, 16th and 20th digit.
#[verifier::external_body]
fn uuid_to_string(v: u128) -> (r: String)
    ensures
        r@ == uuid_text(v),
{
    uuid::Uuid::from_u128(v).to_string()
}

/// The decimal form of `n`, with a minus sign when negative.
pub open spec fn signed_decimal(n: i32) -> Seq<char> {
    if n < 0 {
        seq!['-'] + decimal((-(n as int)) as nat)
    } else {
        decimal(n as nat)
    }
}

fn i32_string(n: i32) -> (r: String)
    ensures
        r@ == signed_decimal(n),
{
    if n < 0 {
        let m: u64 = (0i64 - (n as i64)) as u64;
        let digits = decimal_string(m);
        let mut s = String::from_str("-");
        proof {
            reveal_strlit("-");
        }
        s.append(digits.as_str());
        s
    } else {
        decimal_string(n as u64)
    }
}

/// The address of a page.
pub open spec fn spec_path(r: RouteView) -> Seq<char> {
    match r {
        RouteView::Index => "/"@,
        RouteView::Bookmarks => "/bookmarks"@,
        RouteView::AddBookmark => "/bookmarks/~add"@,
        RouteView::ViewBookmark(id) => "/bookmarks/"@ + signed_decimal(id),
        RouteView::DeleteBookmark(id) => "/bookmarks/"@ + signed_decimal(id) + "/~delete"@,
        RouteView::EditBookmark(id) => "/bookmarks/"@ + signed_decimal(id) + "/~edit"@,
        RouteView::TagCloud => "/tags"@,
        RouteView::Tools => "/tools"@,
        RouteView::ToolImportShaarliApi => "/tools/shaarli-api-import"@,
        RouteView::SignupForm => "/signup"@,
        RouteView::SignupSuccess => "/signup/success"@,
        RouteView::Login => "/login"@,
        RouteView::RecoverPasswordStart => "/recover-password"@,
        RouteView::RecoverPasswordForm(id) => "/recover-password/"@ + id,
        RouteView::ValidateEmail(uuid) => "/email/"@ + uuid_text(uuid) + "/~validate"@,
        RouteView::Profile => "/profile"@,
        RouteView::Logout => "/logout"@,
        RouteView::NotFound => "/404"@,
    }
}

fn joined3(a: &str, b: &str, c: &str) -> (r: String)
    ensures
        r@ == a@ + b@ + c@,
{
    let mut s = String::from_str(a);
    s.append(b);
    s.append(c);
    s
}

/// Which parameters a page reads from the query part of its address.
#[derive(PartialEq, Eq, Structural, Clone, Copy, Debug)]
pub enum QueryKind {
    Nothing,
    Bookmarks,
    AddBookmark,
}

impl Route {
    /// The address of the page.
    pub fn to_path(&self) -> (r: String)
        ensures
            r@ == spec_path(self@),
    {
        proof {
            reveal_strlit("");
        }
        match self {
            Route::Index => String::from_str("/"),
            Route::Bookmarks => String::from_str("/bookmarks"),
            Route::AddBookmark => String::from_str("/bookmarks/~add"),
            Route::ViewBookmark { id } => joined3("/bookmarks/", i32_string(*id).as_str(), ""),
            Route::DeleteBookmark { id } => joined3(
                "/bookmarks/",
                i32_string(*id).as_str(),
                "/~delete",
            ),
            Route::EditBookmark { id } => joined3("/bookmarks/", i32_string(*id).as_str(), "/~edit"),
            Route::TagCloud => String::from_str("/tags"),
            Route::Tools => String::from_str("/tools"),
            Route::ToolImportShaarliApi => String::from_str("/tools/shaarli-api-import"),
            Route::SignupForm => String::from_str("/signup"),
            Route::SignupSuccess => String::from_str("/signup/success"),
            Route::Login => String::from_str("/login"),
            Route::RecoverPasswordStart => String::from_str("/recover-password"),
            Route::RecoverPasswordForm { id } => joined3("/recover-password/", id.as_str(), ""),
            Route::ValidateEmail { uuid } => joined3(
                "/email/",
                uuid_to_string(*uuid).as_str(),
                "/~validate",
            ),
            Route::Profile => String::from_str("/profile"),
            Route::Logout => String::from_str("/logout"),
            Route::NotFound => String::from_str("/404"),
        }
    }

    /// Which query parameters the page reads: the bookmark list reads its
    /// list parameters, the page that adds a bookmark reads the bookmark's
    /// address; the other pages read none.
    pub fn query_kind(&self) -> (r: QueryKind)
        ensures
            r == (match *self {
                Route::Bookmarks => QueryKind::Bookmarks,
                Route::AddBookmark => QueryKind::AddBookmark,
                _ => QueryKind::Nothing,
            }),
    {
        match self {
            Route::Bookmarks => QueryKind::Bookmarks,
            Route::AddBookmark => QueryKind::AddBookmark,
            _ => QueryKind::Nothing,
        }
    }

    /// Whether the page is shown to logged-in users only: adding, editing
    /// and deleting bookmarks, the tools and the profile.
    pub fn needs_login(&self) -> (r: bool)
        ensures
            r == (self@ is AddBookmark || self@ is DeleteBookmark || self@ is EditBookmark
                || self@ is Tools || self@ is ToolImportShaarliApi || self@ is Profile),
    {
        match self {
            Route::AddBookmark => true,
            Route::DeleteBookmark { .. } => true,
            Route::EditBookmark { .. } => true,
            Route::Tools => true,
            Route::ToolImportShaarliApi => true,
            Route::Profile => true,
            _ => false,
        }
    }
}

} // verus!

verus! {

/// The address to come back to after logging in: the current page's path
/// followed by its query part (which starts with `?` when there is one).
pub fn redirect_target(path: &str, query: &str) -> (r: String)
    ensures
        r@ == path@ + query@,
{
    let mut s = String::from_str(path);
    s.append(query);
    s
}

/// A redirect address split at its first `?`: the path, and what follows
/// the `?`, if there is one.
pub open spec fn spec_split_redirect(s: Seq<char>) -> (Seq<char>, Option<Seq<char>>) {
    match first_occurrence(s, seq!['?']) {
        None => (s, None),
        Some(i) => (s.take(i), Some(s.skip(i + 1))),
    }
}

/// Splits a redirect address at its first `?`.
pub fn split_redirect(redirect_to: &str) -> (r: (String, Option<String>))
    ensures
        (r.0@, match r.1 {
            Some(q) => Some(q@),
            None => None,
        }) == spec_split_redirect(redirect_to@),
{
    let cs = chars_of(redirect_to);
    let q = vec!['?'];
    assert(q@ =~= seq!['?']);
    match find(&cs, &q) {
        None => (String::from_str(redirect_to), None),
        Some(i) => {
            proof {
                lemma_find_from(cs@, q@, 0);
            }
            let n = cs.len();
            let path = string_of_range(&cs, 0, i);
            let rest = string_of_range(&cs, i + 1, n);
            assert(path@ =~= cs@.take(i as int));
            assert(rest@ =~= cs@.skip(i + 1));
            (path, Some(rest))
        },
    }
}

/// Where to go after logging in: the home page, or the address that the
/// login page was asked to return to.
pub enum Destination {
    Index,
    Redirect { path: String, query: Option<String> },
}

/// Where to go after a successful login, given the `redirect_to` parameter
/// of the login page.
pub fn login_destination(redirect_to: Option<&str>) -> (r: Destination)
    ensures
        redirect_to is None ==> r is Index,
        redirect_to matches Some(t) ==> (r matches Destination::Redirect { path, query } && (
        path@, match query {
            Some(q) => Some(q@),
            None => None,
        }) == spec_split_redirect(t@)),
{
    match redirect_to {
        None => Destination::Index,
        Some(t) => {
            let (path, query) = split_redirect(t);
            Destination::Redirect { path, query }
        },
    }
}

proof fn lemma_first_question_mark(path: Seq<char>, rest: Seq<char>, i: int)
    requires
        forall|k: int| 0 <= k < path.len() ==> path[k] != '?',
        0 <= i <= path.len(),
    ensures
        find_from(path + seq!['?'] + rest, seq!['?'], i) == Some(path.len() as int),
    decreases path.len() - i,
{
    let h = path + seq!['?'] + rest;
    if i < path.len() {
        assert(h.subrange(i, i + 1)[0] == path[i]);
        lemma_first_question_mark(path, rest, i + 1);
    } else {
        assert(h.subrange(i, i + 1) =~= seq!['?']);
    }
}

/// Splitting the address built for a login redirect gives back the page's
/// path and its query: with a query part `?q`, the path and `q`; with none,
/// the path alone. The path holds no `?`.
pub proof fn law_redirect_round_trip(path: Seq<char>, q: Seq<char>)
    requires
        forall|k: int| 0 <= k < path.len() ==> path[k] != '?',
    ensures
        spec_split_redirect(path + seq!['?'] + q) == (path, Some(q)),
        spec_split_redirect(path) == (path, None::<Seq<char>>),
{
    lemma_first_question_mark(path, q, 0);
    let h = path + seq!['?'] + q;
    assert(h.take(path.len() as int) =~= path);
    assert(h.skip(path.len() as int + 1) =~= q);
    lemma_find_from(path, seq!['?'], 0);
    if let Some(k) = first_occurrence(path, seq!['?']) {
        assert(path.subrange(k, k + 1)[0] == path[k]);
    }
}

} // verus!

verus! {

/// Whether the bookmark list must navigate to `route` with the parameters
/// `new`: when the browser is on another path, when the current address has
/// no parameters, or when they differ from `new`.
pub fn should_navigate(
    location_path: &str,
    route: &Route,
    current: Option<&crate::query::Params>,
    new: &crate::query::Params,
) -> (r: bool)
    ensures
        r == (location_path@ != spec_path(route@) || current is None || (current matches Some(
            c,
        ) && c@ != new@)),
{
    let p = route.to_path();
    if !crate::text::same_text(location_path, p.as_str()) {
        return true;
    }
    match current {
        None => true,
        Some(c) => !c.same_as(new),
    }
}

/// What a protected page does: `None` when the user is logged in (the page
/// is shown), else the address to come back to after logging in, which the
/// login page receives as `redirect_to`.
pub fn protected_redirect(logged_in: bool, route: &Route, query: &str) -> (r: Option<String>)
    ensures
        logged_in ==> r is None,
        !logged_in ==> (r matches Some(t) && t@ == spec_path(route@) + query@),
{
    if logged_in {
        None
    } else {
        let path = route.to_path();
        Some(redirect_target(path.as_str(), query))
    }
}

} // verus!

verus! {

/// What `Uuid::from_str` gives for a text with these characters: the value
/// of the UUID it writes, if it writes one.
pub uninterp spec fn uuid_parsed(s: Seq<char>) -> Option<u128>;

/// Calls `Uuid::from_str` (then `Uuid::as_u128`). The contract claims that
/// the result depends only on the characters of `s`, and that the
/// hyphenated lower-case form of a value reads back as that value; which
/// other forms are accepted is left unsaid.
#[verifier::external_body]
fn parse_uuid(s: &str) -> (r: Option<u128>)
    ensures
        r == uuid_parsed(s@),
        forall|v: u128| s@ == uuid_text(v) ==> r == Some(v),
{
    s.parse::<uuid::Uuid>().ok().map(|u| u.as_u128())
}

/// A path without one trailing `/` and then without one leading `/`.
pub open spec fn trim_path(p: Seq<char>) -> Seq<char> {
    let a = if p.len() > 0 && p.last() == '/' {
        p.drop_last()
    } else {
        p
    };
    if a.len() > 0 && a[0] == '/' {
        a.drop_first()
    } else {
        a
    }
}

/// The page named by a path of one segment.
pub open spec fn spec_route_one(a: Seq<char>) -> RouteView {
    if a.len() == 0 {
        RouteView::Index
    } else if a == "bookmarks"@ {
        RouteView::Bookmarks
    } else if a == "tags"@ {
        RouteView::TagCloud
    } else if a == "tools"@ {
        RouteView::Tools
    } else if a == "signup"@ {
        RouteView::SignupForm
    } else if a == "login"@ {
        RouteView::Login
    } else if a == "recover-password"@ {
        RouteView::RecoverPasswordStart
    } else if a == "profile"@ {
        RouteView::Profile
    } else if a == "logout"@ {
        RouteView::Logout
    } else {
        RouteView::NotFound
    }
}

/// The page named by a path of two segments.
pub open spec fn spec_route_two(a: Seq<char>, b: Seq<char>) -> RouteView {
    if a == "bookmarks"@ && b == "~add"@ {
        RouteView::AddBookmark
    } else if a == "bookmarks"@ && b.len() > 0 {
        match spec_parse_i32(b) {
            Some(id) => RouteView::ViewBookmark(id),
            None => RouteView::NotFound,
        }
    } else if a == "tools"@ && b == "shaarli-api-import"@ {
        RouteView::ToolImportShaarliApi
    } else if a == "signup"@ && b == "success"@ {
        RouteView::SignupSuccess
    } else if a == "recover-password"@ && b.len() > 0 {
        RouteView::RecoverPasswordForm(b)
    } else {
        RouteView::NotFound
    }
}

/// The page named by a path of three segments.
pub open spec fn spec_route_three(a: Seq<char>, b: Seq<char>, c: Seq<char>) -> RouteView {
    if a == "bookmarks"@ && b.len() > 0 && c == "~delete"@ {
        match spec_parse_i32(b) {
            Some(id) => RouteView::DeleteBookmark(id),
            None => RouteView::NotFound,
        }
    } else if a == "bookmarks"@ && b.len() > 0 && c == "~edit"@ {
        match spec_parse_i32(b) {
            Some(id) => RouteView::EditBookmark(id),
            None => RouteView::NotFound,
        }
    } else if a == "email"@ && b.len() > 0 && c == "~validate"@ {
        match uuid_parsed(b) {
            Some(v) => RouteView::ValidateEmail(v),
            None => RouteView::NotFound,
        }
    } else {
        RouteView::NotFound
    }
}

/// The page that a path names: the path, trimmed, is split at `/`; a
/// parameter segment matches any non-empty text without `/`, and a page
/// whose parameter does not read as its type, like a path that matches no
/// page, is the "not found" page. A fixed segment wins over a parameter.
pub open spec fn spec_recognize(path: Seq<char>) -> RouteView {
    let s = split_on(trim_path(path), '/');
    if s.len() == 1 {
        spec_route_one(s[0])
    } else if s.len() == 2 {
        spec_route_two(s[0], s[1])
    } else if s.len() == 3 {
        spec_route_three(s[0], s[1], s[2])
    } else {
        RouteView::NotFound
    }
}

fn trim_path_exec(path: &str) -> (r: Vec<char>)
    ensures
        r@ == trim_path(path@),
{
    let mut cs = chars_of(path);
    let n = cs.len();
    if n > 0 && cs[n - 1] == '/' {
        cs.pop();
    }
    if cs.len() > 0 && cs[0] == '/' {
        cs.remove(0);
    }
    proof {
        let p = path@;
        let a = if p.len() > 0 && p.last() == '/' {
            p.drop_last()
        } else {
            p
        };
        assert(a.len() > 0 && a[0] == '/' ==> a.drop_first() =~= a.remove(0));
    }
    cs
}

fn route_one(a: &str) -> (r: Route)
    ensures
        r@ == spec_route_one(a@),
{
    if a.is_empty() {
        Route::Index
    } else if same_text(a, "bookmarks") {
        Route::Bookmarks
    } else if same_text(a, "tags") {
        Route::TagCloud
    } else if same_text(a, "tools") {
        Route::Tools
    } else if same_text(a, "signup") {
        Route::SignupForm
    } else if same_text(a, "login") {
        Route::Login
    } else if same_text(a, "recover-password") {
        Route::RecoverPasswordStart
    } else if same_text(a, "profile") {
        Route::Profile
    } else if same_text(a, "logout") {
        Route::Logout
    } else {
        Route::NotFound
    }
}

fn route_two(a: &str, b: &str) -> (r: Route)
    ensures
        r@ == spec_route_two(a@, b@),
{
    if same_text(a, "bookmarks") && same_text(b, "~add") {
        Route::AddBookmark
    } else if same_text(a, "bookmarks") && !b.is_empty() {
        match parse_i32(chars_of(b).as_slice()) {
            Some(id) => Route::ViewBookmark { id },
            None => Route::NotFound,
        }
    } else if same_text(a, "tools") && same_text(b, "shaarli-api-import") {
        Route::ToolImportShaarliApi
    } else if same_text(a, "signup") && same_text(b, "success") {
        Route::SignupSuccess
    } else if same_text(a, "recover-password") && !b.is_empty() {
        Route::RecoverPasswordForm { id: b.to_owned() }
    } else {
        Route::NotFound
    }
}

fn route_three(a: &str, b: &str, c: &str) -> (r: Route)
    ensures
        r@ == spec_route_three(a@, b@, c@),
        forall|v: u128|
            a@ == "email"@ && b@ == uuid_text(v) && c@ == "~validate"@ ==> r@
                == RouteView::ValidateEmail(v),
{
    proof {
        reveal_strlit("email");
        reveal_strlit("bookmarks");
        assert("email"@.len() != "bookmarks"@.len());
    }
    if same_text(a, "bookmarks") && !b.is_empty() && same_text(c, "~delete") {
        match parse_i32(chars_of(b).as_slice()) {
            Some(id) => Route::DeleteBookmark { id },
            None => Route::NotFound,
        }
    } else if same_text(a, "bookmarks") && !b.is_empty() && same_text(c, "~edit") {
        match parse_i32(chars_of(b).as_slice()) {
            Some(id) => Route::EditBookmark { id },
            None => Route::NotFound,
        }
    } else if same_text(a, "email") && !b.is_empty() && same_text(c, "~validate") {
        match parse_uuid(b) {
            Some(v) => Route::ValidateEmail { uuid: v },
            None => Route::NotFound,
        }
    } else {
        proof {
            assert forall|v: u128|
                a@ == "email"@ && b@ == uuid_text(v) && c@ == "~validate"@ implies false by {
                lemma_uuid_text_shape(v);
            }
        }
        Route::NotFound
    }
}

impl Route {
    /// The page that `pathname` names; a path that names no page gives the
    /// "not found" page, so there is always one. The address of a page
    /// reads back as that page.
    pub fn recognize(pathname: &str) -> (r: Option<Route>)
        ensures
            r matches Some(route) && route@ == spec_recognize(pathname@),
            forall|p: RouteView|
                #![trigger spec_path(p)]
                has_readable_path(p) && pathname@ == spec_path(p) ==> (r matches Some(route)
                    && route@ == p),
    {
        let trimmed = trim_path_exec(pathname);
        let t = crate::text::string_of(&trimmed);
        let s = split_text(t.as_str(), '/');
        let n = s.len();
        let route = if n == 1 {
            route_one(s[0].as_str())
        } else if n == 2 {
            route_two(s[0].as_str(), s[1].as_str())
        } else if n == 3 {
            route_three(s[0].as_str(), s[1].as_str(), s[2].as_str())
        } else {
            Route::NotFound
        };
        proof {
            assert forall|p: RouteView|
                #![trigger spec_path(p)]
                has_readable_path(p) && pathname@ == spec_path(p) implies route@ == p by {
                match p {
                    RouteView::ValidateEmail(v) => lemma_reads_validate_email(v),
                    _ => law_recognize_path(p),
                }
            }
        }
        Some(route)
    }
}

} // verus!

verus! {

/// The decimal form of a number reads back as the number.
pub proof fn lemma_signed_decimal_reads_back(n: i32)
    ensures
        spec_parse_i32(signed_decimal(n)) == Some(n),
        signed_decimal(n).len() > 0,
        forall|i: int| 0 <= i < signed_decimal(n).len() ==> signed_decimal(n)[i] != '/',
        signed_decimal(n)[0] != '~',
{
    if n < 0 {
        let m = (-(n as int)) as nat;
        crate::url::lemma_decimal_reads_back(m);
        let d = decimal(m);
        let s = seq!['-'] + d;
        assert(s.drop_first() =~= d);
        assert forall|i: int| 0 <= i < s.len() implies s[i] != '/' by {
            if i > 0 {
                assert(s[i] == d[i - 1]);
                assert(crate::url::is_digit(d[i - 1]));
            }
        }
    } else {
        crate::url::lemma_decimal_reads_back(n as nat);
        let d = decimal(n as nat);
        assert(crate::url::is_digit(d[0]));
        assert forall|i: int| 0 <= i < d.len() implies d[i] != '/' by {
            assert(crate::url::is_digit(d[i]));
        }
    }
}

proof fn lemma_uuid_text_shape(v: u128)
    ensures
        uuid_text(v).len() == 36,
        forall|i: int| 0 <= i < uuid_text(v).len() ==> uuid_text(v)[i] != '/',
{
    let h = hex32(v);
    assert forall|i: int| 0 <= i < 32 implies h[i] != '/' by {
        let x = (v as int / pow(16, (31 - i) as nat)) % 16;
        assert(0 <= x < 16);
    }
    let t = uuid_text(v);
    assert forall|i: int| 0 <= i < t.len() implies t[i] != '/' by {
        if i < 8 {
            assert(t[i] == h[i]);
        } else if i == 8 || i == 13 || i == 18 || i == 23 {
        } else if i < 13 {
            assert(t[i] == h[i - 1]);
        } else if i < 18 {
            assert(t[i] == h[i - 2]);
        } else if i < 23 {
            assert(t[i] == h[i - 3]);
        } else {
            assert(t[i] == h[i - 4]);
        }
    }
}

proof fn lemma_join_ends_with_last(segs: Seq<Seq<char>>)
    requires
        segs.len() > 0,
        segs.last().len() > 0,
    ensures
        join_with(segs, '/').len() > 0,
        join_with(segs, '/').last() == segs.last().last(),
{
}

/// A path made of a `/` and non-empty segments without `/` splits back
/// into those segments.
proof fn lemma_path_segments(segs: Seq<Seq<char>>)
    requires
        segs.len() > 0,
        forall|i: int| 0 <= i < segs.len() ==> #[trigger] segs[i].len() > 0,
        forall|i: int, j: int| 0 <= i < segs.len() && 0 <= j < segs[i].len() ==> segs[i][j] != '/',
    ensures
        split_on(trim_path(seq!['/'] + join_with(segs, '/')), '/') == segs,
{
    let j = join_with(segs, '/');
    assert(segs.last().len() > 0);
    lemma_join_ends_with_last(segs);
    let l = segs.last();
    assert(l.last() != '/');
    let p = seq!['/'] + j;
    assert(p.last() == j.last());
    assert(p.drop_first() =~= j);
    assert(trim_path(p) == j);
    crate::text::lemma_split_join(segs, '/');
}

proof fn lemma_join2(a: Seq<char>, b: Seq<char>)
    ensures
        join_with(seq![a, b], '/') == a + seq!['/'] + b,
{
    let t = seq![a, b];
    assert(t.drop_last() =~= seq![a]);
    assert(join_with(seq![a], '/') == a);
    assert(t.last() == b);
}

proof fn lemma_join3(a: Seq<char>, b: Seq<char>, c: Seq<char>)
    ensures
        join_with(seq![a, b, c], '/') == a + seq!['/'] + b + seq!['/'] + c,
{
    assert(seq![a, b, c].drop_last() =~= seq![a, b]);
    lemma_join2(a, b);
}

/// Whether a page's address reads back as the page: the recovery token
/// must be non-empty and hold no `/`.
pub open spec fn has_readable_path(r: RouteView) -> bool {
    match r {
        RouteView::RecoverPasswordForm(id) => id.len() > 0 && forall|i: int|
            0 <= i < id.len() ==> id[i] != '/',
        _ => true,
    }
}

proof fn lemma_one_segment(r: RouteView, name: Seq<char>)
    requires
        name.len() > 0,
        forall|i: int| 0 <= i < name.len() ==> name[i] != '/',
        spec_path(r) =~= seq!['/'] + name,
    ensures
        split_on(trim_path(spec_path(r)), '/') == seq![name],
{
    assert(join_with(seq![name], '/') == name);
    lemma_path_segments(seq![name]);
}

proof fn lemma_reads_bookmarks()
    ensures
        spec_recognize(spec_path(RouteView::Bookmarks)) == RouteView::Bookmarks,
{
    reveal_strlit("/bookmarks");
    reveal_strlit("bookmarks");
    lemma_one_segment(RouteView::Bookmarks, "bookmarks"@);
}

proof fn lemma_reads_tag_cloud()
    ensures
        spec_recognize(spec_path(RouteView::TagCloud)) == RouteView::TagCloud,
{
    reveal_strlit("/tags");
    reveal_strlit("tags");
    reveal_strlit("bookmarks");
    lemma_one_segment(RouteView::TagCloud, "tags"@);
    assert("tags"@.len() != "bookmarks"@.len());
}

proof fn lemma_reads_tools()
    ensures
        spec_recognize(spec_path(RouteView::Tools)) == RouteView::Tools,
{
    reveal_strlit("/tools");
    reveal_strlit("tools");
    reveal_strlit("bookmarks");
    reveal_strlit("tags");
    lemma_one_segment(RouteView::Tools, "tools"@);
    assert("tools"@.len() != "bookmarks"@.len());
    assert("tools"@.len() != "tags"@.len());
}

proof fn lemma_reads_signup_form()
    ensures
        spec_recognize(spec_path(RouteView::SignupForm)) == RouteView::SignupForm,
{
    reveal_strlit("/signup");
    reveal_strlit("signup");
    reveal_strlit("bookmarks");
    reveal_strlit("tags");
    reveal_strlit("tools");
    lemma_one_segment(RouteView::SignupForm, "signup"@);
    assert("signup"@.len() != "bookmarks"@.len());
    assert("signup"@.len() != "tags"@.len());
    assert("signup"@.len() != "tools"@.len());
}

proof fn lemma_reads_login()
    ensures
        spec_recognize(spec_path(RouteView::Login)) == RouteView::Login,
{
    reveal_strlit("/login");
    reveal_strlit("login");
    reveal_strlit("bookmarks");
    reveal_strlit("tags");
    reveal_strlit("tools");
    reveal_strlit("signup");
    lemma_one_segment(RouteView::Login, "login"@);
    assert("login"@.len() != "bookmarks"@.len());
    assert("login"@.len() != "tags"@.len());
    assert("login"@[0] != "tools"@[0]);
    assert("login"@.len() != "signup"@.len());
}

proof fn lemma_reads_recover_password_start()
    ensures
        spec_recognize(spec_path(RouteView::RecoverPasswordStart)) == RouteView::RecoverPasswordStart,
{
    reveal_strlit("/recover-password");
    reveal_strlit("recover-password");
    reveal_strlit("bookmarks");
    reveal_strlit("tags");
    reveal_strlit("tools");
    reveal_strlit("signup");
    reveal_strlit("login");
    lemma_one_segment(RouteView::RecoverPasswordStart, "recover-password"@);
    assert("recover-password"@.len() != "bookmarks"@.len());
    assert("recover-password"@.len() != "tags"@.len());
    assert("recover-password"@.len() != "tools"@.len());
    assert("recover-password"@.len() != "signup"@.len());
    assert("recover-password"@.len() != "login"@.len());
}

proof fn lemma_reads_profile()
    ensures
        spec_recognize(spec_path(RouteView::Profile)) == RouteView::Profile,
{
    reveal_strlit("/profile");
    reveal_strlit("profile");
    reveal_strlit("bookmarks");
    reveal_strlit("tags");
    reveal_strlit("tools");
    reveal_strlit("signup");
    reveal_strlit("login");
    reveal_strlit("recover-password");
    lemma_one_segment(RouteView::Profile, "profile"@);
    assert("profile"@.len() != "bookmarks"@.len());
    assert("profile"@.len() != "tags"@.len());
    assert("profile"@.len() != "tools"@.len());
    assert("profile"@.len() != "signup"@.len());
    assert("profile"@.len() != "login"@.len());
    assert("profile"@.len() != "recover-password"@.len());
}

proof fn lemma_reads_logout()
    ensures
        spec_recognize(spec_path(RouteView::Logout)) == RouteView::Logout,
{
    reveal_strlit("/logout");
    reveal_strlit("logout");
    reveal_strlit("bookmarks");
    reveal_strlit("tags");
    reveal_strlit("tools");
    reveal_strlit("signup");
    reveal_strlit("login");
    reveal_strlit("recover-password");
    reveal_strlit("profile");
    lemma_one_segment(RouteView::Logout, "logout"@);
    assert("logout"@.len() != "bookmarks"@.len());
    assert("logout"@.len() != "tags"@.len());
    assert("logout"@.len() != "tools"@.len());
    assert("logout"@[0] != "signup"@[0]);
    assert("logout"@.len() != "login"@.len());
    assert("logout"@.len() != "recover-password"@.len());
    assert("logout"@.len() != "profile"@.len());
}

proof fn lemma_reads_not_found()
    ensures
        spec_recognize(spec_path(RouteView::NotFound)) == RouteView::NotFound,
{
    reveal_strlit("/404");
    reveal_strlit("404");
    reveal_strlit("bookmarks");
    reveal_strlit("tags");
    reveal_strlit("tools");
    reveal_strlit("signup");
    reveal_strlit("login");
    reveal_strlit("recover-password");
    reveal_strlit("profile");
    reveal_strlit("logout");
    lemma_one_segment(RouteView::NotFound, "404"@);
    assert("404"@.len() != "bookmarks"@.len());
    assert("404"@.len() != "tags"@.len());
    assert("404"@.len() != "tools"@.len());
    assert("404"@.len() != "signup"@.len());
    assert("404"@.len() != "login"@.len());
    assert("404"@.len() != "recover-password"@.len());
    assert("404"@.len() != "profile"@.len());
    assert("404"@.len() != "logout"@.len());
}

proof fn lemma_reads_index()
    ensures
        spec_recognize(spec_path(RouteView::Index)) == RouteView::Index,
{
    reveal_strlit("/");
    assert(trim_path("/"@) =~= Seq::<char>::empty());
    crate::text::lemma_last_index_of(Seq::<char>::empty(), '/');
    assert(split_on(Seq::<char>::empty(), '/') =~= seq![Seq::<char>::empty()]);
}

proof fn lemma_two_segments(r: RouteView, a: Seq<char>, b: Seq<char>)
    requires
        a.len() > 0,
        b.len() > 0,
        forall|i: int| 0 <= i < a.len() ==> a[i] != '/',
        forall|i: int| 0 <= i < b.len() ==> b[i] != '/',
        spec_path(r) =~= seq!['/'] + a + seq!['/'] + b,
    ensures
        split_on(trim_path(spec_path(r)), '/') == seq![a, b],
{
    lemma_join2(a, b);
    lemma_path_segments(seq![a, b]);
    assert(spec_path(r) =~= seq!['/'] + join_with(seq![a, b], '/'));
}

proof fn lemma_three_segments(r: RouteView, a: Seq<char>, b: Seq<char>, c: Seq<char>)
    requires
        a.len() > 0,
        b.len() > 0,
        c.len() > 0,
        forall|i: int| 0 <= i < a.len() ==> a[i] != '/',
        forall|i: int| 0 <= i < b.len() ==> b[i] != '/',
        forall|i: int| 0 <= i < c.len() ==> c[i] != '/',
        spec_path(r) =~= seq!['/'] + a + seq!['/'] + b + seq!['/'] + c,
    ensures
        split_on(trim_path(spec_path(r)), '/') == seq![a, b, c],
{
    lemma_join3(a, b, c);
    lemma_path_segments(seq![a, b, c]);
    assert(spec_path(r) =~= seq!['/'] + join_with(seq![a, b, c], '/'));
}

proof fn lemma_reads_add_bookmark()
    ensures
        spec_recognize(spec_path(RouteView::AddBookmark)) == RouteView::AddBookmark,
{
    reveal_strlit("/bookmarks/~add");
    reveal_strlit("bookmarks");
    reveal_strlit("~add");
    lemma_two_segments(RouteView::AddBookmark, "bookmarks"@, "~add"@);
}

proof fn lemma_reads_tool_import()
    ensures
        spec_recognize(spec_path(RouteView::ToolImportShaarliApi))
            == RouteView::ToolImportShaarliApi,
{
    reveal_strlit("/tools/shaarli-api-import");
    reveal_strlit("bookmarks");
    reveal_strlit("tools");
    reveal_strlit("shaarli-api-import");
    lemma_two_segments(RouteView::ToolImportShaarliApi, "tools"@, "shaarli-api-import"@);
    assert("tools"@.len() != "bookmarks"@.len());
}

proof fn lemma_reads_signup_success()
    ensures
        spec_recognize(spec_path(RouteView::SignupSuccess)) == RouteView::SignupSuccess,
{
    reveal_strlit("/signup/success");
    reveal_strlit("bookmarks");
    reveal_strlit("tools");
    reveal_strlit("signup");
    reveal_strlit("success");
    lemma_two_segments(RouteView::SignupSuccess, "signup"@, "success"@);
    assert("signup"@.len() != "bookmarks"@.len());
    assert("signup"@.len() != "tools"@.len());
}

proof fn lemma_reads_recover_form(id: Seq<char>)
    requires
        has_readable_path(RouteView::RecoverPasswordForm(id)),
    ensures
        spec_recognize(spec_path(RouteView::RecoverPasswordForm(id)))
            == RouteView::RecoverPasswordForm(id),
{
    reveal_strlit("/recover-password/");
    reveal_strlit("bookmarks");
    reveal_strlit("tools");
    reveal_strlit("signup");
    reveal_strlit("recover-password");
    lemma_two_segments(RouteView::RecoverPasswordForm(id), "recover-password"@, id);
    assert("recover-password"@.len() != "bookmarks"@.len());
    assert("recover-password"@.len() != "tools"@.len());
    assert("recover-password"@.len() != "signup"@.len());
}

proof fn lemma_reads_view_bookmark(id: i32)
    ensures
        spec_recognize(spec_path(RouteView::ViewBookmark(id))) == RouteView::ViewBookmark(id),
{
    reveal_strlit("/bookmarks/");
    reveal_strlit("bookmarks");
    reveal_strlit("~add");
    let d = signed_decimal(id);
    lemma_signed_decimal_reads_back(id);
    lemma_two_segments(RouteView::ViewBookmark(id), "bookmarks"@, d);
    assert(d[0] != "~add"@[0]);
}

proof fn lemma_reads_delete_bookmark(id: i32)
    ensures
        spec_recognize(spec_path(RouteView::DeleteBookmark(id))) == RouteView::DeleteBookmark(id),
{
    reveal_strlit("/bookmarks/");
    reveal_strlit("/~delete");
    reveal_strlit("bookmarks");
    reveal_strlit("~delete");
    let d = signed_decimal(id);
    lemma_signed_decimal_reads_back(id);
    lemma_three_segments(RouteView::DeleteBookmark(id), "bookmarks"@, d, "~delete"@);
}

proof fn lemma_reads_edit_bookmark(id: i32)
    ensures
        spec_recognize(spec_path(RouteView::EditBookmark(id))) == RouteView::EditBookmark(id),
{
    reveal_strlit("/bookmarks/");
    reveal_strlit("/~edit");
    reveal_strlit("bookmarks");
    reveal_strlit("~delete");
    reveal_strlit("~edit");
    let d = signed_decimal(id);
    lemma_signed_decimal_reads_back(id);
    lemma_three_segments(RouteView::EditBookmark(id), "bookmarks"@, d, "~edit"@);
    assert("~edit"@.len() != "~delete"@.len());
}

proof fn lemma_reads_validate_email(v: u128)
    ensures
        split_on(trim_path(spec_path(RouteView::ValidateEmail(v))), '/') == seq![
            "email"@,
            uuid_text(v),
            "~validate"@,
        ],
        uuid_text(v).len() > 0,
        spec_recognize(spec_path(RouteView::ValidateEmail(v))) == match uuid_parsed(uuid_text(v)) {
            Some(w) => RouteView::ValidateEmail(w),
            None => RouteView::NotFound,
        },
{
    reveal_strlit("/email/");
    reveal_strlit("/~validate");
    reveal_strlit("bookmarks");
    reveal_strlit("email");
    reveal_strlit("~validate");
    let u = uuid_text(v);
    lemma_uuid_text_shape(v);
    lemma_three_segments(RouteView::ValidateEmail(v), "email"@, u, "~validate"@);
    assert("email"@.len() != "bookmarks"@.len());
}

/// Reading the address of a page gives the page back (for the e-mail
/// validation page, whatever the UUID parser makes of the UUID's text).
pub proof fn law_recognize_path(r: RouteView)
    requires
        has_readable_path(r),
    ensures
        r is ValidateEmail ==> spec_recognize(spec_path(r)) == match uuid_parsed(
            uuid_text(r->ValidateEmail_0),
        ) {
            Some(w) => RouteView::ValidateEmail(w),
            None => RouteView::NotFound,
        },
        !(r is ValidateEmail) ==> spec_recognize(spec_path(r)) == r,
{
    match r {
        RouteView::Index => lemma_reads_index(),
        RouteView::Bookmarks => lemma_reads_bookmarks(),
        RouteView::TagCloud => lemma_reads_tag_cloud(),
        RouteView::Tools => lemma_reads_tools(),
        RouteView::SignupForm => lemma_reads_signup_form(),
        RouteView::Login => lemma_reads_login(),
        RouteView::RecoverPasswordStart => lemma_reads_recover_password_start(),
        RouteView::Profile => lemma_reads_profile(),
        RouteView::Logout => lemma_reads_logout(),
        RouteView::NotFound => lemma_reads_not_found(),
        RouteView::AddBookmark => lemma_reads_add_bookmark(),
        RouteView::ToolImportShaarliApi => lemma_reads_tool_import(),
        RouteView::SignupSuccess => lemma_reads_signup_success(),
        RouteView::RecoverPasswordForm(id) => lemma_reads_recover_form(id),
        RouteView::ViewBookmark(id) => lemma_reads_view_bookmark(id),
        RouteView::DeleteBookmark(id) => lemma_reads_delete_bookmark(id),
        RouteView::EditBookmark(id) => lemma_reads_edit_bookmark(id),
        RouteView::ValidateEmail(v) => lemma_reads_validate_email(v),
    }
}

} // verus!
