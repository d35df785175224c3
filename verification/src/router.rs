//! The router: which handler answers a request.
use crate::request::Request;
use crate::text::{chars_of, has_prefix, pairs, same_text, spec_has_prefix, string_of};
use vstd::prelude::*;

verus! {

/// The handlers, each with what it needs from the path.
#[derive(Debug, PartialEq, Eq)]
pub enum Route {
    /// `/echo/<value>`: answers with the value.
    Echo(String),
    /// `/user-agent`: answers with the client's `User-Agent` header.
    UserAgent,
    /// `POST /files/<name>`: stores the body under the name.
    Upload(String),
    /// `GET /files/<name>`: answers with what is stored under the name.
    Download(String),
    /// `/`: answers with the welcome text.
    Home,
    /// Anything else.
    NotFound,
}

/// A route as mathematical data.
pub enum RouteView {
    Echo(Seq<char>),
    UserAgent,
    Upload(Seq<char>),
    Download(Seq<char>),
    Home,
    NotFound,
}

impl View for Route {
    type V = RouteView;

    open spec fn view(&self) -> RouteView {
        match self {
            Route::Echo(value) => RouteView::Echo(value@),
            Route::UserAgent => RouteView::UserAgent,
            Route::Upload(name) => RouteView::Upload(name@),
            Route::Download(name) => RouteView::Download(name@),
            Route::Home => RouteView::Home,
            Route::NotFound => RouteView::NotFound,
        }
    }
}

/// What follows `prefix` in `s`.
pub open spec fn after_prefix(s: Seq<char>, prefix: Seq<char>) -> Seq<char> {
    s.skip(prefix.len() as int)
}

/// The handler for a method and a path. The first of these that fits wins:
/// a path that starts with `/echo/`; one that starts with `/user-agent`; one
/// that starts with `/files/`, by the method; the path `/`.
pub open spec fn spec_route(method: Seq<char>, path: Seq<char>) -> RouteView {
    if spec_has_prefix(path, "/echo/"@) {
        RouteView::Echo(after_prefix(path, "/echo/"@))
    } else if spec_has_prefix(path, "/user-agent"@) {
        RouteView::UserAgent
    } else if spec_has_prefix(path, "/files/"@) {
        if method == "POST"@ {
            RouteView::Upload(after_prefix(path, "/files/"@))
        } else if method == "GET"@ {
            RouteView::Download(after_prefix(path, "/files/"@))
        } else {
            RouteView::NotFound
        }
    } else if path == "/"@ {
        RouteView::Home
    } else {
        RouteView::NotFound
    }
}

/// The handler for a request.
pub fn route(request: &Request) -> (r: Route)
    ensures
        r@ == spec_route(request@.method, request@.path),
{
    let path = chars_of(request.path.as_str());
    let echo = chars_of("/echo/");
    let user_agent = chars_of("/user-agent");
    let files = chars_of("/files/");
    if has_prefix(&path, &echo) {
        Route::Echo(string_of(&path, echo.len(), path.len()))
    } else if has_prefix(&path, &user_agent) {
        Route::UserAgent
    } else if has_prefix(&path, &files) {
        if same_text(request.method.as_str(), "POST") {
            Route::Upload(string_of(&path, files.len(), path.len()))
        } else if same_text(request.method.as_str(), "GET") {
            Route::Download(string_of(&path, files.len(), path.len()))
        } else {
            Route::NotFound
        }
    } else if same_text(request.path.as_str(), "/") {
        Route::Home
    } else {
        Route::NotFound
    }
}

/// The value of the first of `headers` that is named `name`.
pub open spec fn spec_find_header(
    headers: Seq<(Seq<char>, Seq<char>)>,
    name: Seq<char>,
) -> Option<Seq<char>>
    decreases headers.len(),
{
    if headers.len() == 0 {
        None
    } else if headers[0].0 == name {
        Some(headers[0].1)
    } else {
        spec_find_header(headers.drop_first(), name)
    }
}

/// The value of the first header of `request` that is named `name`. The
/// names of a parsed request are in lower case, so `name` is given in lower
/// case.
pub fn find_header<'a>(request: &'a Request, name: &str) -> (r: Option<&'a String>)
    ensures
        spec_find_header(request@.headers, name@) == match r {
            Some(value) => Some(value@),
            None => None,
        },
{
    let ghost all = pairs(request.headers@);
    let mut i: usize = 0;
    assert(all.skip(0) =~= all);
    while i < request.headers.len()
        invariant
            i <= request.headers.len(),
            all == pairs(request.headers@),
            spec_find_header(all.skip(i as int), name@) == spec_find_header(all, name@),
        decreases request.headers.len() - i,
    {
        let header = &request.headers[i];
        assert(all.skip(i as int)[0] == (header.0@, header.1@));
        assert(all.skip(i as int).drop_first() =~= all.skip(i + 1));
        if same_text(header.0.as_str(), name) {
            return Some(&header.1);
        }
        i += 1;
    }
    None
}

} // verus!
