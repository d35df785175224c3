//! One connection as a state machine.
//!
//! The machine makes every decision of a connection and does none of its
//! work: it tells its caller what to do next (read the socket, ask the file
//! store, send the response, close), and the caller reports what came of it.
//! A connection starts with `open`, and each report goes to `step`, until the
//! action is `Close`. Parsing, routing and building the response happen
//! inside one step: nothing is waited for between them.
use crate::request::{spec_parse_bytes, ParseError, Request, RequestView};
use crate::response::{build_response, spec_build_response, ResponseType};
use crate::router::{find_header, route, spec_find_header, spec_route, Route, RouteView};
use crate::text::pairs;
use vstd::prelude::*;
use vstd::string::StringExecFns;

verus! {

/// The number of bytes that the one read of a connection asks for.
pub const BUFFER_SIZE: usize = 512;

/// How a connection ended.
#[derive(Clone, Copy, Debug, PartialEq, Eq, Structural)]
pub enum Outcome {
    /// The response was sent.
    Served,
    /// The peer closed the connection before it sent a byte.
    ConnectionClosed,
    /// The socket could not be read.
    ReadError,
    /// The request could not be parsed.
    MalformedRequest(ParseError),
    /// A handler lacked what it needs: an upload came without a body.
    HandlerPrecondition,
    /// The file store failed.
    FileIOError,
    /// The response could not be sent.
    WriteError,
    /// A report came that answers no action of this connection.
    Unexpected,
}

/// What a connection that has been routed to the file store waits for.
#[derive(Clone, Copy, Debug, PartialEq, Eq, Structural)]
pub enum Stage {
    /// Whether the file exists.
    Probing,
    /// The contents of the file.
    Fetching,
    /// The end of the write.
    Storing,
}

/// The state of a connection.
#[derive(Debug, PartialEq, Eq)]
pub enum Connection {
    /// Waiting for the bytes of the request.
    Reading,
    /// The request is parsed and routed, and its handler waits for the file
    /// store to answer about `path`.
    Routed { request: Request, path: String, stage: Stage },
    /// The response is built and being sent.
    Writing,
    /// Nothing more happens on this connection.
    Closed,
}

/// What the caller reports to the machine.
#[derive(Debug, PartialEq, Eq)]
pub enum Event {
    /// The read returned these bytes; none, where the peer closed.
    Received(Vec<u8>),
    /// The read failed.
    ReadFailed,
    /// Whether the file exists.
    Exists(bool),
    /// The contents of the file.
    Contents(String),
    /// The file was written.
    Stored,
    /// The file store failed.
    StoreFailed,
    /// The response was sent.
    Sent,
    /// The response could not be sent.
    SendFailed,
}

/// What the machine asks its caller to do.
#[derive(Debug, PartialEq, Eq)]
pub enum Action {
    /// Read the socket once, for at most this many bytes.
    Receive(usize),
    /// Say whether a file exists at this path.
    Probe(String),
    /// Read the whole file at this path.
    Fetch(String),
    /// Write the second text to the file at the path that the first gives,
    /// in place of what the file held.
    Store(String, String),
    /// Send this response.
    Send(String),
    /// Close the connection.
    Close(Outcome),
}

/// A state as mathematical data.
pub enum ConnectionView {
    Reading,
    Routed { request: RequestView, path: Seq<char>, stage: Stage },
    Writing,
    Closed,
}

/// A report as mathematical data.
pub enum EventView {
    Received(Seq<u8>),
    ReadFailed,
    Exists(bool),
    Contents(Seq<char>),
    Stored,
    StoreFailed,
    Sent,
    SendFailed,
}

/// An action as mathematical data.
pub enum ActionView {
    Receive(nat),
    Probe(Seq<char>),
    Fetch(Seq<char>),
    Store(Seq<char>, Seq<char>),
    Send(Seq<char>),
    Close(Outcome),
}

impl View for Connection {
    type V = ConnectionView;

    open spec fn view(&self) -> ConnectionView {
        match self {
            Connection::Reading => ConnectionView::Reading,
            Connection::Routed { request, path, stage } => ConnectionView::Routed {
                request: request@,
                path: path@,
                stage: *stage,
            },
            Connection::Writing => ConnectionView::Writing,
            Connection::Closed => ConnectionView::Closed,
        }
    }
}

impl View for Event {
    type V = EventView;

    open spec fn view(&self) -> EventView {
        match self {
            Event::Received(bytes) => EventView::Received(bytes@),
            Event::ReadFailed => EventView::ReadFailed,
            Event::Exists(found) => EventView::Exists(*found),
            Event::Contents(text) => EventView::Contents(text@),
            Event::Stored => EventView::Stored,
            Event::StoreFailed => EventView::StoreFailed,
            Event::Sent => EventView::Sent,
            Event::SendFailed => EventView::SendFailed,
        }
    }
}

impl View for Action {
    type V = ActionView;

    open spec fn view(&self) -> ActionView {
        match self {
            Action::Receive(limit) => ActionView::Receive(*limit as nat),
            Action::Probe(path) => ActionView::Probe(path@),
            Action::Fetch(path) => ActionView::Fetch(path@),
            Action::Store(path, contents) => ActionView::Store(path@, contents@),
            Action::Send(response) => ActionView::Send(response@),
            Action::Close(outcome) => ActionView::Close(*outcome),
        }
    }
}

/// The connection ends with `outcome`.
pub open spec fn spec_close(outcome: Outcome) -> (ConnectionView, ActionView) {
    (ConnectionView::Closed, ActionView::Close(outcome))
}

/// The connection sends `response`.
pub open spec fn spec_send(response: Seq<char>) -> (ConnectionView, ActionView) {
    (ConnectionView::Writing, ActionView::Send(response))
}

/// The one header that a download adds to its response.
pub open spec fn download_headers() -> Seq<(Seq<char>, Seq<char>)> {
    seq![("Content-Type"@, "application/octet-stream"@)]
}

/// What the router does with a parsed request: the handler that
/// `spec_route` names either answers at once or turns to the file store,
/// at the path that `base_dir` and the name in the request give together.
pub open spec fn spec_dispatch(request: RequestView, base_dir: Seq<char>) -> (
    ConnectionView,
    ActionView,
) {
    match spec_route(request.method, request.path) {
        RouteView::Echo(value) => spec_send(
            spec_build_response(request, ResponseType::Success, Some(value), Seq::empty()),
        ),
        RouteView::UserAgent => match spec_find_header(request.headers, "user-agent"@) {
            Some(agent) => spec_send(
                spec_build_response(request, ResponseType::Success, Some(agent), Seq::empty()),
            ),
            None => spec_send(
                spec_build_response(request, ResponseType::Error, None, Seq::empty()),
            ),
        },
        RouteView::Upload(name) => match request.body {
            Some(body) => (
                ConnectionView::Routed { request, path: base_dir + name, stage: Stage::Storing },
                ActionView::Store(base_dir + name, body),
            ),
            None => spec_close(Outcome::HandlerPrecondition),
        },
        RouteView::Download(name) => (
            ConnectionView::Routed { request, path: base_dir + name, stage: Stage::Probing },
            ActionView::Probe(base_dir + name),
        ),
        RouteView::Home => spec_send(
            spec_build_response(
                request,
                ResponseType::Success,
                Some("Welcome to the home page!"@),
                Seq::empty(),
            ),
        ),
        RouteView::NotFound => spec_send(
            spec_build_response(request, ResponseType::NotFound, None, Seq::empty()),
        ),
    }
}

/// What a connection in `state` does when `event` is reported: its next
/// state, and what its caller is to do.
pub open spec fn spec_step(state: ConnectionView, event: EventView, base_dir: Seq<char>) -> (
    ConnectionView,
    ActionView,
) {
    match state {
        ConnectionView::Reading => match event {
            EventView::Received(bytes) => if bytes.len() == 0 {
                spec_close(Outcome::ConnectionClosed)
            } else {
                match spec_parse_bytes(bytes) {
                    Ok(request) => spec_dispatch(request, base_dir),
                    Err(e) => spec_close(Outcome::MalformedRequest(e)),
                }
            },
            EventView::ReadFailed => spec_close(Outcome::ReadError),
            _ => spec_close(Outcome::Unexpected),
        },
        ConnectionView::Routed { request, path, stage } => match (stage, event) {
            (Stage::Probing, EventView::Exists(true)) => (
                ConnectionView::Routed { request, path, stage: Stage::Fetching },
                ActionView::Fetch(path),
            ),
            (Stage::Probing, EventView::Exists(false)) => spec_send(
                spec_build_response(request, ResponseType::NotFound, None, Seq::empty()),
            ),
            (Stage::Fetching, EventView::Contents(text)) => spec_send(
                spec_build_response(
                    request,
                    ResponseType::Success,
                    Some(text),
                    download_headers(),
                ),
            ),
            (Stage::Storing, EventView::Stored) => spec_send(
                spec_build_response(request, ResponseType::Created, None, Seq::empty()),
            ),
            (_, EventView::StoreFailed) => spec_close(Outcome::FileIOError),
            _ => spec_close(Outcome::Unexpected),
        },
        ConnectionView::Writing => match event {
            EventView::Sent => spec_close(Outcome::Served),
            EventView::SendFailed => spec_close(Outcome::WriteError),
            _ => spec_close(Outcome::Unexpected),
        },
        ConnectionView::Closed => spec_close(Outcome::Unexpected),
    }
}

/// The connection ends with `outcome`.
fn close(outcome: Outcome) -> (r: (Connection, Action))
    ensures
        (r.0@, r.1@) == spec_close(outcome),
{
    (Connection::Closed, Action::Close(outcome))
}

/// The connection sends the response of the given kind to `request`.
fn reply(
    request: &Request,
    kind: ResponseType,
    body: Option<String>,
    headers: Option<Vec<(String, String)>>,
) -> (r: (Connection, Action))
    ensures
        (r.0@, r.1@) == spec_send(
            spec_build_response(
                request@,
                kind,
                crate::request::text_of(body),
                crate::response::headers_of(headers),
            ),
        ),
{
    (Connection::Writing, Action::Send(build_response(request, kind, body, headers)))
}

/// `base_dir` and `name`, one after the other.
fn path_of(base_dir: &str, name: &str) -> (r: String)
    ensures
        r@ == base_dir@ + name@,
{
    let mut path = base_dir.to_owned();
    path.append(name);
    path
}

/// A connection at its start, and its first action: the one read.
pub fn open() -> (r: (Connection, Action))
    ensures
        r.0@ == ConnectionView::Reading,
        r.1@ == ActionView::Receive(BUFFER_SIZE as nat),
{
    (Connection::Reading, Action::Receive(BUFFER_SIZE))
}

/// Routes a parsed request and runs its handler as far as it goes without
/// the file store.
pub fn dispatch(request: Request, base_dir: &str) -> (r: (Connection, Action))
    ensures
        (r.0@, r.1@) == spec_dispatch(request@, base_dir@),
{
    match route(&request) {
        Route::Echo(value) => reply(&request, ResponseType::Success, Some(value), None),
        Route::UserAgent => {
            let agent = match find_header(&request, "user-agent") {
                Some(agent) => Some(agent.clone()),
                None => None,
            };
            match agent {
                Some(agent) => reply(&request, ResponseType::Success, Some(agent), None),
                None => reply(&request, ResponseType::Error, None, None),
            }
        },
        Route::Upload(name) => {
            let body = match &request.body {
                Some(body) => Some(body.clone()),
                None => None,
            };
            match body {
                Some(body) => {
                    let path = path_of(base_dir, name.as_str());
                    let target = path.clone();
                    (
                        Connection::Routed { request, path, stage: Stage::Storing },
                        Action::Store(target, body),
                    )
                },
                None => close(Outcome::HandlerPrecondition),
            }
        },
        Route::Download(name) => {
            let path = path_of(base_dir, name.as_str());
            let target = path.clone();
            (Connection::Routed { request, path, stage: Stage::Probing }, Action::Probe(target))
        },
        Route::Home => reply(
            &request,
            ResponseType::Success,
            Some("Welcome to the home page!".to_owned()),
            None,
        ),
        Route::NotFound => reply(&request, ResponseType::NotFound, None, None),
    }
}

/// Takes a connection in `state` one step on, on the report `event`.
pub fn step(state: Connection, event: Event, base_dir: &str) -> (r: (Connection, Action))
    ensures
        (r.0@, r.1@) == spec_step(state@, event@, base_dir@),
{
    match state {
        Connection::Reading => match event {
            Event::Received(bytes) => {
                if bytes.len() == 0 {
                    return close(Outcome::ConnectionClosed);
                }
                match Request::from_bytes(bytes.as_slice()) {
                    Ok(request) => dispatch(request, base_dir),
                    Err(e) => close(Outcome::MalformedRequest(e)),
                }
            },
            Event::ReadFailed => close(Outcome::ReadError),
            _ => close(Outcome::Unexpected),
        },
        Connection::Routed { request, path, stage } => match event {
            Event::Exists(found) => match stage {
                Stage::Probing => if found {
                    let target = path.clone();
                    (
                        Connection::Routed { request, path, stage: Stage::Fetching },
                        Action::Fetch(target),
                    )
                } else {
                    reply(&request, ResponseType::NotFound, None, None)
                },
                _ => close(Outcome::Unexpected),
            },
            Event::Contents(text) => match stage {
                Stage::Fetching => {
                    let headers = vec![
                        ("Content-Type".to_owned(), "application/octet-stream".to_owned()),
                    ];
                    assert(pairs(headers@) =~= download_headers());
                    reply(&request, ResponseType::Success, Some(text), Some(headers))
                },
                _ => close(Outcome::Unexpected),
            },
            Event::Stored => match stage {
                Stage::Storing => reply(&request, ResponseType::Created, None, None),
                _ => close(Outcome::Unexpected),
            },
            Event::StoreFailed => close(Outcome::FileIOError),
            _ => close(Outcome::Unexpected),
        },
        Connection::Writing => match event {
            Event::Sent => close(Outcome::Served),
            Event::SendFailed => close(Outcome::WriteError),
            _ => close(Outcome::Unexpected),
        },
        Connection::Closed => close(Outcome::Unexpected),
    }
}

/// The file store as mathematical data: the contents of each file that
/// exists, by its path.
pub type Files = Map<Seq<char>, Seq<char>>;

/// What a caller that does as it is asked reports for `action`, on a socket
/// that takes every response and a file store that holds `files`; and what
/// the file store holds afterwards.
pub open spec fn spec_perform(action: ActionView, files: Files) -> (EventView, Files) {
    match action {
        ActionView::Probe(path) => (EventView::Exists(files.contains_key(path)), files),
        ActionView::Fetch(path) => if files.contains_key(path) {
            (EventView::Contents(files[path]), files)
        } else {
            (EventView::StoreFailed, files)
        },
        ActionView::Store(path, contents) => (EventView::Stored, files.insert(path, contents)),
        ActionView::Send(response) => (EventView::Sent, files),
        ActionView::Receive(limit) => (EventView::ReadFailed, files),
        ActionView::Close(outcome) => (EventView::Sent, files),
    }
}

/// How a connection went: the response that was sent, if any; what the
/// file store holds at its end; and how it ended, if it did.
pub struct Served {
    pub response: Option<Seq<char>>,
    pub files: Files,
    pub outcome: Option<Outcome>,
}

/// The connection in `state`, asked to do `action`, taken on by `spec_step`
/// and `spec_perform` in turn until it closes, for at most `steps` steps.
pub open spec fn spec_run(
    state: ConnectionView,
    action: ActionView,
    base_dir: Seq<char>,
    files: Files,
    response: Option<Seq<char>>,
    steps: nat,
) -> Served
    decreases steps,
{
    match action {
        ActionView::Close(outcome) => Served { response, files, outcome: Some(outcome) },
        _ => if steps == 0 {
            Served { response, files, outcome: None }
        } else {
            let done = spec_perform(action, files);
            let next = spec_step(state, done.0, base_dir);
            let sent = match action {
                ActionView::Send(r) => Some(r),
                _ => response,
            };
            spec_run(next.0, next.1, base_dir, done.1, sent, (steps - 1) as nat)
        },
    }
}

/// One whole connection on which `bytes` were read, with a file store that
/// holds `files`.
pub open spec fn spec_serve(bytes: Seq<u8>, base_dir: Seq<char>, files: Files) -> Served {
    let first = spec_step(ConnectionView::Reading, EventView::Received(bytes), base_dir);
    spec_run(first.0, first.1, base_dir, files, None, 4)
}

/// Every connection closes within the steps that `spec_serve` allows.
pub proof fn law_serve_closes(bytes: Seq<u8>, base_dir: Seq<char>, files: Files)
    ensures
        spec_serve(bytes, base_dir, files).outcome is Some,
{
    reveal_with_fuel(spec_run, 5);
}

/// A request that is no upload leaves the file store as it was.
pub proof fn law_only_uploads_write(bytes: Seq<u8>, base_dir: Seq<char>, files: Files)
    requires
        spec_parse_bytes(bytes) matches Ok(request) ==> !(spec_route(
            request.method,
            request.path,
        ) is Upload),
    ensures
        spec_serve(bytes, base_dir, files).files == files,
{
    reveal_with_fuel(spec_run, 5);
}

/// The same `GET` twice gives the same response: the first leaves the file
/// store as it was, and the second, served from what the first left, sends
/// what the first sent.
pub proof fn law_get_twice(bytes: Seq<u8>, base_dir: Seq<char>, files: Files)
    requires
        spec_parse_bytes(bytes) matches Ok(request) && request.method == "GET"@,
    ensures
        spec_serve(bytes, base_dir, files).files == files,
        spec_serve(bytes, base_dir, spec_serve(bytes, base_dir, files).files) == spec_serve(
            bytes,
            base_dir,
            files,
        ),
{
    reveal_strlit("GET");
    reveal_strlit("POST");
    law_only_uploads_write(bytes, base_dir, files);
}

/// A download gives what was uploaded. After `POST /files/<name>` with a
/// body, answered with `Created` and no body, `GET /files/<name>` is
/// answered with `Success`, that body, and the content type of a download.
pub proof fn law_download_after_upload(
    post: Seq<u8>,
    get: Seq<u8>,
    base_dir: Seq<char>,
    files: Files,
)
    requires
        post.len() > 0,
        get.len() > 0,
        spec_parse_bytes(post) is Ok,
        spec_parse_bytes(get) is Ok,
        spec_parse_bytes(post)->Ok_0.body is Some,
        spec_route(spec_parse_bytes(post)->Ok_0.method, spec_parse_bytes(post)->Ok_0.path)
            is Upload,
        spec_route(spec_parse_bytes(get)->Ok_0.method, spec_parse_bytes(get)->Ok_0.path)
            == RouteView::Download(
            spec_route(
                spec_parse_bytes(post)->Ok_0.method,
                spec_parse_bytes(post)->Ok_0.path,
            )->Upload_0,
        ),
    ensures
        spec_serve(post, base_dir, files).response == Some(
            spec_build_response(
                spec_parse_bytes(post)->Ok_0,
                ResponseType::Created,
                None,
                Seq::empty(),
            ),
        ),
        spec_serve(get, base_dir, spec_serve(post, base_dir, files).files).response == Some(
            spec_build_response(
                spec_parse_bytes(get)->Ok_0,
                ResponseType::Success,
                spec_parse_bytes(post)->Ok_0.body,
                download_headers(),
            ),
        ),
{
    reveal_with_fuel(spec_run, 5);
}

} // verus!
