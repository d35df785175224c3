use http_server::connection::{dispatch, open, step, Action, Connection, Event, Outcome, Stage, BUFFER_SIZE};
use http_server::request::{ParseError, Request};
use http_server::router::{find_header, route, Route};

fn received(text: &str) -> Event {
    Event::Received(text.as_bytes().to_vec())
}

fn first_step(text: &str, base_dir: &str) -> (Connection, Action) {
    let (state, action) = open();
    assert_eq!(action, Action::Receive(512));
    step(state, received(text), base_dir)
}

fn sends(text: &str) -> String {
    match first_step(text, "") {
        (Connection::Writing, Action::Send(response)) => response,
        other => panic!("no response: {:?}", other),
    }
}

#[test]
fn a_connection_starts_by_reading_once() {
    assert_eq!(BUFFER_SIZE, 512);
    assert_eq!(open(), (Connection::Reading, Action::Receive(512)));
}

#[test]
fn echo_answers_with_the_rest_of_the_path() {
    assert_eq!(
        sends("GET /echo/abc123 HTTP/1.1\r\n\r\n"),
        "HTTP/1.1 200 OK\r\nContent-Type: text/plain\r\nContent-Length: 6\r\n\r\nabc123"
    );
    assert_eq!(
        sends("GET /echo/a/b/c HTTP/1.1\r\n\r\n"),
        "HTTP/1.1 200 OK\r\nContent-Type: text/plain\r\nContent-Length: 5\r\n\r\na/b/c"
    );
    assert_eq!(
        sends("DELETE /echo/ HTTP/1.1\r\n\r\n"),
        "HTTP/1.1 200 OK\r\nContent-Type: text/plain\r\nContent-Length: 0\r\n\r\n"
    );
}

#[test]
fn home_answers_with_the_welcome_text() {
    let response = sends("GET / HTTP/1.1\r\nHost: localhost:4221\r\n\r\n");
    assert_eq!(
        response,
        "HTTP/1.1 200 OK\r\nContent-Type: text/plain\r\nContent-Length: 25\r\n\r\nWelcome to the home page!"
    );
    assert_eq!("Welcome to the home page!".len(), 25);
}

#[test]
fn unknown_paths_are_not_found() {
    assert_eq!(sends("GET /does-not-exist HTTP/1.1\r\n\r\n"), "HTTP/1.1 404 Not Found\r\n\r\n");
    assert_eq!(sends("GET /echo HTTP/1.1\r\n\r\n"), "HTTP/1.1 404 Not Found\r\n\r\n");
    assert_eq!(sends("GET /files HTTP/1.1\r\n\r\n"), "HTTP/1.1 404 Not Found\r\n\r\n");
    assert_eq!(sends("GET //  HTTP/1.1\r\n\r\n"), "HTTP/1.1 404 Not Found\r\n\r\n");
}

#[test]
fn user_agent_is_echoed() {
    assert_eq!(
        sends("GET /user-agent HTTP/1.1\r\nHost: x\r\nUser-Agent: curl/7.83.1\r\n\r\n"),
        "HTTP/1.1 200 OK\r\nContent-Type: text/plain\r\nContent-Length: 11\r\n\r\ncurl/7.83.1"
    );
    assert_eq!(
        sends("POST /user-agent/more HTTP/1.1\r\nUSER-AGENT: first\r\nUser-Agent: second\r\n\r\n"),
        "HTTP/1.1 200 OK\r\nContent-Type: text/plain\r\nContent-Length: 5\r\n\r\nfirst"
    );
}

#[test]
fn user_agent_missing_is_a_server_error() {
    assert_eq!(
        sends("GET /user-agent HTTP/1.1\r\nHost: x\r\n\r\n"),
        "HTTP/1.1 500 Internal Server Error\r\n\r\n"
    );
}

#[test]
fn files_with_another_method_are_not_found() {
    assert_eq!(sends("DELETE /files/a.txt HTTP/1.1\r\n\r\n"), "HTTP/1.1 404 Not Found\r\n\r\n");
    assert_eq!(sends("get /files/a.txt HTTP/1.1\r\n\r\n"), "HTTP/1.1 404 Not Found\r\n\r\n");
}

#[test]
fn upload_then_download() {
    let post = "POST /files/test.txt HTTP/1.1\r\nContent-Length: 5\r\n\r\nhello";
    let (state, action) = first_step(post, "/tmp/data/");
    let stored = match action {
        Action::Store(path, contents) => {
            assert_eq!(path, "/tmp/data/test.txt");
            contents
        }
        other => panic!("no write: {:?}", other),
    };
    assert_eq!(stored, "hello");
    let (state, action) = step(state, Event::Stored, "/tmp/data/");
    assert_eq!(state, Connection::Writing);
    assert_eq!(action, Action::Send("HTTP/1.1 201 Created\r\n\r\n".to_string()));
    assert_eq!(step(state, Event::Sent, "/tmp/data/"), (Connection::Closed, Action::Close(Outcome::Served)));

    let get = "GET /files/test.txt HTTP/1.1\r\n\r\n";
    let (state, action) = first_step(get, "/tmp/data/");
    assert_eq!(action, Action::Probe("/tmp/data/test.txt".to_string()));
    let (state, action) = step(state, Event::Exists(true), "/tmp/data/");
    assert_eq!(action, Action::Fetch("/tmp/data/test.txt".to_string()));
    let (state, action) = step(state, Event::Contents(stored), "/tmp/data/");
    assert_eq!(state, Connection::Writing);
    assert_eq!(
        action,
        Action::Send(
            "HTTP/1.1 200 OK\r\nContent-Type: application/octet-stream\r\nContent-Length: 5\r\n\r\nhello"
                .to_string()
        )
    );
    assert_eq!(step(state, Event::Sent, "/tmp/data/"), (Connection::Closed, Action::Close(Outcome::Served)));
}

#[test]
fn download_of_a_missing_file_is_not_found() {
    let (state, action) = first_step("GET /files/none HTTP/1.1\r\n\r\n", "dir/");
    assert_eq!(action, Action::Probe("dir/none".to_string()));
    assert_eq!(
        step(state, Event::Exists(false), "dir/"),
        (Connection::Writing, Action::Send("HTTP/1.1 404 Not Found\r\n\r\n".to_string()))
    );
}

#[test]
fn the_routed_state_keeps_request_and_path() {
    let text = "GET /files/../x HTTP/1.1\r\nAccept-Encoding: gzip\r\n\r\n";
    let (state, _) = first_step(text, "");
    assert_eq!(
        state,
        Connection::Routed {
            request: Request::new(text).unwrap(),
            path: "../x".to_string(),
            stage: Stage::Probing
        }
    );
    let (state, _) = step(state, Event::Exists(true), "");
    assert_eq!(
        step(state, Event::Contents("é".to_string()), ""),
        (
            Connection::Writing,
            Action::Send(
                "HTTP/1.1 200 OK\r\nContent-Encoding: gzip\r\nContent-Type: application/octet-stream\r\nContent-Length: 2\r\n\r\né"
                    .to_string()
            )
        )
    );
}

#[test]
fn the_same_get_twice_gives_the_same_bytes() {
    for text in [
        "GET / HTTP/1.1\r\n\r\n",
        "GET /echo/abc HTTP/1.1\r\nAccept-Encoding: gzip, br\r\n\r\n",
        "GET /user-agent HTTP/1.1\r\nUser-Agent: a\r\n\r\n",
        "GET /nothing HTTP/1.1\r\n\r\n",
    ] {
        assert_eq!(sends(text).as_bytes(), sends(text).as_bytes());
    }
    let download = |contents: &str| {
        let (state, _) = first_step("GET /files/f HTTP/1.1\r\n\r\n", "d/");
        let (state, _) = step(state, Event::Exists(true), "d/");
        step(state, Event::Contents(contents.to_string()), "d/")
    };
    assert_eq!(download("same"), download("same"));
    assert_ne!(download("same"), download("other"));
}

#[test]
fn no_bytes_mean_that_the_peer_closed() {
    assert_eq!(
        step(Connection::Reading, Event::Received(vec![]), ""),
        (Connection::Closed, Action::Close(Outcome::ConnectionClosed))
    );
}

#[test]
fn a_failed_read_closes() {
    assert_eq!(
        step(Connection::Reading, Event::ReadFailed, ""),
        (Connection::Closed, Action::Close(Outcome::ReadError))
    );
}

#[test]
fn a_malformed_request_gets_no_response() {
    assert_eq!(
        first_step("GET / HTTP/1.1\r\nBroken\r\n\r\n", ""),
        (Connection::Closed, Action::Close(Outcome::MalformedRequest(ParseError::MalformedHeader)))
    );
    assert_eq!(
        first_step("GET", ""),
        (Connection::Closed, Action::Close(Outcome::MalformedRequest(ParseError::MissingPath)))
    );
    assert_eq!(
        first_step("\r\n", ""),
        (Connection::Closed, Action::Close(Outcome::MalformedRequest(ParseError::MissingMethod)))
    );
    assert_eq!(
        step(Connection::Reading, Event::Received(vec![0x47, 0x80]), ""),
        (Connection::Closed, Action::Close(Outcome::MalformedRequest(ParseError::InvalidEncoding)))
    );
}

#[test]
fn padding_after_the_request_is_ignored() {
    let mut buffer = "GET /echo/pad HTTP/1.1\r\n\r\n".as_bytes().to_vec();
    buffer.resize(512, 0);
    assert_eq!(
        step(Connection::Reading, Event::Received(buffer), ""),
        (
            Connection::Writing,
            Action::Send(
                "HTTP/1.1 200 OK\r\nContent-Type: text/plain\r\nContent-Length: 3\r\n\r\npad".to_string()
            )
        )
    );
}

#[test]
fn an_upload_without_body_closes() {
    assert_eq!(
        first_step("POST /files/a HTTP/1.1\r\nHost: x\r\n", "d/"),
        (Connection::Closed, Action::Close(Outcome::HandlerPrecondition))
    );
}

#[test]
fn an_upload_with_empty_body_writes_an_empty_file() {
    let (_, action) = first_step("POST /files/a HTTP/1.1\r\n\r\n", "d/");
    assert_eq!(action, Action::Store("d/a".to_string(), String::new()));
}

#[test]
fn a_failing_store_closes() {
    let (state, _) = first_step("POST /files/a HTTP/1.1\r\n\r\nx", "d/");
    assert_eq!(
        step(state, Event::StoreFailed, "d/"),
        (Connection::Closed, Action::Close(Outcome::FileIOError))
    );
    let (state, _) = first_step("GET /files/a HTTP/1.1\r\n\r\n", "d/");
    let (state, _) = step(state, Event::Exists(true), "d/");
    assert_eq!(
        step(state, Event::StoreFailed, "d/"),
        (Connection::Closed, Action::Close(Outcome::FileIOError))
    );
}

#[test]
fn a_failed_send_closes() {
    assert_eq!(
        step(Connection::Writing, Event::SendFailed, ""),
        (Connection::Closed, Action::Close(Outcome::WriteError))
    );
    assert_eq!(
        step(Connection::Writing, Event::Sent, ""),
        (Connection::Closed, Action::Close(Outcome::Served))
    );
}

#[test]
fn reports_out_of_turn_close() {
    let unexpected = (Connection::Closed, Action::Close(Outcome::Unexpected));
    assert_eq!(step(Connection::Reading, Event::Sent, ""), unexpected);
    assert_eq!(step(Connection::Reading, Event::Exists(true), ""), unexpected);
    assert_eq!(step(Connection::Writing, received("GET / HTTP/1.1\r\n\r\n"), ""), unexpected);
    assert_eq!(step(Connection::Closed, Event::Sent, ""), unexpected);
    let (state, _) = first_step("GET /files/a HTTP/1.1\r\n\r\n", "");
    assert_eq!(step(state, Event::Stored, ""), unexpected);
    let (state, _) = first_step("GET /files/a HTTP/1.1\r\n\r\n", "");
    assert_eq!(step(state, Event::Contents("x".to_string()), ""), unexpected);
    let (state, _) = first_step("POST /files/a HTTP/1.1\r\n\r\nx", "");
    assert_eq!(step(state, Event::Exists(true), ""), unexpected);
}

#[test]
fn routes_in_order_of_precedence() {
    let of = |line: &str| route(&Request::new(line).unwrap());
    assert_eq!(of("GET /echo/x"), Route::Echo("x".to_string()));
    assert_eq!(of("POST /echo/files/x"), Route::Echo("files/x".to_string()));
    assert_eq!(of("GET /user-agent"), Route::UserAgent);
    assert_eq!(of("GET /user-agents"), Route::UserAgent);
    assert_eq!(of("POST /files/a/b"), Route::Upload("a/b".to_string()));
    assert_eq!(of("GET /files/"), Route::Download(String::new()));
    assert_eq!(of("PUT /files/a"), Route::NotFound);
    assert_eq!(of("GET /"), Route::Home);
    assert_eq!(of("POST /"), Route::Home);
    assert_eq!(of("GET /index.html"), Route::NotFound);
    assert_eq!(of("GET /Echo/x"), Route::NotFound);
}

#[test]
fn find_header_gives_the_first_match() {
    let request = Request::new("GET / HTTP/1.1\r\nA: 1\r\nB: 2\r\nA: 3\r\n\r\n").unwrap();
    assert_eq!(find_header(&request, "a"), Some(&"1".to_string()));
    assert_eq!(find_header(&request, "b"), Some(&"2".to_string()));
    assert_eq!(find_header(&request, "c"), None);
    assert_eq!(find_header(&request, "A"), None);
}

#[test]
fn dispatch_answers_or_turns_to_the_store() {
    let request = Request::new("GET /echo/hi HTTP/1.1\r\n\r\n").unwrap();
    assert_eq!(
        dispatch(request, "base"),
        (
            Connection::Writing,
            Action::Send(
                "HTTP/1.1 200 OK\r\nContent-Type: text/plain\r\nContent-Length: 2\r\n\r\nhi".to_string()
            )
        )
    );
    let request = Request::new("GET /files/f HTTP/1.1\r\n\r\n").unwrap();
    let (_, action) = dispatch(request, "base");
    assert_eq!(action, Action::Probe("basef".to_string()));
}
