use http_server::request::Request;
use http_server::response::{
    build_response, encoding_lines, encoding_tokens, is_recognized, names_content_type, negotiate,
    offers_gzip, push_header_line, render, ResponseType,
};

fn plain_request() -> Request {
    Request::new("GET /echo/hello HTTP/1.1\r\nUser-Agent: curl/7.83.1\r\nAccept: */*\r\n\r\n")
        .unwrap()
}

fn request_accepting(value: &str) -> Request {
    Request::new(&format!("GET / HTTP/1.1\r\nAccept-Encoding: {}\r\n\r\n", value)).unwrap()
}

fn owned(tokens: &[&str]) -> Vec<String> {
    tokens.iter().map(|t| t.to_string()).collect()
}

fn header(name: &str, value: &str) -> (String, String) {
    (name.to_string(), value.to_string())
}

#[test]
fn test_response_ok() {
    let request = Request::new(
        "GET /echo/hello HTTP/1.1\r\nUser-Agent: curl/7.83.1\r\nAccept: */*\r\n\r\n",
    )
    .unwrap();
    let content = "Welcome to the home page!";
    let response =
        build_response(&request, ResponseType::Success, Some(content.to_string()), None);

    // The body ends the response: no line terminator follows it.
    assert_eq!(
        response,
        format!(
            "HTTP/1.1 200 OK\r\nContent-Type: text/plain\r\nContent-Length: {}\r\n\r\n{}",
            content.len().to_string(),
            content
        )
    );
}

#[test]
fn test_response_not_found() {
    let request = Request::new(
        "GET /echo/hello HTTP/1.1\r\nUser-Agent: curl/7.83.1\r\nAccept: */*\r\n\r\n",
    )
    .unwrap();
    let response = build_response(&request, ResponseType::NotFound, None, None);
    assert_eq!(response, "HTTP/1.1 404 Not Found\r\n\r\n");
}

#[test]
fn status_codes_and_lines() {
    assert_eq!(ResponseType::Success.code(), 200);
    assert_eq!(ResponseType::Created.code(), 201);
    assert_eq!(ResponseType::NotFound.code(), 404);
    assert_eq!(ResponseType::Error.code(), 500);
    assert_eq!(ResponseType::Success.status_line(), "HTTP/1.1 200 OK\r\n");
    assert_eq!(ResponseType::Created.status_line(), "HTTP/1.1 201 Created\r\n");
    assert_eq!(ResponseType::NotFound.status_line(), "HTTP/1.1 404 Not Found\r\n");
    assert_eq!(ResponseType::Error.status_line(), "HTTP/1.1 500 Internal Server Error\r\n");
}

#[test]
fn responses_without_body_close_the_header_block_at_once() {
    let request = plain_request();
    assert_eq!(
        build_response(&request, ResponseType::Created, None, None),
        "HTTP/1.1 201 Created\r\n\r\n"
    );
    assert_eq!(
        build_response(&request, ResponseType::Error, None, None),
        "HTTP/1.1 500 Internal Server Error\r\n\r\n"
    );
    assert_eq!(
        build_response(&request, ResponseType::NotFound, None, Some(vec![])),
        "HTTP/1.1 404 Not Found\r\n\r\n"
    );
}

#[test]
fn content_length_counts_bytes() {
    let request = plain_request();
    assert_eq!(
        build_response(&request, ResponseType::Success, Some("héllo €".to_string()), None),
        "HTTP/1.1 200 OK\r\nContent-Type: text/plain\r\nContent-Length: 10\r\n\r\nhéllo €"
    );
    assert_eq!(
        build_response(&request, ResponseType::Success, Some(String::new()), None),
        "HTTP/1.1 200 OK\r\nContent-Type: text/plain\r\nContent-Length: 0\r\n\r\n"
    );
    let long = "x".repeat(1234);
    assert_eq!(
        build_response(&request, ResponseType::Success, Some(long.clone()), None),
        format!("HTTP/1.1 200 OK\r\nContent-Type: text/plain\r\nContent-Length: 1234\r\n\r\n{}", long)
    );
}

#[test]
fn content_length_equals_the_length_of_what_follows_the_blank_line() {
    let request = request_accepting("gzip");
    for body in ["", "a", "abc123", "héllo", "line\r\n\r\nline", "\u{1F600}"] {
        let response =
            build_response(&request, ResponseType::Success, Some(body.to_string()), None);
        let (head, sent) = response.split_once("\r\n\r\n").unwrap();
        let declared = head
            .lines()
            .find_map(|l| l.strip_prefix("Content-Length: "))
            .unwrap()
            .parse::<usize>()
            .unwrap();
        assert_eq!(sent, body);
        assert_eq!(declared, body.len());
    }
}

#[test]
fn explicit_headers_follow_in_the_order_given() {
    let request = plain_request();
    let headers = vec![header("X-One", "1"), header("X-Two", "two words"), header("X-One", "3")];
    assert_eq!(
        build_response(&request, ResponseType::Success, Some("b".to_string()), Some(headers.clone())),
        "HTTP/1.1 200 OK\r\nX-One: 1\r\nX-Two: two words\r\nX-One: 3\r\nContent-Type: text/plain\r\nContent-Length: 1\r\n\r\nb"
    );
    assert_eq!(
        build_response(&request, ResponseType::NotFound, None, Some(headers)),
        "HTTP/1.1 404 Not Found\r\nX-One: 1\r\nX-Two: two words\r\nX-One: 3\r\n\r\n"
    );
}

#[test]
fn explicit_content_type_replaces_the_default() {
    let request = plain_request();
    assert_eq!(
        build_response(
            &request,
            ResponseType::Success,
            Some("hello".to_string()),
            Some(vec![header("Content-Type", "application/octet-stream")])
        ),
        "HTTP/1.1 200 OK\r\nContent-Type: application/octet-stream\r\nContent-Length: 5\r\n\r\nhello"
    );
    assert_eq!(
        build_response(
            &request,
            ResponseType::Success,
            Some("{}".to_string()),
            Some(vec![header("X-A", "1"), header("content-TYPE", "application/json")])
        ),
        "HTTP/1.1 200 OK\r\nX-A: 1\r\ncontent-TYPE: application/json\r\nContent-Length: 2\r\n\r\n{}"
    );
}

#[test]
fn names_content_type_looks_at_names_only() {
    assert!(names_content_type(&vec![header("Content-Type", "a/b")]));
    assert!(names_content_type(&vec![header("X", "y"), header("CONTENT-TYPE", "")]));
    assert!(!names_content_type(&vec![]));
    assert!(!names_content_type(&vec![header("X-Content-Type", "a/b")]));
    assert!(!names_content_type(&vec![header("Accept", "Content-Type")]));
}

#[test]
fn gzip_is_announced() {
    let request = request_accepting("gzip");
    assert_eq!(
        build_response(&request, ResponseType::Success, Some("abc".to_string()), None),
        "HTTP/1.1 200 OK\r\nContent-Encoding: gzip\r\nContent-Type: text/plain\r\nContent-Length: 3\r\n\r\nabc"
    );
    assert_eq!(
        build_response(&request, ResponseType::NotFound, None, None),
        "HTTP/1.1 404 Not Found\r\nContent-Encoding: gzip\r\n\r\n"
    );
}

#[test]
fn every_recognized_encoding_is_announced_in_the_order_asked() {
    assert_eq!(negotiate(&request_accepting("br, identity, gzip ,  deflate")),
        "Content-Encoding: br\r\nContent-Encoding: gzip\r\nContent-Encoding: deflate\r\n");
    assert_eq!(negotiate(&request_accepting("gzip,gzip")),
        "Content-Encoding: gzip\r\nContent-Encoding: gzip\r\n");
    assert_eq!(negotiate(&request_accepting("invalid-1, gzip, invalid-2")),
        "Content-Encoding: gzip\r\n");
}

#[test]
fn nothing_is_announced_without_gzip() {
    assert_eq!(negotiate(&request_accepting("deflate, br")), "");
    assert_eq!(negotiate(&request_accepting("gzipped")), "");
    assert_eq!(negotiate(&request_accepting("gzip;q=1.0")), "");
    assert_eq!(negotiate(&request_accepting("")), "");
    assert_eq!(negotiate(&plain_request()), "");
}

#[test]
fn encodings_are_matched_in_any_case() {
    assert_eq!(negotiate(&request_accepting("GZip, BR")),
        "Content-Encoding: gzip\r\nContent-Encoding: br\r\n");
    let request =
        Request::new("GET / HTTP/1.1\r\nACCEPT-ENCODING: DEFLATE,\tGZIP\r\n\r\n").unwrap();
    assert_eq!(negotiate(&request), "Content-Encoding: deflate\r\nContent-Encoding: gzip\r\n");
}

#[test]
fn the_first_header_that_offers_gzip_decides() {
    let request = Request::new(
        "GET / HTTP/1.1\r\nAccept-Encoding: br\r\nAccept-Encoding: deflate, gzip\r\nAccept-Encoding: gzip\r\n\r\n",
    )
    .unwrap();
    assert_eq!(negotiate(&request), "Content-Encoding: deflate\r\nContent-Encoding: gzip\r\n");
}

#[test]
fn encoding_tokens_are_trimmed_and_lower_cased() {
    assert_eq!(encoding_tokens("gzip"), owned(&["gzip"]));
    assert_eq!(encoding_tokens(" GZIP ,\tBr,,x-É "), owned(&["gzip", "br", "", "x-é"]));
    assert_eq!(encoding_tokens(""), owned(&[""]));
}

#[test]
fn offers_gzip_wants_the_token_itself() {
    assert!(offers_gzip(&owned(&["gzip"])));
    assert!(offers_gzip(&owned(&["br", "gzip"])));
    assert!(!offers_gzip(&owned(&[])));
    assert!(!offers_gzip(&owned(&["GZIP"])));
    assert!(!offers_gzip(&owned(&["gzip ", "deflate"])));
}

#[test]
fn recognized_encodings_are_three() {
    assert!(is_recognized("gzip"));
    assert!(is_recognized("deflate"));
    assert!(is_recognized("br"));
    assert!(!is_recognized("identity"));
    assert!(!is_recognized(""));
    assert!(!is_recognized("Gzip"));
}

#[test]
fn encoding_lines_need_gzip() {
    assert_eq!(
        encoding_lines(&owned(&["deflate", "zstd", "gzip", "br"])),
        "Content-Encoding: deflate\r\nContent-Encoding: gzip\r\nContent-Encoding: br\r\n"
    );
    assert_eq!(encoding_lines(&owned(&["deflate", "br"])), "");
    assert_eq!(encoding_lines(&owned(&[])), "");
}

#[test]
fn render_puts_the_parts_in_order() {
    assert_eq!(
        render(
            ResponseType::Created,
            "Content-Encoding: gzip\r\n",
            &vec![header("Location", "/files/a")],
            Some("ok")
        ),
        "HTTP/1.1 201 Created\r\nContent-Encoding: gzip\r\nLocation: /files/a\r\nContent-Type: text/plain\r\nContent-Length: 2\r\n\r\nok"
    );
    assert_eq!(render(ResponseType::Error, "", &vec![], None), "HTTP/1.1 500 Internal Server Error\r\n\r\n");
}

#[test]
fn header_line_is_name_separator_value_terminator() {
    let mut out = String::from("HTTP/1.1 200 OK\r\n");
    push_header_line(&mut out, "Content-Type", "text/plain");
    assert_eq!(out, "HTTP/1.1 200 OK\r\nContent-Type: text/plain\r\n");
}
