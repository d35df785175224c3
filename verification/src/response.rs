//! The response: status line, negotiated and explicit headers, body framing.
use crate::request::{text_of, Request, RequestView};
use crate::text::{
    chars_of, lemma_decimal_value, lowercase, pairs, push_decimal, same_ignoring_ascii_case,
    same_text, spec_decimal, spec_decimal_value, spec_same_ignoring_ascii_case, spec_split,
    spec_trim, split, texts, to_lowercase, trim,
};
use vstd::prelude::*;
use vstd::string::StringExecFns;
use vstd::utf8::encode_utf8;

verus! {

/// The kinds of response that the server gives.
#[derive(Clone, Copy, Debug, PartialEq, Eq, Structural)]
pub enum ResponseType {
    /// 200.
    Success,
    /// 201.
    Created,
    /// 404.
    NotFound,
    /// 500.
    Error,
}

impl ResponseType {
    /// The status code.
    pub open spec fn spec_code(self) -> nat {
        match self {
            ResponseType::Success => 200,
            ResponseType::Created => 201,
            ResponseType::NotFound => 404,
            ResponseType::Error => 500,
        }
    }

    /// The status code.
    pub fn code(&self) -> (r: u16)
        ensures
            r == self.spec_code(),
    {
        match self {
            ResponseType::Success => 200,
            ResponseType::Created => 201,
            ResponseType::NotFound => 404,
            ResponseType::Error => 500,
        }
    }

    /// The status line, with the line terminator at its end.
    pub open spec fn spec_status_line(self) -> Seq<char> {
        match self {
            ResponseType::Success => "HTTP/1.1 200 OK\r\n"@,
            ResponseType::Created => "HTTP/1.1 201 Created\r\n"@,
            ResponseType::NotFound => "HTTP/1.1 404 Not Found\r\n"@,
            ResponseType::Error => "HTTP/1.1 500 Internal Server Error\r\n"@,
        }
    }

    /// The status line, with the line terminator at its end.
    pub fn status_line(&self) -> (r: &'static str)
        ensures
            r@ == self.spec_status_line(),
    {
        match self {
            ResponseType::Success => "HTTP/1.1 200 OK\r\n",
            ResponseType::Created => "HTTP/1.1 201 Created\r\n",
            ResponseType::NotFound => "HTTP/1.1 404 Not Found\r\n",
            ResponseType::Error => "HTTP/1.1 500 Internal Server Error\r\n",
        }
    }
}

/// The tokens of an `accept-encoding` value: its pieces between commas, each
/// without the white space around it and in lower case.
pub open spec fn spec_encoding_tokens(value: Seq<char>) -> Seq<Seq<char>> {
    let pieces = spec_split(value, ',');
    Seq::new(pieces.len(), |i: int| lowercase(spec_trim(pieces[i])))
}

/// The tokens of an `accept-encoding` value.
pub fn encoding_tokens(value: &str) -> (r: Vec<String>)
    ensures
        texts(r@) == spec_encoding_tokens(value@),
{
    let chars = chars_of(value);
    let pieces = split(&chars, ',');
    let ghost expected = spec_encoding_tokens(value@);
    let mut tokens: Vec<String> = Vec::new();
    let mut i: usize = 0;
    while i < pieces.len()
        invariant
            i <= pieces.len(),
            crate::text::views(pieces@) == spec_split(value@, ','),
            expected == spec_encoding_tokens(value@),
            texts(tokens@) == expected.take(i as int),
        decreases pieces.len() - i,
    {
        let trimmed = trim(&pieces[i]);
        let token = to_lowercase(trimmed.as_str());
        let ghost before = texts(tokens@);
        tokens.push(token);
        assert(texts(tokens@) =~= before.push(expected[i as int]));
        i += 1;
        assert(texts(tokens@) =~= expected.take(i as int));
    }
    assert(expected.take(i as int) =~= expected);
    tokens
}

/// Whether `gzip` is one of the tokens.
pub open spec fn spec_offers_gzip(tokens: Seq<Seq<char>>) -> bool {
    exists|i: int| 0 <= i < tokens.len() && #[trigger] tokens[i] == "gzip"@
}

/// Whether `gzip` is one of the tokens.
pub fn offers_gzip(tokens: &Vec<String>) -> (r: bool)
    ensures
        r == spec_offers_gzip(texts(tokens@)),
{
    let mut i: usize = 0;
    while i < tokens.len()
        invariant
            i <= tokens.len(),
            forall|k: int| 0 <= k < i ==> #[trigger] texts(tokens@)[k] != "gzip"@,
        decreases tokens.len() - i,
    {
        if same_text(tokens[i].as_str(), "gzip") {
            assert(texts(tokens@)[i as int] == "gzip"@);
            return true;
        }
        i += 1;
    }
    false
}

/// Whether `token` names an encoding that the server knows: `gzip`,
/// `deflate` or `br`.
pub open spec fn spec_is_recognized(token: Seq<char>) -> bool {
    token == "gzip"@ || token == "deflate"@ || token == "br"@
}

/// Whether `token` names an encoding that the server knows.
pub fn is_recognized(token: &str) -> (r: bool)
    ensures
        r == spec_is_recognized(token@),
{
    same_text(token, "gzip") || same_text(token, "deflate") || same_text(token, "br")
}

/// One `Content-Encoding` line for each recognized token, in the order of
/// the tokens.
pub open spec fn spec_recognized_lines(tokens: Seq<Seq<char>>) -> Seq<char>
    decreases tokens.len(),
{
    if tokens.len() == 0 {
        Seq::empty()
    } else if spec_is_recognized(tokens.last()) {
        spec_recognized_lines(tokens.drop_last()) + spec_header_line(
            "Content-Encoding"@,
            tokens.last(),
        )
    } else {
        spec_recognized_lines(tokens.drop_last())
    }
}

/// The `Content-Encoding` lines that answer the tokens of one
/// `accept-encoding` value: where `gzip` is among them, one line for each
/// recognized token; else none.
pub open spec fn spec_encoding_lines(tokens: Seq<Seq<char>>) -> Seq<char> {
    if spec_offers_gzip(tokens) {
        spec_recognized_lines(tokens)
    } else {
        Seq::empty()
    }
}

/// The `Content-Encoding` lines that answer the tokens of one
/// `accept-encoding` value.
pub fn encoding_lines(tokens: &Vec<String>) -> (r: String)
    ensures
        r@ == spec_encoding_lines(texts(tokens@)),
{
    let mut out = String::new();
    if !offers_gzip(tokens) {
        return out;
    }
    let ghost all = texts(tokens@);
    let mut i: usize = 0;
    assert(all.take(0) =~= Seq::<Seq<char>>::empty());
    while i < tokens.len()
        invariant
            i <= tokens.len(),
            all == texts(tokens@),
            out@ == spec_recognized_lines(all.take(i as int)),
        decreases tokens.len() - i,
    {
        let token = tokens[i].as_str();
        assert(all.take(i + 1).drop_last() =~= all.take(i as int));
        assert(all.take(i + 1).last() == token@);
        if is_recognized(token) {
            push_header_line(&mut out, "Content-Encoding", token);
        }
        i += 1;
    }
    assert(all.take(i as int) =~= all);
    out
}

/// The `Content-Encoding` lines for a request: those that answer the first
/// `accept-encoding` header among whose tokens `gzip` is.
pub open spec fn spec_negotiate(headers: Seq<(Seq<char>, Seq<char>)>) -> Seq<char>
    decreases headers.len(),
{
    if headers.len() == 0 {
        Seq::empty()
    } else if headers[0].0 == "accept-encoding"@ && spec_offers_gzip(
        spec_encoding_tokens(headers[0].1),
    ) {
        spec_encoding_lines(spec_encoding_tokens(headers[0].1))
    } else {
        spec_negotiate(headers.drop_first())
    }
}

/// The `Content-Encoding` lines for a request.
pub fn negotiate(request: &Request) -> (r: String)
    ensures
        r@ == spec_negotiate(request@.headers),
{
    let ghost all = pairs(request.headers@);
    let mut i: usize = 0;
    assert(all.skip(0) =~= all);
    while i < request.headers.len()
        invariant
            i <= request.headers.len(),
            all == pairs(request.headers@),
            spec_negotiate(all.skip(i as int)) == spec_negotiate(all),
        decreases request.headers.len() - i,
    {
        let header = &request.headers[i];
        assert(all.skip(i as int)[0] == (header.0@, header.1@));
        assert(all.skip(i as int).drop_first() =~= all.skip(i + 1));
        if same_text(header.0.as_str(), "accept-encoding") {
            let tokens = encoding_tokens(header.1.as_str());
            if offers_gzip(&tokens) {
                return encoding_lines(&tokens);
            }
        }
        i += 1;
    }
    String::new()
}

/// One header line: name, `": "`, value, line terminator.
pub open spec fn spec_header_line(name: Seq<char>, value: Seq<char>) -> Seq<char> {
    name + ": "@ + value + "\r\n"@
}

/// Appends one header line to `out`.
pub fn push_header_line(out: &mut String, name: &str, value: &str)
    ensures
        final(out)@ == old(out)@ + spec_header_line(name@, value@),
{
    out.append(name);
    out.append(": ");
    out.append(value);
    out.append("\r\n");
    assert(out@ =~= old(out)@ + spec_header_line(name@, value@));
}

/// The lines of the headers `hs`, in order.
pub open spec fn spec_header_lines(hs: Seq<(Seq<char>, Seq<char>)>) -> Seq<char>
    decreases hs.len(),
{
    if hs.len() == 0 {
        Seq::empty()
    } else {
        spec_header_lines(hs.drop_last()) + spec_header_line(hs.last().0, hs.last().1)
    }
}

/// Whether one of the headers `hs` is named `Content-Type`, in any case of
/// its ASCII letters.
pub open spec fn spec_names_content_type(hs: Seq<(Seq<char>, Seq<char>)>) -> bool {
    exists|i: int|
        0 <= i < hs.len() && spec_same_ignoring_ascii_case((#[trigger] hs[i]).0, "Content-Type"@)
}

/// Whether one of the headers `hs` is named `Content-Type`.
pub fn names_content_type(hs: &Vec<(String, String)>) -> (r: bool)
    ensures
        r == spec_names_content_type(pairs(hs@)),
{
    let wanted = chars_of("Content-Type");
    let mut i: usize = 0;
    while i < hs.len()
        invariant
            i <= hs.len(),
            wanted@ == "Content-Type"@,
            forall|k: int|
                0 <= k < i ==> !spec_same_ignoring_ascii_case(
                    (#[trigger] pairs(hs@)[k]).0,
                    "Content-Type"@,
                ),
        decreases hs.len() - i,
    {
        let name = chars_of(hs[i].0.as_str());
        if same_ignoring_ascii_case(&name, &wanted) {
            assert(pairs(hs@)[i as int].0 == name@);
            return true;
        }
        i += 1;
    }
    false
}

/// The number of bytes that encode `body`.
pub open spec fn byte_length(body: Seq<char>) -> nat {
    encode_utf8(body).len()
}

/// What closes the header block. Without a body, an empty line. With one:
/// `Content-Type: text/plain` unless the headers before name a content type
/// (`typed`), then `Content-Length` with the number of bytes of the body, an
/// empty line, and the body as it is.
pub open spec fn spec_framing(body: Option<Seq<char>>, typed: bool) -> Seq<char> {
    match body {
        None => "\r\n"@,
        Some(b) => {
            let kind = if typed {
                Seq::empty()
            } else {
                "Content-Type: text/plain\r\n"@
            };
            kind + "Content-Length: "@ + spec_decimal(byte_length(b)) + "\r\n\r\n"@ + b
        },
    }
}

/// The text of a response: the status line, the `Content-Encoding` lines,
/// the explicit headers, and the framing of the body.
pub open spec fn spec_render(
    kind: ResponseType,
    encoding_lines: Seq<char>,
    headers: Seq<(Seq<char>, Seq<char>)>,
    body: Option<Seq<char>>,
) -> Seq<char> {
    kind.spec_status_line() + encoding_lines + spec_header_lines(headers) + spec_framing(
        body,
        spec_names_content_type(headers),
    )
}

/// The text of a response from its parts.
pub fn render(
    kind: ResponseType,
    encoding_lines: &str,
    headers: &Vec<(String, String)>,
    body: Option<&str>,
) -> (r: String)
    ensures
        r@ == spec_render(
            kind,
            encoding_lines@,
            pairs(headers@),
            match body {
                Some(b) => Some(b@),
                None => None,
            },
        ),
{
    let mut out = String::new();
    out.append(kind.status_line());
    out.append(encoding_lines);
    let ghost start = out@;
    let ghost all = pairs(headers@);
    let mut i: usize = 0;
    assert(all.take(0) =~= Seq::<(Seq<char>, Seq<char>)>::empty());
    assert(out@ =~= start + spec_header_lines(all.take(0)));
    while i < headers.len()
        invariant
            i <= headers.len(),
            all == pairs(headers@),
            out@ == start + spec_header_lines(all.take(i as int)),
        decreases headers.len() - i,
    {
        let header = &headers[i];
        assert(all.take(i + 1).drop_last() =~= all.take(i as int));
        assert(all.take(i + 1).last() == (header.0@, header.1@));
        push_header_line(&mut out, header.0.as_str(), header.1.as_str());
        i += 1;
        assert(out@ =~= start + spec_header_lines(all.take(i as int)));
    }
    assert(all.take(i as int) =~= all);
    let ghost head = out@;
    match body {
        None => {
            out.append("\r\n");
        },
        Some(b) => {
            let typed = names_content_type(headers);
            if !typed {
                out.append("Content-Type: text/plain\r\n");
            }
            out.append("Content-Length: ");
            push_decimal(&mut out, b.as_bytes().len());
            out.append("\r\n\r\n");
            out.append(b);
            assert(out@ =~= head + spec_framing(Some(b@), typed));
        },
    }
    assert(start =~= kind.spec_status_line() + encoding_lines@);
    out
}

/// The headers that a caller gave, none standing for an empty list.
pub open spec fn headers_of(hs: Option<Vec<(String, String)>>) -> Seq<(Seq<char>, Seq<char>)> {
    match hs {
        Some(hs) => pairs(hs@),
        None => Seq::empty(),
    }
}

/// The response to `request`: as `spec_render` gives it, with the
/// `Content-Encoding` lines that the request's headers ask for.
pub open spec fn spec_build_response(
    request: RequestView,
    kind: ResponseType,
    body: Option<Seq<char>>,
    headers: Seq<(Seq<char>, Seq<char>)>,
) -> Seq<char> {
    spec_render(kind, spec_negotiate(request.headers), headers, body)
}

/// Builds the response to `request`.
pub fn build_response(
    request: &Request,
    response_type: ResponseType,
    response_body: Option<String>,
    response_headers: Option<Vec<(String, String)>>,
) -> (r: String)
    ensures
        r@ == spec_build_response(
            request@,
            response_type,
            text_of(response_body),
            headers_of(response_headers),
        ),
{
    let encodings = negotiate(request);
    let headers = match response_headers {
        Some(hs) => hs,
        None => Vec::new(),
    };
    assert(pairs(headers@) =~= headers_of(response_headers));
    match response_body {
        Some(body) => render(response_type, encodings.as_str(), &headers, Some(body.as_str())),
        None => render(response_type, encodings.as_str(), &headers, None),
    }
}

/// The length that a response declares is the length of the body that it
/// carries: with a body, the response ends in `Content-Length: `, decimal
/// digits, an empty line and the body, and the digits read as a number are
/// the number of bytes that encode the body.
pub proof fn law_content_length(
    kind: ResponseType,
    encoding_lines: Seq<char>,
    headers: Seq<(Seq<char>, Seq<char>)>,
    body: Seq<char>,
) -> (parts: (Seq<char>, Seq<char>))
    ensures
        spec_render(kind, encoding_lines, headers, Some(body)) == parts.0 + "Content-Length: "@
            + parts.1 + "\r\n\r\n"@ + body,
        parts.1.len() >= 1,
        forall|i: int| 0 <= i < parts.1.len() ==> '0' <= #[trigger] parts.1[i] <= '9',
        spec_decimal_value(parts.1) == byte_length(body),
{
    let typed = spec_names_content_type(headers);
    let kind_line = if typed {
        Seq::empty()
    } else {
        "Content-Type: text/plain\r\n"@
    };
    let head = kind.spec_status_line() + encoding_lines + spec_header_lines(headers) + kind_line;
    let digits = spec_decimal(byte_length(body));
    lemma_decimal_value(byte_length(body));
    assert(spec_render(kind, encoding_lines, headers, Some(body)) =~= head + "Content-Length: "@
        + digits + "\r\n\r\n"@ + body);
    (head, digits)
}

} // verus!
