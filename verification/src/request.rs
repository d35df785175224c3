//! The request: what a client sent, as method, path, headers and body, and
//! the parser that reads it from the bytes of one socket read.
use crate::text::{
    chars_of, find_separator, from_utf8, join, lines, lowercase, pairs, run_end,
    spec_find_separator, spec_join, spec_lines, spec_run, spec_strip_nuls, string_of, strip_nuls,
    to_lowercase, views,
};
use vstd::prelude::*;

verus! {

/// Why a request could not be read.
#[derive(Clone, Copy, Debug, PartialEq, Eq, Structural)]
pub enum ParseError {
    /// The bytes are not valid UTF-8.
    InvalidEncoding,
    /// There is no request line, or it holds no method.
    MissingMethod,
    /// The request line holds a method and nothing after it.
    MissingPath,
    /// A line of the header block holds no `": "`.
    MalformedHeader,
}

/// A parsed request.
#[derive(Debug, PartialEq, Eq)]
pub struct Request {
    /// The first token of the request line.
    pub method: String,
    /// The second token of the request line.
    pub path: String,
    /// The headers in the order in which they were sent, each name in lower
    /// case.
    pub headers: Vec<(String, String)>,
    /// What follows the blank line that ends the header block; `None` where
    /// no blank line was sent.
    pub body: Option<String>,
}

/// A request as mathematical data.
pub struct RequestView {
    pub method: Seq<char>,
    pub path: Seq<char>,
    pub headers: Seq<(Seq<char>, Seq<char>)>,
    pub body: Option<Seq<char>>,
}

/// The view of an optional text.
pub open spec fn text_of(s: Option<String>) -> Option<Seq<char>> {
    match s {
        Some(s) => Some(s@),
        None => None,
    }
}

impl View for Request {
    type V = RequestView;

    open spec fn view(&self) -> RequestView {
        RequestView {
            method: self.method@,
            path: self.path@,
            headers: pairs(self.headers@),
            body: text_of(self.body),
        }
    }
}

/// The first token of `s`: the characters from its first that is no white
/// space up to the next white space.
pub open spec fn first_token(s: Seq<char>) -> Seq<char> {
    let rest = s.skip(spec_run(s, true));
    rest.take(spec_run(rest, false))
}

/// What follows the first token of `s`.
pub open spec fn after_first_token(s: Seq<char>) -> Seq<char> {
    let rest = s.skip(spec_run(s, true));
    rest.skip(spec_run(rest, false))
}

/// Whether `line` holds a `": "`.
pub open spec fn has_separator(line: Seq<char>) -> bool {
    0 <= spec_find_separator(line) < line.len()
}

/// The name of a header line: what stands before its first `": "`.
pub open spec fn header_name(line: Seq<char>) -> Seq<char> {
    line.take(spec_find_separator(line))
}

/// The value of a header line: what stands after its first `": "`.
pub open spec fn header_value(line: Seq<char>) -> Seq<char> {
    line.skip(spec_find_separator(line) + 2)
}

/// The header that a line with a separator gives: its name in lower case,
/// and its value.
pub open spec fn header_of(line: Seq<char>) -> (Seq<char>, Seq<char>) {
    (lowercase(header_name(line)), header_value(line))
}

/// The number of lines at the start of `ls` that are not empty.
pub open spec fn header_count(ls: Seq<Seq<char>>) -> int
    decreases ls.len(),
{
    if ls.len() == 0 || ls[0].len() == 0 {
        0
    } else {
        1 + header_count(ls.drop_first())
    }
}

/// `header_count` is the index of the first empty line, or the length.
pub proof fn lemma_header_count(ls: Seq<Seq<char>>, n: int)
    requires
        0 <= n <= ls.len(),
        forall|k: int| 0 <= k < n ==> ls[k].len() != 0,
        n == ls.len() || ls[n].len() == 0,
    ensures
        header_count(ls) == n,
    decreases n,
{
    if n > 0 {
        lemma_header_count(ls.drop_first(), n - 1);
    }
}

/// `header_count` is at least the length of any prefix without an empty
/// line.
pub proof fn lemma_header_count_at_least(ls: Seq<Seq<char>>, n: int)
    requires
        0 <= n <= ls.len(),
        forall|k: int| 0 <= k < n ==> ls[k].len() != 0,
    ensures
        header_count(ls) >= n,
    decreases ls.len(),
{
    if ls.len() != 0 && ls[0].len() != 0 {
        let m = if n > 0 {
            n - 1
        } else {
            0
        };
        assert forall|k: int| 0 <= k < m implies ls.drop_first()[k].len() != 0 by {
            assert(ls[k + 1].len() != 0);
        }
        lemma_header_count_at_least(ls.drop_first(), m);
    }
}

/// What a request text parses to.
///
/// The NUL characters at the end of the text are no part of it. The first
/// line gives method and path, as its first two tokens. The lines after it,
/// up to the first empty line, are the headers, and each must hold a
/// `": "`. What follows the empty line is the body, its lines joined by
/// line feeds.
pub open spec fn spec_parse(text: Seq<char>) -> Result<RequestView, ParseError> {
    let ls = spec_lines(spec_strip_nuls(text));
    if ls.len() == 0 {
        Err(ParseError::MissingMethod)
    } else {
        let method = first_token(ls[0]);
        let path = first_token(after_first_token(ls[0]));
        let rest = ls.drop_first();
        let n = header_count(rest);
        if method.len() == 0 {
            Err(ParseError::MissingMethod)
        } else if path.len() == 0 {
            Err(ParseError::MissingPath)
        } else if exists|i: int| 0 <= i < n && !has_separator(#[trigger] rest[i]) {
            Err(ParseError::MalformedHeader)
        } else {
            Ok(
                RequestView {
                    method,
                    path,
                    headers: Seq::new(n as nat, |i: int| header_of(rest[i])),
                    body: if n < rest.len() {
                        Some(spec_join(rest.skip(n + 1), '\n'))
                    } else {
                        None
                    },
                },
            )
        }
    }
}

/// What the bytes of a request parse to: they must be valid UTF-8, and the
/// text that they encode is parsed.
pub open spec fn spec_parse_bytes(bytes: Seq<u8>) -> Result<RequestView, ParseError> {
    if vstd::utf8::valid_utf8(bytes) {
        spec_parse(vstd::utf8::decode_utf8(bytes))
    } else {
        Err(ParseError::InvalidEncoding)
    }
}

/// Whether `r` is the outcome `expected`, a request standing for its view.
pub open spec fn parsed_as(
    r: Result<Request, ParseError>,
    expected: Result<RequestView, ParseError>,
) -> bool {
    match r {
        Ok(request) => expected == Ok::<RequestView, ParseError>(request@),
        Err(e) => expected == Err::<RequestView, ParseError>(e),
    }
}

impl Request {
    /// Parses the text of a request.
    pub fn new(raw_request: &str) -> (r: Result<Request, ParseError>)
        ensures
            parsed_as(r, spec_parse(raw_request@)),
    {
        let mut chars = chars_of(raw_request);
        strip_nuls(&mut chars);
        let ls = lines(&chars);
        if ls.len() == 0 {
            return Err(ParseError::MissingMethod);
        }
        let ghost all = spec_lines(spec_strip_nuls(raw_request@));
        let ghost rest = all.drop_first();
        let line = &ls[0];
        assert(line@ == all[0]);

        let method_start = run_end(line, 0, true);
        let method_end = run_end(line, method_start, false);
        let path_start = run_end(line, method_end, true);
        let path_end = run_end(line, path_start, false);
        proof {
            let s = line@;
            assert(s.skip(0) =~= s);
            let after = s.skip(method_start as int);
            assert(after.take(method_end - method_start) =~= s.subrange(
                method_start as int,
                method_end as int,
            ));
            assert(after.skip(method_end - method_start) =~= s.skip(method_end as int));
            let tail = s.skip(method_end as int);
            assert(tail.skip(path_start - method_end) =~= s.skip(path_start as int));
            assert(tail.skip(path_start - method_end).take(path_end - path_start) =~= s.subrange(
                path_start as int,
                path_end as int,
            ));
            assert(first_token(s) == s.subrange(method_start as int, method_end as int));
            assert(after_first_token(s) == tail);
            assert(first_token(tail) == s.subrange(path_start as int, path_end as int));
        }
        if method_end == method_start {
            return Err(ParseError::MissingMethod);
        }
        if path_end == path_start {
            return Err(ParseError::MissingPath);
        }
        let method = string_of(line, method_start, method_end);
        let path = string_of(line, path_start, path_end);

        let mut headers: Vec<(String, String)> = Vec::new();
        let mut i: usize = 1;
        while i < ls.len() && ls[i].len() != 0
            invariant
                1 <= i <= ls.len(),
                views(ls@) == all,
                all == spec_lines(spec_strip_nuls(raw_request@)),
                first_token(all[0]).len() != 0,
                first_token(after_first_token(all[0])).len() != 0,
                rest == all.drop_first(),
                forall|k: int| 0 <= k < i - 1 ==> (#[trigger] rest[k]).len() != 0,
                forall|k: int| 0 <= k < i - 1 ==> has_separator(#[trigger] rest[k]),
                pairs(headers@) == Seq::new((i - 1) as nat, |k: int| header_of(rest[k])),
            decreases ls.len() - i,
        {
            let header = &ls[i];
            assert(header@ == rest[i - 1]);
            let at = find_separator(header);
            if at == header.len() {
                proof {
                    let k = i - 1;
                    lemma_header_count_at_least(rest, k + 1);
                    assert(!has_separator(rest[k]));
                    assert(0 <= k < header_count(rest));
                }
                return Err(ParseError::MalformedHeader);
            }
            let name = string_of(header, 0, at);
            let value = string_of(header, at + 2, header.len());
            let name = to_lowercase(name.as_str());
            let ghost before = pairs(headers@);
            headers.push((name, value));
            proof {
                assert(header@.subrange(0, at as int) =~= header_name(header@));
                assert(header@.subrange(at + 2, header@.len() as int) =~= header_value(header@));
                assert(pairs(headers@) =~= before.push(header_of(rest[i - 1])));
                assert(pairs(headers@) =~= Seq::new(i as nat, |k: int| header_of(rest[k])));
            }
            i += 1;
        }
        let ghost n = i - 1;
        proof {
            lemma_header_count(rest, n);
            assert(forall|k: int| 0 <= k < n ==> has_separator(#[trigger] rest[k]));
        }
        let body = if i < ls.len() {
            proof {
                assert(views(ls@).skip(i + 1) =~= rest.skip(n + 1));
            }
            Some(join(&ls, i + 1, '\n'))
        } else {
            None
        };
        Ok(Request { method, path, headers, body })
    }

    /// Parses the bytes of a request.
    pub fn from_bytes(bytes: &[u8]) -> (r: Result<Request, ParseError>)
        ensures
            parsed_as(r, spec_parse_bytes(bytes@)),
    {
        match from_utf8(bytes) {
            Some(text) => {
                proof {
                    vstd::utf8::encode_utf8_decode_utf8(text@);
                }
                Request::new(text)
            },
            None => Err(ParseError::InvalidEncoding),
        }
    }
}

} // verus!
