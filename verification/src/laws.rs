//! What holds between writing a request and parsing it.
use crate::request::{
    after_first_token, first_token, has_separator, header_name, header_of, header_value,
    lemma_header_count, spec_parse, RequestView,
};
use crate::response::spec_header_lines;
use crate::text::{
    lemma_lines_cons, lemma_run, lemma_separator_bounds, lemma_separator_found,
    lemma_trailing_nuls_after, lemma_trailing_nuls_bounds, lowercase, separator_at,
    spec_is_whitespace, spec_join, spec_lines, spec_strip_nuls,
};
use vstd::prelude::*;

verus! {

/// Whether `s` is a token: not empty, and without white space.
pub open spec fn is_token(s: Seq<char>) -> bool {
    s.len() > 0 && forall|k: int| 0 <= k < s.len() ==> !spec_is_whitespace(s[k])
}

/// Whether `s` holds no line feed.
pub open spec fn no_line_feed(s: Seq<char>) -> bool {
    forall|k: int| 0 <= k < s.len() ==> s[k] != '\n'
}

/// Whether a header can be written on one line and read back: neither its
/// name nor its value holds a line feed, and its name holds no `": "`.
pub open spec fn is_plain_header(h: (Seq<char>, Seq<char>)) -> bool {
    no_line_feed(h.0) && no_line_feed(h.1) && !has_separator(h.0)
}

/// The headers as a parsed request holds them: each name in lower case.
pub open spec fn lower_cased(headers: Seq<(Seq<char>, Seq<char>)>) -> Seq<(Seq<char>, Seq<char>)> {
    Seq::new(headers.len(), |i: int| (lowercase(headers[i].0), headers[i].1))
}

/// The text of a request: the request line, the header lines, an empty line
/// and the body, each line ended by a carriage return and a line feed.
pub open spec fn request_text(
    method: Seq<char>,
    path: Seq<char>,
    version: Seq<char>,
    headers: Seq<(Seq<char>, Seq<char>)>,
    body: Seq<char>,
) -> Seq<char> {
    method + " "@ + path + " "@ + version + "\r\n"@ + spec_header_lines(headers) + "\r\n"@ + body
}

/// The first two tokens of a request line are the method and the path as
/// they were written, whatever follows the path after white space.
pub proof fn law_request_line_tokens(method: Seq<char>, path: Seq<char>, tail: Seq<char>)
    requires
        is_token(method),
        is_token(path),
        tail.len() == 0 || spec_is_whitespace(tail[0]),
    ensures
        first_token(method + " "@ + path + tail) == method,
        first_token(after_first_token(method + " "@ + path + tail)) == path,
{
    reveal_strlit(" ");
    let line = method + " "@ + path + tail;
    lemma_run(line, true, 0);
    assert(line.skip(0) =~= line);
    lemma_run(line, false, method.len() as int);
    assert(line.take(method.len() as int) =~= method);
    let after = line.skip(method.len() as int);
    assert(after =~= " "@ + path + tail);
    lemma_run(after, true, 1);
    let rest = after.skip(1);
    assert(rest =~= path + tail);
    lemma_run(rest, false, path.len() as int);
    assert(rest.take(path.len() as int) =~= path);
}

/// A header line `Name: Value` is read as that name and that value: the
/// stored name is the lower-case form of `Name`, and the value is `Value`
/// as it stands, nothing trimmed.
pub proof fn law_header_line(name: Seq<char>, value: Seq<char>)
    requires
        !has_separator(name),
    ensures
        has_separator(spec_header_text(name, value)),
        header_name(spec_header_text(name, value)) == name,
        header_value(spec_header_text(name, value)) == value,
        header_of(spec_header_text(name, value)) == (lowercase(name), value),
{
    reveal_strlit(": ");
    let line = spec_header_text(name, value);
    let n = name.len() as int;
    lemma_separator_bounds(name);
    assert forall|k: int| 0 <= k < n implies !separator_at(line, k) by {
        if separator_at(line, k) {
            if k + 1 < n {
                assert(separator_at(name, k));
            } else {
                assert(line[k + 1] == ':');
            }
        }
    }
    assert(separator_at(line, n));
    lemma_separator_found(line, n);
    assert(line.take(n) =~= name);
    assert(line.skip(n + 2) =~= value);
}

/// A header as one line, without its line terminator.
pub open spec fn spec_header_text(name: Seq<char>, value: Seq<char>) -> Seq<char> {
    name + ": "@ + value
}

/// The lines of headers as texts, without their line terminators.
pub open spec fn header_texts(headers: Seq<(Seq<char>, Seq<char>)>) -> Seq<Seq<char>> {
    Seq::new(headers.len(), |i: int| spec_header_text(headers[i].0, headers[i].1))
}

/// The lines of written headers are the headers, one line each, and the
/// lines of what follows come after them.
pub proof fn lemma_lines_of_headers(headers: Seq<(Seq<char>, Seq<char>)>, tail: Seq<char>)
    requires
        forall|i: int| 0 <= i < headers.len() ==> is_plain_header(#[trigger] headers[i]),
    ensures
        spec_lines(spec_header_lines(headers) + tail) == header_texts(headers) + spec_lines(tail),
    decreases headers.len(),
{
    reveal_strlit(": ");
    if headers.len() == 0 {
        assert(spec_header_lines(headers) + tail =~= tail);
        assert(header_texts(headers) + spec_lines(tail) =~= spec_lines(tail));
    } else {
        let before = headers.drop_last();
        let h = headers.last();
        let line = spec_header_text(h.0, h.1);
        assert(is_plain_header(h));
        assert forall|i: int| 0 <= i < before.len() implies is_plain_header(
            #[trigger] before[i],
        ) by {
            assert(before[i] == headers[i]);
        }
        assert(spec_header_lines(headers) + tail =~= spec_header_lines(before) + (line + "\r\n"@
            + tail));
        lemma_lines_of_headers(before, line + "\r\n"@ + tail);
        lemma_lines_cons(line, tail);
        assert(header_texts(before) + (seq![line] + spec_lines(tail)) =~= header_texts(headers)
            + spec_lines(tail));
    }
}

/// Parsing reads what was written. A request written as its request line,
/// its headers one per line, an empty line and its body parses without
/// error; method and path are the tokens as written, each header has its
/// name in lower case and its value unchanged, in the order written, and
/// the body is present.
pub proof fn law_parse_reads_what_was_written(
    method: Seq<char>,
    path: Seq<char>,
    version: Seq<char>,
    headers: Seq<(Seq<char>, Seq<char>)>,
    body: Seq<char>,
)
    requires
        is_token(method),
        is_token(path),
        no_line_feed(version),
        forall|i: int| 0 <= i < headers.len() ==> is_plain_header(#[trigger] headers[i]),
    ensures
        spec_parse(request_text(method, path, version, headers, body)) == Ok::<
            RequestView,
            crate::request::ParseError,
        >(
            RequestView {
                method,
                path,
                headers: lower_cased(headers),
                body: Some(spec_join(spec_lines(spec_strip_nuls(body)), '\n')),
            },
        ),
{
    reveal_strlit(" ");
    reveal_strlit("\r\n");
    let text = request_text(method, path, version, headers, body);
    let first = method + " "@ + path + " "@ + version;
    let head = first + "\r\n"@ + spec_header_lines(headers) + "\r\n"@;
    let kept = spec_strip_nuls(body);
    let n = headers.len() as int;

    // The padding is taken from the body alone.
    assert(text =~= head + body);
    lemma_trailing_nuls_after(head, body);
    lemma_trailing_nuls_bounds(body);
    assert(spec_strip_nuls(text) =~= head + kept);

    // The lines: the request line, the headers, an empty line, the body's.
    let after_headers = "\r\n"@ + kept;
    let after_first = spec_header_lines(headers) + after_headers;
    assert(head + kept =~= first + "\r\n"@ + after_first);
    lemma_lines_cons(first, after_first);
    lemma_lines_of_headers(headers, after_headers);
    assert(after_headers =~= Seq::<char>::empty() + "\r\n"@ + kept);
    lemma_lines_cons(Seq::<char>::empty(), kept);
    let ls = spec_lines(spec_strip_nuls(text));
    let rest = ls.drop_first();
    assert(ls[0] == first);
    assert(rest =~= header_texts(headers) + seq![Seq::<char>::empty()] + spec_lines(kept));

    // The request line.
    assert(first =~= method + " "@ + path + (" "@ + version));
    law_request_line_tokens(method, path, " "@ + version);

    // The header block.
    assert forall|k: int| 0 <= k < n implies (#[trigger] rest[k]).len() != 0 && has_separator(
        rest[k],
    ) && header_of(rest[k]) == lower_cased(headers)[k] by {
        assert(is_plain_header(headers[k]));
        law_header_line(headers[k].0, headers[k].1);
        assert(rest[k] == spec_header_text(headers[k].0, headers[k].1));
    }
    assert(rest[n].len() == 0);
    lemma_header_count(rest, n);
    assert(Seq::new(n as nat, |i: int| header_of(rest[i])) =~= lower_cased(headers));
    assert(rest.skip(n + 1) =~= spec_lines(kept));
}

} // verus!
