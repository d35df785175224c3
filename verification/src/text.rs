//! Character sequences: the vocabulary in which requests and responses are
//! described.
//!
//! Every text is modelled as a `Seq<char>`. The executable functions work on
//! `Vec<char>`, and each says what it computes through the `spec_` function
//! of the same name.
use vstd::prelude::*;

verus! {

/// `String::push` appends one character to the text.
pub assume_specification[ String::push ](s: &mut String, ch: char)
    ensures
        final(s)@ == old(s)@.push(ch),
;

/// The views of a vector of character vectors.
pub open spec fn views(v: Seq<Vec<char>>) -> Seq<Seq<char>> {
    Seq::new(v.len(), |i: int| v[i]@)
}

/// The views of a vector of strings.
pub open spec fn texts(v: Seq<String>) -> Seq<Seq<char>> {
    Seq::new(v.len(), |i: int| v[i]@)
}

/// The views of a vector of pairs of strings.
pub open spec fn pairs(v: Seq<(String, String)>) -> Seq<(Seq<char>, Seq<char>)> {
    Seq::new(v.len(), |i: int| (v[i].0@, v[i].1@))
}

/// Whether `c` is Unicode white space: a character with the property
/// `White_Space`.
pub open spec fn spec_is_whitespace(c: char) -> bool {
    let n = c as u32;
    ||| 0x09 <= n <= 0x0D
    ||| n == 0x20
    ||| n == 0x85
    ||| n == 0xA0
    ||| n == 0x1680
    ||| 0x2000 <= n <= 0x200A
    ||| n == 0x2028
    ||| n == 0x2029
    ||| n == 0x202F
    ||| n == 0x205F
    ||| n == 0x3000
}

/// Whether `c` is Unicode white space.
pub fn is_whitespace(c: char) -> (r: bool)
    ensures
        r == spec_is_whitespace(c),
{
    let n: u32 = c as u32;
    (0x09 <= n && n <= 0x0D) || n == 0x20 || n == 0x85 || n == 0xA0 || n == 0x1680 || (0x2000 <= n
        && n <= 0x200A) || n == 0x2028 || n == 0x2029 || n == 0x202F || n == 0x205F || n == 0x3000
}

/// The characters of `s`, in order.
pub fn chars_of(s: &str) -> (r: Vec<char>)
    ensures
        r@ == s@,
{
    let mut out: Vec<char> = Vec::new();
    for c in it: s.chars()
        invariant
            it.seq() == s@,
            out@ == s@.take(it.index()),
    {
        out.push(c);
    }
    out
}

/// The characters of `chars` from index `from` up to, not including, `to`,
/// as a string.
pub fn string_of(chars: &Vec<char>, from: usize, to: usize) -> (r: String)
    requires
        from <= to <= chars.len(),
    ensures
        r@ == chars@.subrange(from as int, to as int),
{
    let mut out = String::new();
    let mut i: usize = from;
    while i < to
        invariant
            from <= i <= to <= chars.len(),
            out@ == chars@.subrange(from as int, i as int),
        decreases to - i,
    {
        out.push(chars[i]);
        i += 1;
        assert(out@ =~= chars@.subrange(from as int, i as int));
    }
    out
}

/// The characters of `chars` from index `from` up to, not including, `to`.
pub fn slice_of(chars: &Vec<char>, from: usize, to: usize) -> (r: Vec<char>)
    requires
        from <= to <= chars.len(),
    ensures
        r@ == chars@.subrange(from as int, to as int),
{
    let mut out: Vec<char> = Vec::new();
    let mut i: usize = from;
    while i < to
        invariant
            from <= i <= to <= chars.len(),
            out@ == chars@.subrange(from as int, i as int),
        decreases to - i,
    {
        out.push(chars[i]);
        i += 1;
        assert(out@ =~= chars@.subrange(from as int, i as int));
    }
    out
}

/// Whether two texts hold the same characters.
pub fn same_text(a: &str, b: &str) -> (r: bool)
    ensures
        r == (a@ == b@),
{
    let x = a.as_bytes();
    let y = b.as_bytes();
    proof {
        // Two texts with the same encoding are the same text.
        vstd::utf8::encode_utf8_decode_utf8(a@);
        vstd::utf8::encode_utf8_decode_utf8(b@);
    }
    if x.len() != y.len() {
        return false;
    }
    let mut i: usize = 0;
    while i < x.len()
        invariant
            i <= x.len(),
            x.len() == y.len(),
            x@ == vstd::utf8::encode_utf8(a@),
            y@ == vstd::utf8::encode_utf8(b@),
            x@.take(i as int) == y@.take(i as int),
        decreases x.len() - i,
    {
        if x[i] != y[i] {
            return false;
        }
        i += 1;
        assert(x@.take(i as int) =~= x@.take(i - 1).push(x@[i - 1]));
        assert(y@.take(i as int) =~= y@.take(i - 1).push(y@[i - 1]));
    }
    assert(x@ =~= x@.take(i as int));
    assert(y@ =~= y@.take(i as int));
    true
}

/// Whether `prefix` stands at the start of `s`.
pub open spec fn spec_has_prefix(s: Seq<char>, prefix: Seq<char>) -> bool {
    prefix.len() <= s.len() && s.take(prefix.len() as int) == prefix
}

/// Whether `prefix` stands at the start of `chars`.
pub fn has_prefix(chars: &Vec<char>, prefix: &Vec<char>) -> (r: bool)
    ensures
        r == spec_has_prefix(chars@, prefix@),
{
    if prefix.len() > chars.len() {
        return false;
    }
    let mut i: usize = 0;
    while i < prefix.len()
        invariant
            i <= prefix.len() <= chars.len(),
            chars@.take(i as int) == prefix@.take(i as int),
        decreases prefix.len() - i,
    {
        if chars[i] != prefix[i] {
            assert(chars@.take(prefix.len() as int)[i as int] != prefix@[i as int]);
            return false;
        }
        i += 1;
        assert(chars@.take(i as int) =~= chars@.take(i - 1).push(chars@[i - 1]));
        assert(prefix@.take(i as int) =~= prefix@.take(i - 1).push(prefix@[i - 1]));
    }
    assert(prefix@ =~= prefix@.take(i as int));
    true
}

/// The index of the first `c` in `s`, or the length of `s` where `s` holds
/// none.
pub open spec fn spec_find(s: Seq<char>, c: char) -> int
    decreases s.len(),
{
    if s.len() == 0 || s[0] == c {
        0
    } else {
        1 + spec_find(s.drop_first(), c)
    }
}

/// `spec_find` is the least index that holds `c`.
pub proof fn lemma_find(s: Seq<char>, c: char, i: int)
    requires
        0 <= i <= s.len(),
        forall|k: int| 0 <= k < i ==> s[k] != c,
        i == s.len() || s[i] == c,
    ensures
        spec_find(s, c) == i,
    decreases i,
{
    if i > 0 {
        lemma_find(s.drop_first(), c, i - 1);
    }
}

/// The index of the first `c` in `chars` at or after `from`, or the length
/// of `chars`.
pub fn find(chars: &Vec<char>, from: usize, c: char) -> (at: usize)
    requires
        from <= chars.len(),
    ensures
        from <= at <= chars.len(),
        at == from + spec_find(chars@.skip(from as int), c),
{
    let mut i: usize = from;
    while i < chars.len() && chars[i] != c
        invariant
            from <= i <= chars.len(),
            forall|k: int| from <= k < i ==> chars@[k] != c,
        decreases chars.len() - i,
    {
        i += 1;
    }
    proof {
        lemma_find(chars@.skip(from as int), c, i - from);
    }
    i
}

/// The number of characters at the start of `s` that are white space
/// (`white`), or that are not (`!white`).
pub open spec fn spec_run(s: Seq<char>, white: bool) -> int
    decreases s.len(),
{
    if s.len() == 0 || spec_is_whitespace(s[0]) != white {
        0
    } else {
        1 + spec_run(s.drop_first(), white)
    }
}

/// `spec_run` is the length of the longest prefix of one kind.
pub proof fn lemma_run(s: Seq<char>, white: bool, i: int)
    requires
        0 <= i <= s.len(),
        forall|k: int| 0 <= k < i ==> spec_is_whitespace(s[k]) == white,
        i == s.len() || spec_is_whitespace(s[i]) != white,
    ensures
        spec_run(s, white) == i,
    decreases i,
{
    if i > 0 {
        lemma_run(s.drop_first(), white, i - 1);
    }
}

/// The index at which the run of white space (`white`) or of other
/// characters (`!white`) that starts at `from` ends.
pub fn run_end(chars: &Vec<char>, from: usize, white: bool) -> (at: usize)
    requires
        from <= chars.len(),
    ensures
        from <= at <= chars.len(),
        at == from + spec_run(chars@.skip(from as int), white),
{
    let mut i: usize = from;
    while i < chars.len() && is_whitespace(chars[i]) == white
        invariant
            from <= i <= chars.len(),
            forall|k: int| from <= k < i ==> spec_is_whitespace(chars@[k]) == white,
        decreases chars.len() - i,
    {
        i += 1;
    }
    proof {
        lemma_run(chars@.skip(from as int), white, i - from);
    }
    i
}

/// The pieces of `s` between the occurrences of `sep`: one more piece than
/// `s` holds separators, an empty text giving one empty piece.
pub open spec fn spec_split(s: Seq<char>, sep: char) -> Seq<Seq<char>>
    decreases s.len(),
{
    let i = spec_find(s, sep);
    if 0 <= i < s.len() {
        seq![s.take(i)] + spec_split(s.skip(i + 1), sep)
    } else {
        seq![s]
    }
}

/// The pieces of `chars` between the occurrences of `sep`.
pub fn split(chars: &Vec<char>, sep: char) -> (r: Vec<Vec<char>>)
    ensures
        views(r@) == spec_split(chars@, sep),
{
    let mut pieces: Vec<Vec<char>> = Vec::new();
    let mut start: usize = 0;
    let mut end: usize = find(chars, 0, sep);
    assert(chars@.skip(0) =~= chars@);
    assert(views(pieces@) + spec_split(chars@.skip(0), sep) =~= spec_split(chars@, sep));
    while end < chars.len()
        invariant
            start <= end <= chars.len(),
            end == start + spec_find(chars@.skip(start as int), sep),
            views(pieces@) + spec_split(chars@.skip(start as int), sep) == spec_split(
                chars@,
                sep,
            ),
        decreases chars.len() - start,
    {
        let ghost before = views(pieces@);
        let ghost rest = chars@.skip(start as int);
        pieces.push(slice_of(chars, start, end));
        proof {
            assert(rest.take(end - start) =~= chars@.subrange(start as int, end as int));
            assert(rest.skip(end - start + 1) =~= chars@.skip(end + 1));
            assert(views(pieces@) =~= before + seq![rest.take(end - start)]);
            assert(views(pieces@) + spec_split(chars@.skip(end + 1), sep) =~= before + spec_split(
                rest,
                sep,
            ));
        }
        start = end + 1;
        end = find(chars, start, sep);
    }
    let ghost before = views(pieces@);
    pieces.push(slice_of(chars, start, end));
    proof {
        assert(chars@.skip(start as int) =~= chars@.subrange(start as int, end as int));
        assert(views(pieces@) =~= before + seq![chars@.skip(start as int)]);
    }
    pieces
}

/// `s` without the carriage return at its end, if it has one.
pub open spec fn strip_cr(s: Seq<char>) -> Seq<char> {
    if s.len() > 0 && s.last() == '\r' {
        s.drop_last()
    } else {
        s
    }
}

/// The lines of `s`. A line ends at a line feed; the carriage return just
/// before that line feed is not part of the line. What follows the last line
/// feed is a line too unless it is empty, and keeps a carriage return at its
/// end.
pub open spec fn spec_lines(s: Seq<char>) -> Seq<Seq<char>>
    decreases s.len(),
{
    let i = spec_find(s, '\n');
    if 0 <= i < s.len() {
        seq![strip_cr(s.take(i))] + spec_lines(s.skip(i + 1))
    } else if s.len() == 0 {
        Seq::empty()
    } else {
        seq![s]
    }
}

/// The lines of `chars`.
pub fn lines(chars: &Vec<char>) -> (r: Vec<Vec<char>>)
    ensures
        views(r@) == spec_lines(chars@),
{
    let mut out: Vec<Vec<char>> = Vec::new();
    let mut start: usize = 0;
    let mut end: usize = find(chars, 0, '\n');
    assert(chars@.skip(0) =~= chars@);
    assert(views(out@) + spec_lines(chars@.skip(0)) =~= spec_lines(chars@));
    while end < chars.len()
        invariant
            start <= end <= chars.len(),
            end == start + spec_find(chars@.skip(start as int), '\n'),
            views(out@) + spec_lines(chars@.skip(start as int)) == spec_lines(chars@),
        decreases chars.len() - start,
    {
        let ghost before = views(out@);
        let ghost rest = chars@.skip(start as int);
        let stop = if end > start && chars[end - 1] == '\r' {
            end - 1
        } else {
            end
        };
        out.push(slice_of(chars, start, stop));
        proof {
            assert(rest.take(end - start) =~= chars@.subrange(start as int, end as int));
            assert(strip_cr(rest.take(end - start)) =~= chars@.subrange(
                start as int,
                stop as int,
            ));
            assert(rest.skip(end - start + 1) =~= chars@.skip(end + 1));
            assert(views(out@) =~= before + seq![strip_cr(rest.take(end - start))]);
            assert(views(out@) + spec_lines(chars@.skip(end + 1)) =~= before + spec_lines(rest));
        }
        start = end + 1;
        end = find(chars, start, '\n');
    }
    if start < end {
        let ghost before = views(out@);
        out.push(slice_of(chars, start, end));
        proof {
            assert(chars@.skip(start as int) =~= chars@.subrange(start as int, end as int));
            assert(views(out@) =~= before + seq![chars@.skip(start as int)]);
        }
    } else {
        assert(views(out@) + Seq::<Seq<char>>::empty() =~= views(out@));
    }
    out
}

/// A text without a line feed, then a carriage return and a line feed, is
/// one line, and the lines of what follows come after it.
pub proof fn lemma_lines_cons(line: Seq<char>, rest: Seq<char>)
    requires
        forall|k: int| 0 <= k < line.len() ==> line[k] != '\n',
    ensures
        spec_lines(line + "\r\n"@ + rest) == seq![line] + spec_lines(rest),
{
    reveal_strlit("\r\n");
    let s = line + "\r\n"@ + rest;
    let i = line.len() as int + 1;
    lemma_find(s, '\n', i);
    assert(s.take(i) =~= line.push('\r'));
    assert(strip_cr(s.take(i)) =~= line);
    assert(s.skip(i + 1) =~= rest);
}

/// The texts of `ls` in order, with `sep` between each two.
pub open spec fn spec_join(ls: Seq<Seq<char>>, sep: char) -> Seq<char>
    decreases ls.len(),
{
    if ls.len() == 0 {
        Seq::empty()
    } else if ls.len() == 1 {
        ls[0]
    } else {
        spec_join(ls.drop_last(), sep).push(sep) + ls.last()
    }
}

/// Appends `chars` to `out`.
pub fn push_chars(out: &mut String, chars: &Vec<char>)
    ensures
        final(out)@ == old(out)@ + chars@,
{
    let mut i: usize = 0;
    assert(out@ =~= old(out)@ + chars@.take(0));
    while i < chars.len()
        invariant
            i <= chars.len(),
            out@ == old(out)@ + chars@.take(i as int),
        decreases chars.len() - i,
    {
        out.push(chars[i]);
        i += 1;
        assert(out@ =~= old(out)@ + chars@.take(i as int));
    }
    assert(chars@.take(i as int) =~= chars@);
}

/// The texts of `ls` from index `from` on, with `sep` between each two.
pub fn join(ls: &Vec<Vec<char>>, from: usize, sep: char) -> (r: String)
    requires
        from <= ls.len(),
    ensures
        r@ == spec_join(views(ls@).skip(from as int), sep),
{
    let mut out = String::new();
    let mut i: usize = from;
    let ghost all = views(ls@).skip(from as int);
    assert(all.take(0) =~= Seq::<Seq<char>>::empty());
    while i < ls.len()
        invariant
            from <= i <= ls.len(),
            all == views(ls@).skip(from as int),
            out@ == spec_join(all.take(i - from), sep),
        decreases ls.len() - i,
    {
        let ghost done = all.take(i - from);
        if i > from {
            out.push(sep);
        }
        push_chars(&mut out, &ls[i]);
        i += 1;
        proof {
            let now = all.take(i - from);
            assert(now.drop_last() =~= done);
            assert(now.last() == ls@[i - 1]@);
            if done.len() == 0 {
                assert(out@ =~= now[0]);
            }
        }
    }
    assert(all.take(i - from) =~= all);
    out
}

/// The number of white-space characters at the end of `s`.
pub open spec fn spec_trailing_whitespace(s: Seq<char>) -> int
    decreases s.len(),
{
    if s.len() > 0 && spec_is_whitespace(s.last()) {
        1 + spec_trailing_whitespace(s.drop_last())
    } else {
        0
    }
}

/// `spec_trailing_whitespace` is the length of the longest suffix of white
/// space.
pub proof fn lemma_trailing_whitespace(s: Seq<char>, n: int)
    requires
        0 <= n <= s.len(),
        forall|k: int| s.len() - n <= k < s.len() ==> spec_is_whitespace(s[k]),
        n == s.len() || !spec_is_whitespace(s[s.len() - n - 1]),
    ensures
        spec_trailing_whitespace(s) == n,
    decreases n,
{
    if n > 0 {
        lemma_trailing_whitespace(s.drop_last(), n - 1);
    }
}

/// `s` without the white space at its start and at its end.
pub open spec fn spec_trim(s: Seq<char>) -> Seq<char> {
    let rest = s.skip(spec_run(s, true));
    rest.take(rest.len() - spec_trailing_whitespace(rest))
}

/// `chars` without the white space at its start and at its end.
pub fn trim(chars: &Vec<char>) -> (r: String)
    ensures
        r@ == spec_trim(chars@),
{
    let from = run_end(chars, 0, true);
    assert(chars@.skip(0) =~= chars@);
    let ghost rest = chars@.skip(from as int);
    let mut to: usize = chars.len();
    while to > from && is_whitespace(chars[to - 1])
        invariant
            from <= to <= chars.len(),
            forall|k: int| to <= k < chars.len() ==> spec_is_whitespace(chars@[k]),
        decreases to,
    {
        to -= 1;
    }
    proof {
        lemma_trailing_whitespace(rest, chars.len() - to);
        assert(rest.take(rest.len() - (chars.len() - to)) =~= chars@.subrange(
            from as int,
            to as int,
        ));
    }
    string_of(chars, from, to)
}

/// The number of NUL characters at the end of `s`.
pub open spec fn spec_trailing_nuls(s: Seq<char>) -> int
    decreases s.len(),
{
    if s.len() > 0 && s.last() == '\0' {
        1 + spec_trailing_nuls(s.drop_last())
    } else {
        0
    }
}

/// What `spec_trailing_nuls` returns lies within `s`.
pub proof fn lemma_trailing_nuls_bounds(s: Seq<char>)
    ensures
        0 <= spec_trailing_nuls(s) <= s.len(),
    decreases s.len(),
{
    if s.len() > 0 && s.last() == '\0' {
        lemma_trailing_nuls_bounds(s.drop_last());
    }
}

/// The NUL characters at the end of a text are those at the end of its
/// last part, where the part before ends in another character.
pub proof fn lemma_trailing_nuls_after(a: Seq<char>, b: Seq<char>)
    requires
        a.len() > 0,
        a.last() != '\0',
    ensures
        spec_trailing_nuls(a + b) == spec_trailing_nuls(b),
    decreases b.len(),
{
    if b.len() == 0 {
        assert(a + b =~= a);
    } else {
        assert((a + b).last() == b.last());
        assert((a + b).drop_last() =~= a + b.drop_last());
        lemma_trailing_nuls_after(a, b.drop_last());
    }
}

/// `s` without the NUL characters at its end.
pub open spec fn spec_strip_nuls(s: Seq<char>) -> Seq<char> {
    s.take(s.len() - spec_trailing_nuls(s))
}

/// Removes the NUL characters at the end of `chars`.
pub fn strip_nuls(chars: &mut Vec<char>)
    ensures
        final(chars)@ == spec_strip_nuls(old(chars)@),
{
    proof {
        lemma_trailing_nuls_bounds(chars@);
    }
    assert(chars@.take(chars.len() as int) =~= chars@);
    while chars.len() > 0 && chars[chars.len() - 1] == '\0'
        invariant
            chars.len() <= old(chars).len(),
            chars@ == old(chars)@.take(chars.len() as int),
            0 <= spec_trailing_nuls(old(chars)@) <= old(chars).len(),
            spec_trailing_nuls(old(chars)@) == old(chars).len() - chars.len()
                + spec_trailing_nuls(chars@),
        decreases chars.len(),
    {
        let ghost before = chars@;
        chars.pop();
        assert(chars@ =~= before.drop_last());
        assert(chars@ =~= old(chars)@.take(chars.len() as int));
    }
}

/// The index of the first colon in `s` that a space follows, or the length of
/// `s` where there is none.
pub open spec fn spec_find_separator(s: Seq<char>) -> int
    decreases s.len(),
{
    if s.len() < 2 {
        s.len() as int
    } else if s[0] == ':' && s[1] == ' ' {
        0
    } else {
        1 + spec_find_separator(s.drop_first())
    }
}

/// Whether a colon stands at index `i` of `s` with a space after it.
pub open spec fn separator_at(s: Seq<char>, i: int) -> bool {
    0 <= i && i + 1 < s.len() && s[i] == ':' && s[i + 1] == ' '
}

/// `spec_find_separator` is the least index at which a separator stands.
pub proof fn lemma_separator_found(s: Seq<char>, i: int)
    requires
        separator_at(s, i),
        forall|k: int| 0 <= k < i ==> !separator_at(s, k),
    ensures
        spec_find_separator(s) == i,
    decreases i,
{
    if i > 0 {
        let t = s.drop_first();
        assert(!separator_at(s, 0));
        assert forall|k: int| 0 <= k < i - 1 implies !separator_at(t, k) by {
            assert(!separator_at(s, k + 1));
        }
        lemma_separator_found(t, i - 1);
    }
}

/// Where no separator stands, `spec_find_separator` is the length.
pub proof fn lemma_separator_absent(s: Seq<char>)
    requires
        forall|k: int| !separator_at(s, k),
    ensures
        spec_find_separator(s) == s.len(),
    decreases s.len(),
{
    if s.len() >= 2 {
        let t = s.drop_first();
        assert(!separator_at(s, 0));
        assert forall|k: int| !separator_at(t, k) by {
            assert(!separator_at(s, k + 1));
        }
        lemma_separator_absent(t);
    }
}

/// What `spec_find_separator` returns lies within `s`, no separator stands
/// before it, and one stands at it unless it is the length.
pub proof fn lemma_separator_bounds(s: Seq<char>)
    ensures
        0 <= spec_find_separator(s) <= s.len(),
        spec_find_separator(s) < s.len() ==> separator_at(s, spec_find_separator(s)),
        forall|k: int| 0 <= k < spec_find_separator(s) ==> !separator_at(s, k),
    decreases s.len(),
{
    if s.len() >= 2 && !(s[0] == ':' && s[1] == ' ') {
        let t = s.drop_first();
        lemma_separator_bounds(t);
        assert forall|k: int| 0 <= k < spec_find_separator(s) implies !separator_at(s, k) by {
            if k > 0 {
                assert(!separator_at(t, k - 1));
            }
        }
        if spec_find_separator(s) < s.len() {
            assert(separator_at(t, spec_find_separator(t)));
        }
    }
}

/// The index of the first colon in `chars` that a space follows, or the
/// length of `chars`.
pub fn find_separator(chars: &Vec<char>) -> (at: usize)
    ensures
        at == spec_find_separator(chars@),
        at <= chars.len(),
        at < chars.len() ==> at + 2 <= chars.len(),
{
    let mut next: usize = 1;
    while next < chars.len()
        invariant
            1 <= next,
            forall|k: int| 0 <= k < next - 1 ==> !separator_at(chars@, k),
        decreases chars.len() - next,
    {
        if chars[next - 1] == ':' && chars[next] == ' ' {
            proof {
                lemma_separator_found(chars@, next - 1);
            }
            return next - 1;
        }
        next += 1;
    }
    proof {
        lemma_separator_absent(chars@);
    }
    chars.len()
}

/// The decimal digit for `d`.
pub open spec fn spec_digit(d: int) -> char {
    (d + 48) as char
}

/// `n` in decimal digits, without leading zeros.
pub open spec fn spec_decimal(n: nat) -> Seq<char>
    decreases n,
{
    if n < 10 {
        seq![spec_digit(n as int)]
    } else {
        spec_decimal(n / 10).push(spec_digit((n % 10) as int))
    }
}

/// The number that a text of decimal digits stands for.
pub open spec fn spec_decimal_value(s: Seq<char>) -> nat
    decreases s.len(),
{
    if s.len() == 0 {
        0
    } else {
        (spec_decimal_value(s.drop_last()) * 10 + (s.last() as int - 48)) as nat
    }
}

/// Reading `spec_decimal(n)` as a number gives `n` back, and each of its
/// characters is a digit.
pub proof fn lemma_decimal_value(n: nat)
    ensures
        spec_decimal_value(spec_decimal(n)) == n,
        spec_decimal(n).len() >= 1,
        forall|i: int| 0 <= i < spec_decimal(n).len() ==> '0' <= #[trigger] spec_decimal(n)[i] <= '9',
    decreases n,
{
    if n < 10 {
        let s = seq![spec_digit(n as int)];
        assert(s.drop_last() =~= Seq::<char>::empty());
        assert(spec_decimal_value(s.drop_last()) == 0);
    } else {
        lemma_decimal_value(n / 10);
        let s = spec_decimal(n);
        assert(s.drop_last() =~= spec_decimal(n / 10));
    }
}

/// Appends `n` in decimal digits to `out`.
pub fn push_decimal(out: &mut String, n: usize)
    ensures
        final(out)@ == old(out)@ + spec_decimal(n as nat),
    decreases n,
{
    if n >= 10 {
        push_decimal(out, n / 10);
    }
    let d: u8 = (n % 10) as u8;
    out.push((d + 48u8) as char);
    assert(out@ =~= old(out)@ + spec_decimal(n as nat));
}

/// `n` in decimal digits.
pub fn decimal(n: usize) -> (r: String)
    ensures
        r@ == spec_decimal(n as nat),
{
    let mut out = String::new();
    push_decimal(&mut out, n);
    assert(Seq::<char>::empty() + spec_decimal(n as nat) =~= spec_decimal(n as nat));
    out
}

/// The lower-case form of an upper-case ASCII letter; any other character
/// unchanged.
pub open spec fn spec_ascii_lower(c: char) -> char {
    if 'A' <= c <= 'Z' {
        (c as int + 32) as char
    } else {
        c
    }
}

/// Whether two texts are the same but for the case of their ASCII letters.
pub open spec fn spec_same_ignoring_ascii_case(a: Seq<char>, b: Seq<char>) -> bool {
    a.len() == b.len() && forall|i: int|
        0 <= i < a.len() ==> spec_ascii_lower(a[i]) == spec_ascii_lower(b[i])
}

/// The lower-case form of an upper-case ASCII letter; any other character
/// unchanged.
pub fn ascii_lower(c: char) -> (r: char)
    ensures
        r == spec_ascii_lower(c),
{
    if 'A' <= c && c <= 'Z' {
        ((c as u8) + 32u8) as char
    } else {
        c
    }
}

/// Whether two texts are the same but for the case of their ASCII letters.
pub fn same_ignoring_ascii_case(a: &Vec<char>, b: &Vec<char>) -> (r: bool)
    ensures
        r == spec_same_ignoring_ascii_case(a@, b@),
{
    if a.len() != b.len() {
        return false;
    }
    let mut i: usize = 0;
    while i < a.len()
        invariant
            i <= a.len() == b.len(),
            forall|k: int| 0 <= k < i ==> spec_ascii_lower(a@[k]) == spec_ascii_lower(b@[k]),
        decreases a.len() - i,
    {
        if ascii_lower(a[i]) != ascii_lower(b[i]) {
            return false;
        }
        i += 1;
    }
    true
}

/// The lower-case form of a text, as Unicode defines it for a whole text:
/// what `str::to_lowercase` returns for it.
pub uninterp spec fn lowercase(s: Seq<char>) -> Seq<char>;

/// `str::to_lowercase`: the result is the lower-case form of the text, which
/// depends on the text alone.
#[verifier::external_body]
pub(crate) fn to_lowercase(s: &str) -> (r: String)
    ensures
        r@ == lowercase(s@),
{
    s.to_lowercase()
}

/// `core::str::from_utf8`: the bytes are accepted exactly when they are
/// valid UTF-8, and the text that comes back is encoded by those bytes.
#[verifier::external_body]
pub(crate) fn from_utf8(bytes: &[u8]) -> (r: Option<&str>)
    ensures
        r is Some <==> vstd::utf8::valid_utf8(bytes@),
        r matches Some(s) ==> vstd::utf8::encode_utf8(s@) == bytes@,
{
    match core::str::from_utf8(bytes) {
        Ok(s) => Some(s),
        Err(_) => None,
    }
}

} // verus!
