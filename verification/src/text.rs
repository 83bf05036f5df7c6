//! Text as the stages see it: a sequence of characters, cut into lines and
//! put together again. The spec functions here are what the contracts of
//! the stages are stated over; the executable functions compute them on
//! vectors of characters.

use vstd::prelude::*;

verus! {

/// Whether `c` is white space as Unicode defines it (`White_Space`).
pub open spec fn is_whitespace(c: char) -> bool {
    let u = c as u32;
    ||| 0x09 <= u <= 0x0D
    ||| u == 0x20
    ||| u == 0x85
    ||| u == 0xA0
    ||| u == 0x1680
    ||| 0x2000 <= u <= 0x200A
    ||| u == 0x2028
    ||| u == 0x2029
    ||| u == 0x202F
    ||| u == 0x205F
    ||| u == 0x3000
}

/// `s` without its leading whitespace.
pub open spec fn trim_start(s: Seq<char>) -> Seq<char>
    decreases s.len(),
{
    if s.len() > 0 && is_whitespace(s.first()) {
        trim_start(s.drop_first())
    } else {
        s
    }
}

/// `s` without its trailing whitespace.
pub open spec fn trim_end(s: Seq<char>) -> Seq<char>
    decreases s.len(),
{
    if s.len() > 0 && is_whitespace(s.last()) {
        trim_end(s.drop_last())
    } else {
        s
    }
}

/// `s` without whitespace at either end.
pub open spec fn trim(s: Seq<char>) -> Seq<char> {
    trim_end(trim_start(s))
}

/// Whether `s` holds nothing but whitespace.
pub open spec fn is_blank(s: Seq<char>) -> bool {
    trim(s).len() == 0
}

/// The pieces of `s` between its line feeds, in order. There is always at
/// least one piece: a text that ends in a line feed has an empty last piece.
pub open spec fn split_lines(s: Seq<char>) -> Seq<Seq<char>>
    decreases s.len(),
{
    if s.len() == 0 {
        seq![Seq::empty()]
    } else {
        let before = split_lines(s.drop_last());
        if s.last() == '\n' {
            before.push(Seq::empty())
        } else {
            before.drop_last().push(before.last().push(s.last()))
        }
    }
}

/// `line` without one carriage return at its end, if it has one.
pub open spec fn strip_carriage_return(line: Seq<char>) -> Seq<char> {
    if line.len() > 0 && line.last() == '\r' {
        line.drop_last()
    } else {
        line
    }
}

/// The logical lines of `s`: a line ends at a line feed or at a carriage
/// return followed by a line feed, a carriage return elsewhere belongs to its
/// line, and the last line needs no line ending (so a text that ends in one
/// has no empty line after it).
pub open spec fn logical_lines(s: Seq<char>) -> Seq<Seq<char>> {
    let pieces = split_lines(s);
    let ended = pieces.drop_last().map_values(|p: Seq<char>| strip_carriage_return(p));
    if pieces.last().len() == 0 {
        ended
    } else {
        ended.push(pieces.last())
    }
}

/// The lines one after another, each followed by a line feed.
pub open spec fn join_terminated(lines: Seq<Seq<char>>) -> Seq<char>
    decreases lines.len(),
{
    if lines.len() == 0 {
        Seq::empty()
    } else {
        join_terminated(lines.drop_last()) + lines.last().push('\n')
    }
}

/// The lines one after another, with a line feed between neighbours.
pub open spec fn join_separated(lines: Seq<Seq<char>>) -> Seq<char>
    decreases lines.len(),
{
    if lines.len() == 0 {
        Seq::empty()
    } else if lines.len() == 1 {
        lines[0]
    } else {
        join_separated(lines.drop_last()).push('\n') + lines.last()
    }
}

/// The number of bytes that `c` takes in UTF-8.
pub open spec fn utf8_len(c: char) -> nat {
    let u = c as u32;
    if u < 0x80 {
        1
    } else if u < 0x800 {
        2
    } else if u < 0x10000 {
        3
    } else {
        4
    }
}

/// The width of the whitespace at the start of `line`, in bytes of UTF-8: a
/// space or a tab counts one, a no-break space two, an ideographic space three.
pub open spec fn indent_width(line: Seq<char>) -> nat
    decreases line.len(),
{
    if line.len() > 0 && is_whitespace(line.first()) {
        utf8_len(line.first()) + indent_width(line.drop_first())
    } else {
        0
    }
}

/// `n` spaces.
pub open spec fn spaces(n: nat) -> Seq<char> {
    Seq::new(n, |i: int| ' ')
}

/// The contents of each line of `lines`.
pub open spec fn line_views(lines: Seq<Vec<char>>) -> Seq<Seq<char>> {
    lines.map_values(|line: Vec<char>| line@)
}

/// Whether none of `lines` holds a line feed.
pub open spec fn no_line_feeds(lines: Seq<Seq<char>>) -> bool {
    forall|i: int| 0 <= i < lines.len() ==> !(#[trigger] lines[i]).contains('\n')
}

/// Whether `s` holds a carriage return directly before a line feed.
pub open spec fn has_crlf(s: Seq<char>) -> bool {
    exists|i: int| 0 <= i && i + 1 < s.len() && #[trigger] s[i] == '\r' && s[i + 1] == '\n'
}

/// How often `c` occurs in `s`.
pub open spec fn count(s: Seq<char>, c: char) -> nat
    decreases s.len(),
{
    if s.len() == 0 {
        0
    } else if s.last() == c {
        count(s.drop_last(), c) + 1
    } else {
        count(s.drop_last(), c)
    }
}

/// How often `c` occurs in all of `lines` together.
pub open spec fn count_in_lines(lines: Seq<Seq<char>>, c: char) -> nat
    decreases lines.len(),
{
    if lines.len() == 0 {
        0
    } else {
        count_in_lines(lines.drop_last(), c) + count(lines.last(), c)
    }
}

/// Splitting always gives at least one piece, and no piece holds a line feed.
pub proof fn lemma_split_lines_shape(s: Seq<char>)
    ensures
        split_lines(s).len() >= 1,
        no_line_feeds(split_lines(s)),
    decreases s.len(),
{
    if s.len() > 0 {
        lemma_split_lines_shape(s.drop_last());
    }
}

/// A text without a line feed, added after `a`, lengthens the last piece of `a`.
pub proof fn lemma_split_lines_append(a: Seq<char>, line: Seq<char>)
    requires
        !line.contains('\n'),
    ensures
        split_lines(a + line) == split_lines(a).drop_last().push(split_lines(a).last() + line),
    decreases line.len(),
{
    if line.len() > 0 {
        let shorter = line.drop_last();
        lemma_split_lines_append(a, shorter);
        assert((a + line).drop_last() == a + shorter);
        assert((split_lines(a).last() + shorter).push(line.last()) == split_lines(a).last()
            + line);
    }
}

/// Lines that are each followed by a line feed split back into themselves
/// and an empty piece after the last line feed.
pub proof fn lemma_split_join_terminated(lines: Seq<Seq<char>>)
    requires
        no_line_feeds(lines),
    ensures
        split_lines(join_terminated(lines)) == lines.push(Seq::empty()),
    decreases lines.len(),
{
    if lines.len() > 0 {
        let front = lines.drop_last();
        let line = lines.last();
        lemma_split_join_terminated(front);
        let joined = join_terminated(front);
        lemma_split_lines_append(joined, line);
        assert((joined + line).push('\n').drop_last() == joined + line);
    }
}

/// Lines that are joined by line feeds split back into themselves.
pub proof fn lemma_split_join_separated(lines: Seq<Seq<char>>)
    requires
        lines.len() >= 1,
        no_line_feeds(lines),
    ensures
        split_lines(join_separated(lines)) == lines,
    decreases lines.len(),
{
    let line = lines.last();
    if lines.len() == 1 {
        lemma_split_lines_append(Seq::empty(), line);
    } else {
        let front = lines.drop_last();
        lemma_split_join_separated(front);
        let joined = join_separated(front).push('\n');
        assert(joined.drop_last() == join_separated(front));
        lemma_split_lines_append(joined, line);
    }
}

/// Trimming at the end leaves a prefix that does not end in whitespace.
pub proof fn lemma_trim_end_shape(s: Seq<char>)
    ensures
        trim_end(s).len() <= s.len(),
        trim_end(s) == s.take(trim_end(s).len() as int),
        trim_end(s).len() > 0 ==> !is_whitespace(trim_end(s).last()),
        trim_end(trim_end(s)) == trim_end(s),
    decreases s.len(),
{
    if s.len() > 0 && is_whitespace(s.last()) {
        lemma_trim_end_shape(s.drop_last());
    }
}

/// Trimming at the start leaves a suffix that does not start with whitespace.
pub proof fn lemma_trim_start_shape(s: Seq<char>)
    ensures
        trim_start(s).len() <= s.len(),
        trim_start(s) == s.skip(s.len() - trim_start(s).len()),
        trim_start(s).len() > 0 ==> !is_whitespace(trim_start(s).first()),
        trim_start(trim_start(s)) == trim_start(s),
    decreases s.len(),
{
    if s.len() > 0 && is_whitespace(s.first()) {
        lemma_trim_start_shape(s.drop_first());
    }
}

/// No logical line holds a line feed.
pub proof fn lemma_logical_lines_shape(s: Seq<char>)
    ensures
        no_line_feeds(logical_lines(s)),
{
    lemma_split_lines_shape(s);
}

/// The pieces of a text, joined by line feeds, are the text.
pub proof fn lemma_join_split(s: Seq<char>)
    ensures
        join_separated(split_lines(s)) == s,
    decreases s.len(),
{
    if s.len() > 0 {
        let front = s.drop_last();
        let before = split_lines(front);
        lemma_join_split(front);
        if s.last() == '\n' {
            assert(before.push(Seq::empty()).drop_last() == before);
        } else {
            let line = before.last().push(s.last());
            let now = before.drop_last().push(line);
            assert(now.drop_last() == before.drop_last());
            if before.len() > 1 {
                let head = join_separated(before.drop_last()).push('\n');
                assert(head + line == (head + before.last()).push(s.last()));
            }
        }
    }
}

/// The occurrences in a text of two parts are those in the parts.
pub proof fn lemma_count_add(a: Seq<char>, b: Seq<char>, c: char)
    ensures
        count(a + b, c) == count(a, c) + count(b, c),
    decreases b.len(),
{
    if b.len() > 0 {
        lemma_count_add(a, b.drop_last(), c);
        assert((a + b).drop_last() == a + b.drop_last());
    }
}

/// A character occurs in a text iff it is counted there.
pub proof fn lemma_count_contains(s: Seq<char>, c: char)
    ensures
        s.contains(c) == (count(s, c) > 0),
    decreases s.len(),
{
    if s.len() > 0 {
        let front = s.drop_last();
        lemma_count_contains(front, c);
        if front.contains(c) {
            let i = choose|i: int| 0 <= i < front.len() && front[i] == c;
            assert(s[i] == c);
        }
        if s.last() == c {
            assert(s[s.len() - 1] == c);
        }
        if s.contains(c) && s.last() != c {
            let i = choose|i: int| 0 <= i < s.len() && s[i] == c;
            assert(front[i] == c);
        }
    }
}

/// Joining by line feeds adds one line feed between neighbours and nothing
/// else: any other character occurs as often as in the lines, and line
/// feeds, where the lines hold none, one time less than there are lines.
pub proof fn lemma_count_join_separated(lines: Seq<Seq<char>>, c: char)
    ensures
        c != '\n' ==> count(join_separated(lines), c) == count_in_lines(lines, c),
        no_line_feeds(lines) && lines.len() >= 1 ==> count(join_separated(lines), '\n')
            == lines.len() - 1,
    decreases lines.len(),
{
    if lines.len() == 1 {
        assert(count_in_lines(lines.drop_last(), c) == 0);
        lemma_count_contains(lines[0], '\n');
    } else if lines.len() > 1 {
        let front = lines.drop_last();
        let head = join_separated(front).push('\n');
        lemma_count_join_separated(front, c);
        lemma_count_add(head, lines.last(), c);
        lemma_count_add(head, lines.last(), '\n');
        assert(head.drop_last() == join_separated(front));
        lemma_count_contains(lines.last(), '\n');
    }
}

/// What a filter keeps holds no more of a character than all the lines.
pub proof fn lemma_count_filter(lines: Seq<Seq<char>>, pred: spec_fn(Seq<char>) -> bool, c: char)
    ensures
        count_in_lines(lines.filter(pred), c) <= count_in_lines(lines, c),
    decreases lines.len(),
{
    reveal(Seq::filter);
    if lines.len() > 0 {
        let front = lines.drop_last();
        lemma_count_filter(front, pred, c);
        if pred(lines.last()) {
            assert(front.filter(pred).push(lines.last()).drop_last() == front.filter(pred));
        }
    }
}

/// Where lines joined by line feeds hold a carriage return before a line
/// feed, a line that is not the last ends in that carriage return.
pub proof fn lemma_crlf_in_joined(lines: Seq<Seq<char>>) -> (i: int)
    requires
        no_line_feeds(lines),
        has_crlf(join_separated(lines)),
    ensures
        0 <= i < lines.len() - 1,
        lines[i].len() > 0,
        lines[i].last() == '\r',
    decreases lines.len(),
{
    let whole = join_separated(lines);
    let p = choose|p: int| 0 <= p && p + 1 < whole.len() && #[trigger] whole[p] == '\r' && whole[p
        + 1] == '\n';
    if lines.len() > 1 && p + 1 < join_separated(lines.drop_last()).len() {
        lemma_crlf_in_joined(lines.drop_last())
    } else {
        lines.len() - 2
    }
}

/// Stripping a carriage return from the end of each line leaves no more
/// carriage returns than there were, and fewer where a line ends in one.
pub proof fn lemma_count_stripped(lines: Seq<Seq<char>>)
    ensures
        count_in_lines(lines.map_values(|p: Seq<char>| strip_carriage_return(p)), '\r')
            <= count_in_lines(lines, '\r'),
        (exists|i: int| 0 <= i < lines.len() && (#[trigger] lines[i]).len() > 0 && lines[i].last()
            == '\r') ==> count_in_lines(
            lines.map_values(|p: Seq<char>| strip_carriage_return(p)),
            '\r',
        ) < count_in_lines(lines, '\r'),
    decreases lines.len(),
{
    let strip = |p: Seq<char>| strip_carriage_return(p);
    if lines.len() > 0 {
        let front = lines.drop_last();
        lemma_count_stripped(front);
        assert(lines.map_values(strip).drop_last() == front.map_values(strip));
        if exists|i: int| 0 <= i < lines.len() && (#[trigger] lines[i]).len() > 0 && lines[i].last()
            == '\r' {
            let i = choose|i: int| 0 <= i < lines.len() && (#[trigger] lines[i]).len() > 0
                && lines[i].last() == '\r';
            if i < front.len() {
                assert(front[i] == lines[i]);
            }
        }
    }
}

/// The logical lines of a text hold no more carriage returns than the text,
/// and fewer where the text holds one before a line feed.
pub proof fn lemma_count_logical_lines(s: Seq<char>)
    ensures
        count_in_lines(logical_lines(s), '\r') <= count(s, '\r'),
        has_crlf(s) ==> count_in_lines(logical_lines(s), '\r') < count(s, '\r'),
{
    let pieces = split_lines(s);
    let ended = pieces.drop_last();
    let strip = |p: Seq<char>| strip_carriage_return(p);
    lemma_split_lines_shape(s);
    lemma_join_split(s);
    lemma_count_join_separated(pieces, '\r');
    lemma_count_stripped(ended);
    assert(ended.map_values(strip).push(pieces.last()).drop_last() == ended.map_values(strip));
    if has_crlf(s) {
        let i = lemma_crlf_in_joined(pieces);
        assert(ended[i] == pieces[i]);
    }
}

/// A text holds a carriage return before a line feed once it is longer.
pub proof fn lemma_has_crlf_prefix(a: Seq<char>, b: Seq<char>)
    requires
        has_crlf(a),
    ensures
        has_crlf(a + b),
{
    let i = choose|i: int| 0 <= i && i + 1 < a.len() && #[trigger] a[i] == '\r' && a[i + 1] == '\n';
    assert((a + b)[i] == '\r' && (a + b)[i + 1] == '\n');
}

/// Joined by line feeds, a line that ends in a carriage return and is not
/// the last puts that carriage return before a line feed.
pub proof fn lemma_join_separated_crlf(lines: Seq<Seq<char>>, i: int)
    requires
        0 <= i < lines.len() - 1,
        lines[i].len() > 0,
        lines[i].last() == '\r',
    ensures
        has_crlf(join_separated(lines)),
    decreases lines.len(),
{
    let front = lines.drop_last();
    let joined = join_separated(front);
    let head = joined.push('\n');
    if i == front.len() - 1 {
        assert(head[joined.len() - 1] == '\r' && head[joined.len() - 1 + 1] == '\n');
    } else {
        lemma_join_separated_crlf(front, i);
        lemma_has_crlf_prefix(joined, seq!['\n']);
        assert(joined + seq!['\n'] == head);
    }
    lemma_has_crlf_prefix(head, lines.last());
}

/// Spaces put before a text that does not start with whitespace are the
/// whole of its leading whitespace.
pub proof fn lemma_indented(n: nat, rest: Seq<char>)
    requires
        rest.len() > 0 ==> !is_whitespace(rest.first()),
    ensures
        trim_start(spaces(n) + rest) == rest,
        indent_width(spaces(n) + rest) == n,
    decreases n,
{
    if n > 0 {
        assert((spaces(n) + rest).drop_first() == spaces((n - 1) as nat) + rest);
        lemma_indented((n - 1) as nat, rest);
    }
}

/// What a filter keeps satisfies the predicate and comes from the sequence.
pub proof fn lemma_filter_members<A>(s: Seq<A>, pred: spec_fn(A) -> bool)
    ensures
        forall|i: int|
            0 <= i < s.filter(pred).len() ==> pred(#[trigger] s.filter(pred)[i]) && s.contains(
                s.filter(pred)[i],
            ),
    decreases s.len(),
{
    reveal(Seq::filter);
    if s.len() > 0 {
        let front = s.drop_last();
        lemma_filter_members(front, pred);
        let kept = s.filter(pred);
        assert forall|i: int| 0 <= i < kept.len() implies pred(#[trigger] kept[i]) && s.contains(
            kept[i],
        ) by {
            if i < front.filter(pred).len() {
                let j = choose|j: int| 0 <= j < front.len() && front[j] == front.filter(pred)[i];
                assert(s[j] == kept[i]);
            }
        }
    }
}

/// A filter keeps a sequence whole iff every element satisfies the predicate.
pub proof fn lemma_filter_all<A>(s: Seq<A>, pred: spec_fn(A) -> bool)
    ensures
        (s.filter(pred) == s) <==> (forall|i: int| 0 <= i < s.len() ==> pred(#[trigger] s[i])),
    decreases s.len(),
{
    reveal(Seq::filter);
    if s.len() > 0 {
        let front = s.drop_last();
        lemma_filter_all(front, pred);
        if forall|i: int| 0 <= i < s.len() ==> pred(#[trigger] s[i]) {
            assert(front.push(s.last()) == s);
        }
    }
}

/// Whether `c` is white space as Unicode defines it.
pub fn char_is_whitespace(c: char) -> (r: bool)
    ensures
        r == is_whitespace(c),
{
    let u: u32 = c as u32;
    (0x09 <= u && u <= 0x0D) || u == 0x20 || u == 0x85 || u == 0xA0 || u == 0x1680 || (0x2000 <= u
        && u <= 0x200A) || u == 0x2028 || u == 0x2029 || u == 0x202F || u == 0x205F || u == 0x3000
}

/// `std::string::String::push`: the character is added at the end.
pub assume_specification[ String::push ](s: &mut String, c: char)
    ensures
        final(s)@ == old(s)@.push(c),
;

/// The characters of `s`.
pub fn to_chars(s: &str) -> (v: Vec<char>)
    ensures
        v@ == s@,
{
    let mut v: Vec<char> = Vec::new();
    let chars = s.chars();
    for c in iter: chars
        invariant
            iter.seq() == s@,
            v@ == s@.take(iter.index()),
    {
        v.push(c);
    }
    v
}

/// Adds the characters `src[from..to]` at the end of `out`.
pub fn push_range(out: &mut String, src: &Vec<char>, from: usize, to: usize)
    requires
        from <= to <= src.len(),
    ensures
        final(out)@ == old(out)@ + src@.subrange(from as int, to as int),
{
    let mut i: usize = from;
    while i < to
        invariant
            from <= i <= to <= src.len(),
            out@ == old(out)@ + src@.subrange(from as int, i as int),
        decreases to - i,
    {
        out.push(src[i]);
        i += 1;
    }
}

/// Adds `s` at the end of `out`.
pub fn push_text(out: &mut String, s: &str)
    ensures
        final(out)@ == old(out)@ + s@,
{
    let chars = to_chars(s);
    push_range(out, &chars, 0, chars.len());
}

/// The number of characters of `line` before its trailing whitespace.
pub fn trim_end_len(line: &Vec<char>) -> (n: usize)
    ensures
        n <= line.len(),
        line@.take(n as int) == trim_end(line@),
{
    let mut n: usize = line.len();
    proof {
        assert(line@.take(n as int) == line@);
    }
    while n > 0 && char_is_whitespace(line[n - 1])
        invariant
            n <= line.len(),
            trim_end(line@.take(n as int)) == trim_end(line@),
        decreases n,
    {
        proof {
            assert(line@.take(n as int).drop_last() == line@.take(n - 1));
        }
        n -= 1;
    }
    n
}

/// The number of whitespace characters at the start of `line`.
pub fn trim_start_len(line: &Vec<char>) -> (n: usize)
    ensures
        n <= line.len(),
        line@.skip(n as int) == trim_start(line@),
        forall|i: int| 0 <= i < n ==> is_whitespace(#[trigger] line@[i]),
{
    let mut n: usize = 0;
    proof {
        assert(line@.skip(0) == line@);
    }
    while n < line.len() && char_is_whitespace(line[n])
        invariant
            n <= line.len(),
            trim_start(line@.skip(n as int)) == trim_start(line@),
            forall|i: int| 0 <= i < n ==> is_whitespace(#[trigger] line@[i]),
        decreases line.len() - n,
    {
        proof {
            assert(line@.skip(n as int).drop_first() == line@.skip(n + 1));
        }
        n += 1;
    }
    n
}

/// The bounds of `line` without the whitespace at either end.
pub fn trim_bounds(line: &Vec<char>) -> (r: (usize, usize))
    ensures
        r.0 <= r.1 <= line.len(),
        line@.subrange(r.0 as int, r.1 as int) == trim(line@),
{
    let start = trim_start_len(line);
    let mut end: usize = line.len();
    while end > start && char_is_whitespace(line[end - 1])
        invariant
            start <= end <= line.len(),
            trim_end(line@.subrange(start as int, end as int)) == trim(line@),
        decreases end,
    {
        proof {
            assert(line@.subrange(start as int, end as int).drop_last() == line@.subrange(
                start as int,
                end - 1,
            ));
        }
        end -= 1;
    }
    (start, end)
}

/// Measures the whitespace at the start of `line`: how many characters it
/// has, how many bytes of UTF-8, and whether all of it is spaces.
pub fn measure_indent(line: &Vec<char>) -> (r: (usize, u128, bool))
    ensures
        r.0 <= line.len(),
        line@.skip(r.0 as int) == trim_start(line@),
        r.1 == indent_width(line@),
        r.1 <= 3 * r.0,
        r.2 == (line@.take(r.0 as int) == spaces(r.0 as nat)),
        r.2 ==> r.1 == r.0,
{
    let mut n: usize = 0;
    let mut width: u128 = 0;
    let mut only_spaces = true;
    proof {
        assert(line@.skip(0) == line@);
        assert(line@.take(0) == spaces(0));
    }
    while n < line.len() && char_is_whitespace(line[n])
        invariant
            n <= line.len(),
            trim_start(line@.skip(n as int)) == trim_start(line@),
            width + indent_width(line@.skip(n as int)) == indent_width(line@),
            width <= 3 * n,
            only_spaces == (line@.take(n as int) == spaces(n as nat)),
            only_spaces ==> width == n,
        decreases line.len() - n,
    {
        let c = line[n];
        let u: u32 = c as u32;
        proof {
            assert(line@.skip(n as int).drop_first() == line@.skip(n + 1));
            assert(line@.take(n + 1) == line@.take(n as int).push(c));
            assert(spaces((n + 1) as nat) == spaces(n as nat).push(' '));
            if line@.take(n + 1) == spaces((n + 1) as nat) {
                assert(line@.take(n + 1).drop_last() == line@.take(n as int));
                assert(spaces((n + 1) as nat).drop_last() == spaces(n as nat));
                assert(line@.take(n + 1).last() == ' ');
            }
        }
        if u < 0x80 {
            width = width + 1;
        } else if u < 0x800 {
            width = width + 2;
        } else {
            width = width + 3;
        }
        if c != ' ' {
            only_spaces = false;
        }
        n += 1;
    }
    (n, width, only_spaces)
}

/// Adds `n` spaces at the end of `out`.
pub fn push_spaces(out: &mut String, n: u128)
    ensures
        final(out)@ == old(out)@ + spaces(n as nat),
{
    let mut i: u128 = 0;
    while i < n
        invariant
            i <= n,
            out@ == old(out)@ + spaces(i as nat),
        decreases n - i,
    {
        out.push(' ');
        i += 1;
    }
}

/// Splits a text at its line feeds.
pub fn to_lines(text: &Vec<char>) -> (lines: Vec<Vec<char>>)
    ensures
        line_views(lines@) == split_lines(text@),
{
    let mut lines: Vec<Vec<char>> = Vec::new();
    let mut current: Vec<char> = Vec::new();
    let mut i: usize = 0;
    while i < text.len()
        invariant
            i <= text.len(),
            line_views(lines@) == split_lines(text@.take(i as int)).drop_last(),
            current@ == split_lines(text@.take(i as int)).last(),
            split_lines(text@.take(i as int)).len() > 0,
        decreases text.len() - i,
    {
        let c = text[i];
        proof {
            assert(text@.take(i + 1).drop_last() == text@.take(i as int));
        }
        if c == '\n' {
            proof {
                assert(line_views(lines@.push(current)) == line_views(lines@).push(current@));
            }
            lines.push(current);
            current = Vec::new();
        } else {
            current.push(c);
        }
        i += 1;
    }
    proof {
        assert(text@.take(i as int) == text@);
        assert(line_views(lines@.push(current)) == line_views(lines@).push(current@));
    }
    lines.push(current);
    lines
}

/// Splits a text into its logical lines.
pub fn to_logical_lines(text: &Vec<char>) -> (lines: Vec<Vec<char>>)
    ensures
        line_views(lines@) == logical_lines(text@),
{
    let mut lines: Vec<Vec<char>> = Vec::new();
    let mut current: Vec<char> = Vec::new();
    let mut i: usize = 0;
    while i < text.len()
        invariant
            i <= text.len(),
            line_views(lines@) == split_lines(text@.take(i as int)).drop_last().map_values(
                |p: Seq<char>| strip_carriage_return(p),
            ),
            current@ == split_lines(text@.take(i as int)).last(),
            split_lines(text@.take(i as int)).len() > 0,
        decreases text.len() - i,
    {
        let c = text[i];
        proof {
            assert(text@.take(i + 1).drop_last() == text@.take(i as int));
        }
        if c == '\n' {
            let n = current.len();
            if n > 0 && current[n - 1] == '\r' {
                current.pop();
            }
            proof {
                let before = split_lines(text@.take(i as int));
                assert(before.push(Seq::empty()).drop_last() == before);
                assert(before.map_values(|p: Seq<char>| strip_carriage_return(p))
                    == before.drop_last().map_values(|p: Seq<char>| strip_carriage_return(p)).push(
                    strip_carriage_return(before.last()),
                ));
            }
            lines.push(current);
            current = Vec::new();
        } else {
            current.push(c);
        }
        i += 1;
    }
    proof {
        assert(text@.take(i as int) == text@);
    }
    if current.len() > 0 {
        lines.push(current);
    }
    lines
}

} // verus!
