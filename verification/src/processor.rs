//! The six stages. Each takes the content of a file and its descriptor and
//! gives back the new content and the descriptor, marked iff the stage
//! changed something. A stage reads nothing but its arguments.

use crate::constants::{
    compile, is_match, regex_pattern, starts_with_comment_marker, COMMENT_PATTERN,
};
use crate::text::{
    indent_width, is_blank, join_separated, join_terminated, line_views, logical_lines,
    measure_indent, push_range, push_spaces, spaces, split_lines, to_chars, to_lines,
    to_logical_lines, trim, trim_bounds, trim_end, trim_end_len, trim_start,
};
use crate::utils::File;
use regex::Regex;
use vstd::prelude::*;

verus! {

/// The quote character that a text is unified to.
#[derive(Clone, Copy, Debug, PartialEq, Eq, Structural)]
pub enum QuoteStyle {
    /// The apostrophe, `'`.
    Single,
    /// The quotation mark, `"`.
    Double,
}

impl QuoteStyle {
    /// The quote character of this style.
    pub open spec fn target(self) -> char {
        match self {
            QuoteStyle::Single => '\'',
            QuoteStyle::Double => '"',
        }
    }

    /// The quote character of the other style, which is rewritten.
    pub open spec fn replaced(self) -> char {
        match self {
            QuoteStyle::Single => '"',
            QuoteStyle::Double => '\'',
        }
    }
}

/// `std::io::Error`, the error type of the stages' results. No stage makes
/// one; the verifier sees nothing inside it.
#[verifier::external_type_specification]
#[verifier::external_body]
pub struct ExIoError(std::io::Error);

/// Whether `line` is a comment line: without the whitespace at its ends it
/// starts with `//`, `@`, `#` or `--`.
pub open spec fn is_comment_line(line: Seq<char>) -> bool {
    starts_with_comment_marker(trim(line))
}

/// The lines of `s` that are no comment lines, in order.
pub open spec fn lines_without_comments(s: Seq<char>) -> Seq<Seq<char>> {
    split_lines(s).filter(|line: Seq<char>| !is_comment_line(line))
}

/// The text after its comment lines are removed: each remaining line
/// followed by a line feed.
pub open spec fn without_comments(s: Seq<char>) -> Seq<char> {
    join_terminated(lines_without_comments(s))
}

/// Whether some line of `s` is a comment line.
pub open spec fn has_comment_line(s: Seq<char>) -> bool {
    exists|i: int| 0 <= i < split_lines(s).len() && is_comment_line(#[trigger] split_lines(s)[i])
}

/// The matcher for comment lines.
fn comment_matcher() -> (re: Regex)
    ensures
        regex_pattern(re) == COMMENT_PATTERN@,
{
    compile(COMMENT_PATTERN).unwrap()
}

/// Drops every comment line. The lines are the pieces between line feeds. A
/// line that is kept is written back as it was with a line feed after it, the
/// last one too. The descriptor is marked iff a line was dropped.
pub fn remove_comments(content: String, file: File) -> (r: Result<(String, File), std::io::Error>)
    ensures
        r matches Ok((text, f)) && text@ == without_comments(content@) && f@ == file@.marked(
            has_comment_line(content@),
        ) && f.path == file.path,
{
    let matcher = comment_matcher();
    let chars = to_chars(content.as_str());
    let lines = to_lines(&chars);
    let ghost all = split_lines(content@);
    let ghost keep = |line: Seq<char>| !is_comment_line(line);
    let mut text = String::new();
    let mut dropped = false;
    let mut k: usize = 0;
    while k < lines.len()
        invariant
            k <= lines.len(),
            line_views(lines@) == all,
            keep == |line: Seq<char>| !is_comment_line(line),
            regex_pattern(matcher) == COMMENT_PATTERN@,
            text@ == join_terminated(all.take(k as int).filter(keep)),
            dropped == exists|i: int| 0 <= i < k && is_comment_line(#[trigger] all[i]),
        decreases lines.len() - k,
    {
        let line = &lines[k];
        let (start, end) = trim_bounds(line);
        let mut trimmed = String::new();
        push_range(&mut trimmed, line, start, end);
        let is_comment = is_match(&matcher, trimmed.as_str());
        proof {
            let before = all.take(k as int);
            assert(line@ == all[k as int]);
            assert(all.take(k + 1) == before.push(line@));
            before.lemma_filter_push(line@, keep);
            if !is_comment {
                assert(before.filter(keep).push(line@).drop_last() == before.filter(keep));
            }
        }
        if is_comment {
            dropped = true;
        } else {
            push_range(&mut text, line, 0, line.len());
            text.push('\n');
        }
        k += 1;
    }
    proof {
        assert(all.take(k as int) == all);
    }
    Ok((text, file.mark(dropped)))
}

/// The logical lines of `s` that hold more than whitespace, in order.
pub open spec fn lines_with_content(s: Seq<char>) -> Seq<Seq<char>> {
    logical_lines(s).filter(|line: Seq<char>| !is_blank(line))
}

/// The text after its empty lines are removed: the remaining logical lines
/// with a line feed between neighbours.
pub open spec fn without_empty_lines(s: Seq<char>) -> Seq<char> {
    join_separated(lines_with_content(s))
}

/// Drops every logical line that is empty or holds only whitespace, and joins
/// the others with line feeds, with none after the last. The descriptor is
/// marked iff the result differs from the content.
pub fn remove_empty_lines(content: String, file: File) -> (r: Result<
    (String, File),
    std::io::Error,
>)
    ensures
        r matches Ok((text, f)) && text@ == without_empty_lines(content@) && f@ == file@.marked(
            without_empty_lines(content@) != content@,
        ) && f.path == file.path,
{
    let chars = to_chars(content.as_str());
    let lines = to_logical_lines(&chars);
    let ghost all = logical_lines(content@);
    let ghost keep = |line: Seq<char>| !is_blank(line);
    let mut text = String::new();
    let mut any_kept = false;
    let mut k: usize = 0;
    while k < lines.len()
        invariant
            k <= lines.len(),
            line_views(lines@) == all,
            keep == |line: Seq<char>| !is_blank(line),
            text@ == join_separated(all.take(k as int).filter(keep)),
            any_kept == (all.take(k as int).filter(keep).len() > 0),
        decreases lines.len() - k,
    {
        let line = &lines[k];
        let (start, end) = trim_bounds(line);
        proof {
            let before = all.take(k as int);
            assert(all.take(k + 1) == before.push(line@));
            before.lemma_filter_push(line@, keep);
            assert(before.filter(keep).push(line@).drop_last() == before.filter(keep));
        }
        if start != end {
            if any_kept {
                text.push('\n');
            }
            push_range(&mut text, line, 0, line.len());
            any_kept = true;
        }
        k += 1;
    }
    proof {
        assert(all.take(k as int) == all);
    }
    let changed = text != content;
    Ok((text, file.mark(changed)))
}

/// The lines of `s`, each without its trailing whitespace.
pub open spec fn right_trimmed_lines(s: Seq<char>) -> Seq<Seq<char>> {
    split_lines(s).map_values(|line: Seq<char>| trim_end(line))
}

/// The text after its trailing whitespace is removed: each line trimmed at
/// its end and followed by a line feed.
pub open spec fn without_trailing_spaces(s: Seq<char>) -> Seq<char> {
    join_terminated(right_trimmed_lines(s))
}

/// Whether some line of `s` ends in whitespace, so that trimming changes it.
pub open spec fn has_trailing_space(s: Seq<char>) -> bool {
    exists|i: int|
        0 <= i < split_lines(s).len() && trim_end(#[trigger] split_lines(s)[i]) != split_lines(
            s,
        )[i]
}

/// Strips the whitespace at the end of every line. The lines are the pieces
/// between line feeds, and each is written back with a line feed after it,
/// the last one too. The descriptor is marked iff a line lost something.
pub fn remove_trailing_spaces(content: String, file: File) -> (r: Result<
    (String, File),
    std::io::Error,
>)
    ensures
        r matches Ok((text, f)) && text@ == without_trailing_spaces(content@) && f@
            == file@.marked(has_trailing_space(content@)) && f.path == file.path,
{
    let chars = to_chars(content.as_str());
    let lines = to_lines(&chars);
    let ghost all = split_lines(content@);
    let ghost trimmed = right_trimmed_lines(content@);
    let mut text = String::new();
    let mut changed = false;
    let mut k: usize = 0;
    while k < lines.len()
        invariant
            k <= lines.len(),
            line_views(lines@) == all,
            trimmed == all.map_values(|line: Seq<char>| trim_end(line)),
            text@ == join_terminated(trimmed.take(k as int)),
            changed == exists|i: int| 0 <= i < k && trim_end(#[trigger] all[i]) != all[i],
        decreases lines.len() - k,
    {
        let line = &lines[k];
        let n = trim_end_len(line);
        proof {
            assert(trimmed.take(k + 1).drop_last() == trimmed.take(k as int));
            if n == line.len() {
                assert(line@.take(n as int) == line@);
            }
        }
        if n != line.len() {
            changed = true;
        }
        push_range(&mut text, line, 0, n);
        text.push('\n');
        k += 1;
    }
    proof {
        assert(trimmed.take(k as int) == trimmed);
    }
    Ok((text, file.mark(changed)))
}

/// Whether a scan of `s` from its start ends inside a brace pair: an opening
/// brace sets the flag, a closing brace clears it, and so does a line feed.
pub open spec fn inside_braces(s: Seq<char>) -> bool
    decreases s.len(),
{
    if s.len() == 0 {
        false
    } else if s.last() == '{' {
        true
    } else if s.last() == '}' || s.last() == '\n' {
        false
    } else {
        inside_braces(s.drop_last())
    }
}

/// Whether the character at index `i` of `s` is a brace that gets a space:
/// an opening brace met outside a pair, or a closing brace met inside one.
pub open spec fn is_spaced_brace(s: Seq<char>, i: int) -> bool {
    ||| s[i] == '{' && !inside_braces(s.take(i))
    ||| s[i] == '}' && inside_braces(s.take(i))
}

/// Whether bracket spacing rewrites any character of `s`.
pub open spec fn has_spaced_brace(s: Seq<char>) -> bool {
    exists|i: int| 0 <= i < s.len() && is_spaced_brace(s, i)
}

/// `s` with `"{ "` for each opening brace met outside a pair and `" }"` for
/// each closing brace met inside one; every other character stays.
pub open spec fn space_braces(s: Seq<char>) -> Seq<char>
    decreases s.len(),
{
    if s.len() == 0 {
        s
    } else {
        let before = s.drop_last();
        let c = s.last();
        if c == '{' && !inside_braces(before) {
            space_braces(before).push('{').push(' ')
        } else if c == '}' && inside_braces(before) {
            space_braces(before).push(' ').push('}')
        } else {
            space_braces(before).push(c)
        }
    }
}

/// The text after bracket spacing: the braces spaced, and one line feed
/// added at the end.
pub open spec fn with_spaced_braces(s: Seq<char>) -> Seq<char> {
    space_braces(s).push('\n')
}

/// A character added at the end leaves the braces before it as they were:
/// something is rewritten iff something was, or the new character is.
pub proof fn lemma_spaced_brace_push(s: Seq<char>, c: char)
    ensures
        has_spaced_brace(s.push(c)) == (has_spaced_brace(s) || is_spaced_brace(
            s.push(c),
            s.len() as int,
        )),
{
    let t = s.push(c);
    assert forall|j: int| 0 <= j < s.len() implies is_spaced_brace(t, j) == is_spaced_brace(
        s,
        j,
    ) by {
        assert(t.take(j) == s.take(j));
    }
}

/// Puts a space after an opening brace and before the closing brace that
/// follows it on the same line. The scan goes character by character with
/// one flag, which a line feed clears, so a pair that spans lines is left
/// alone. The result ends in one more line feed than the content. The
/// descriptor is marked iff a brace was rewritten.
pub fn fix_bracket_spacing(content: String, file: File) -> (r: Result<
    (String, File),
    std::io::Error,
>)
    ensures
        r matches Ok((text, f)) && text@ == with_spaced_braces(content@) && f@ == file@.marked(
            has_spaced_brace(content@),
        ) && f.path == file.path,
{
    let chars = to_chars(content.as_str());
    let mut text = String::new();
    let mut inside = false;
    let mut changed = false;
    let mut i: usize = 0;
    while i < chars.len()
        invariant
            i <= chars.len(),
            text@ == space_braces(chars@.take(i as int)),
            inside == inside_braces(chars@.take(i as int)),
            changed == has_spaced_brace(chars@.take(i as int)),
        decreases chars.len() - i,
    {
        let c = chars[i];
        proof {
            let before = chars@.take(i as int);
            assert(chars@.take(i + 1) == before.push(c));
            assert(before.push(c).take(i as int) == before);
            lemma_spaced_brace_push(before, c);
        }
        if c == '{' && !inside {
            text.push('{');
            text.push(' ');
            inside = true;
            changed = true;
        } else if c == '}' && inside {
            text.push(' ');
            text.push('}');
            inside = false;
            changed = true;
        } else {
            text.push(c);
            if c == '\n' {
                inside = false;
            }
        }
        i += 1;
    }
    proof {
        assert(chars@.take(i as int) == chars@);
    }
    text.push('\n');
    Ok((text, file.mark(changed)))
}

/// `s` with every quote of the other style turned into one of `style`.
pub open spec fn restyle_quotes(s: Seq<char>, style: QuoteStyle) -> Seq<char> {
    s.map_values(
        |c: char|
            if c == style.replaced() {
                style.target()
            } else {
                c
            },
    )
}

/// Whether `s` holds a quote of the style that `style` replaces.
pub open spec fn has_other_quote(s: Seq<char>, style: QuoteStyle) -> bool {
    s.contains(style.replaced())
}

/// Turns every quote character of the other style into the one of
/// `quote_style`. The descriptor is marked iff a character was rewritten.
pub fn fix_quote_style(content: String, file: File, quote_style: QuoteStyle) -> (r: Result<
    (String, File),
    std::io::Error,
>)
    ensures
        r matches Ok((text, f)) && text@ == restyle_quotes(content@, quote_style) && f@
            == file@.marked(has_other_quote(content@, quote_style)) && f.path == file.path,
{
    let (from, to) = match quote_style {
        QuoteStyle::Single => ('"', '\''),
        QuoteStyle::Double => ('\'', '"'),
    };
    let chars = to_chars(content.as_str());
    let mut text = String::new();
    let mut changed = false;
    let mut i: usize = 0;
    while i < chars.len()
        invariant
            i <= chars.len(),
            from == quote_style.replaced(),
            to == quote_style.target(),
            text@ == restyle_quotes(chars@.take(i as int), quote_style),
            changed == chars@.take(i as int).contains(from),
        decreases chars.len() - i,
    {
        let c = chars[i];
        proof {
            let before = chars@.take(i as int);
            assert(chars@.take(i + 1) == before.push(c));
            if c == from {
                assert(before.push(c)[i as int] == from);
            }
        }
        if c == from {
            text.push(to);
            changed = true;
        } else {
            text.push(c);
        }
        i += 1;
    }
    proof {
        assert(chars@.take(i as int) == chars@);
    }
    Ok((text, file.mark(changed)))
}

/// Whether the first character of `line` after its leading whitespace is a
/// closing bracket: `}`, `]` or `)`.
pub open spec fn starts_with_closer(line: Seq<char>) -> bool {
    let rest = trim_start(line);
    rest.len() > 0 && (rest[0] == '}' || rest[0] == ']' || rest[0] == ')')
}

/// The depth that `line` is written at when the depth before it is `depth`.
/// The line's own level is the width of its leading whitespace divided by
/// `size`, rounded down. A line that starts with a closing bracket takes its
/// own level if that is lower, any other line if it is higher.
pub open spec fn next_depth(depth: nat, line: Seq<char>, size: nat) -> nat {
    let level = indent_width(line) / size;
    if starts_with_closer(line) {
        if level < depth {
            level
        } else {
            depth
        }
    } else if level > depth {
        level
    } else {
        depth
    }
}

/// The depth that the last of `lines` is written at; 0 where there is none.
pub open spec fn depth_after(lines: Seq<Seq<char>>, size: nat) -> nat
    decreases lines.len(),
{
    if lines.len() == 0 {
        0
    } else {
        next_depth(depth_after(lines.drop_last(), size), lines.last(), size)
    }
}

/// Line `k` of `lines` with `size` spaces for each level of its depth in
/// place of its leading whitespace.
pub open spec fn reindented_line(lines: Seq<Seq<char>>, k: int, size: nat) -> Seq<char> {
    spaces(size * depth_after(lines.take(k + 1), size)) + trim_start(lines[k])
}

/// Every line of `lines` re-indented.
pub open spec fn reindented_lines(lines: Seq<Seq<char>>, size: nat) -> Seq<Seq<char>> {
    Seq::new(lines.len(), |k: int| reindented_line(lines, k, size))
}

/// The text after re-indentation: the logical lines re-indented, with a
/// line feed between neighbours.
pub open spec fn reindented(s: Seq<char>, size: nat) -> Seq<char> {
    join_separated(reindented_lines(logical_lines(s), size))
}

/// Whether re-indentation writes some line of `s` otherwise than it is.
pub open spec fn indentation_changes(s: Seq<char>, size: nat) -> bool {
    let lines = logical_lines(s);
    exists|k: int| 0 <= k < lines.len() && #[trigger] reindented_line(lines, k, size) != lines[k]
}

/// Gives each logical line `indent_size` spaces for each level of the depth
/// tracked so far, in place of its leading whitespace. The depth starts at 0
/// and follows [`next_depth`] from line to line. The lines are joined with
/// line feeds, with none after the last. The descriptor is marked iff a line
/// was written otherwise than it was.
pub fn fix_indentation(content: String, indent_size: u8, file: File) -> (r: Result<
    (String, File),
    std::io::Error,
>)
    requires
        indent_size > 0,
    ensures
        r matches Ok((text, f)) && text@ == reindented(content@, indent_size as nat) && f@
            == file@.marked(indentation_changes(content@, indent_size as nat)) && f.path
            == file.path,
{
    let chars = to_chars(content.as_str());
    let lines = to_logical_lines(&chars);
    let size: u128 = indent_size as u128;
    let ghost all = logical_lines(content@);
    let ghost done = reindented_lines(all, size as nat);
    let mut text = String::new();
    let mut changed = false;
    let mut depth: u128 = 0;
    let mut k: usize = 0;
    while k < lines.len()
        invariant
            k <= lines.len(),
            0 < size <= 255,
            line_views(lines@) == all,
            done == reindented_lines(all, size as nat),
            depth == depth_after(all.take(k as int), size as nat),
            depth <= 3 * usize::MAX,
            text@ == join_separated(done.take(k as int)),
            changed == exists|i: int|
                0 <= i < k && #[trigger] reindented_line(all, i, size as nat) != all[i],
        decreases lines.len() - k,
    {
        let line = &lines[k];
        let (start, width, only_spaces) = measure_indent(line);
        let level: u128 = width / size;
        let closer = start < line.len() && (line[start] == '}' || line[start] == ']' || line[start]
            == ')');
        if closer {
            if level < depth {
                depth = level;
            }
        } else if level > depth {
            depth = level;
        }
        proof {
            assert(size * depth <= 255 * (3 * 0xFFFF_FFFF_FFFF_FFFF)) by (nonlinear_arith)
                requires
                    size <= 255,
                    depth <= 3 * 0xFFFF_FFFF_FFFF_FFFF,
            ;
        }
        let indent: u128 = size * depth;
        proof {
            let written = reindented_line(all, k as int, size as nat);
            assert(all.take(k + 1).drop_last() == all.take(k as int));
            assert(done.take(k + 1).drop_last() == done.take(k as int));
            if only_spaces && indent == start {
                assert(written == line@);
            } else if written == line@ {
                assert(written.take(start as int) == spaces(indent as nat));
            }
        }
        if !(only_spaces && indent == start as u128) {
            changed = true;
        }
        if k > 0 {
            text.push('\n');
        }
        push_spaces(&mut text, indent);
        push_range(&mut text, line, start, line.len());
        k += 1;
    }
    proof {
        assert(done.take(k as int) == done);
    }
    Ok((text, file.mark(changed)))
}

} // verus!
