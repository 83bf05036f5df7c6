//! What holds of the stages, the catalogue and the run beyond the contract
//! of each function: what a second pass of a stage does, that two stages
//! work line by line, that the catalogue is determined by the walk, and that
//! a run that has ended stays ended.

use crate::config::Stages;
use crate::processor::{
    depth_after, has_comment_line, has_other_quote, has_spaced_brace, has_trailing_space,
    indentation_changes, inside_braces, is_comment_line, lemma_spaced_brace_push,
    lines_with_content, lines_without_comments, reindented, reindented_lines, restyle_quotes,
    right_trimmed_lines, space_braces, with_spaced_braces, without_comments,
    without_empty_lines, without_trailing_spaces, QuoteStyle,
};
use crate::text::{
    count, count_in_lines, has_crlf, is_blank, join_separated, join_terminated, lemma_count_add,
    lemma_count_contains, lemma_count_filter, lemma_count_join_separated,
    lemma_count_logical_lines, lemma_filter_all, lemma_filter_members, lemma_indented,
    lemma_join_split, lemma_join_separated_crlf, lemma_logical_lines_shape,
    lemma_split_join_separated, lemma_split_join_terminated, lemma_split_lines_shape,
    lemma_trim_end_shape, lemma_trim_start_shape, logical_lines, no_line_feeds, spaces,
    split_lines, strip_carriage_return, trim_end, trim_start,
};
use crate::utils::{
    discovered, entry_views, file_views, is_catalogue_of, name_views, Entry, EntryView, File,
    FileView,
};
use crate::{follows, staged, Action, Event, RunError, RunState, Staged};
use vstd::prelude::*;

verus! {

/// Removing the comments of a text that has been through it already drops no
/// line. The text is not the same afterwards: it has one more line feed at
/// its end, since the stage writes one after every line and the text it is
/// given ends in one.
pub proof fn lemma_remove_comments_again(s: Seq<char>)
    ensures
        !has_comment_line(without_comments(s)),
        without_comments(without_comments(s)) == without_comments(s).push('\n'),
{
    let keep = |line: Seq<char>| !is_comment_line(line);
    let all = split_lines(s);
    let kept = lines_without_comments(s);
    lemma_split_lines_shape(s);
    lemma_filter_members(all, keep);
    lemma_split_join_terminated(kept);
    let again = kept.push(Seq::empty());
    lemma_filter_all(again, keep);
    assert(again.drop_last() == kept);
}

/// Removing the trailing whitespace of a text that has been through it
/// already changes no line. The text is not the same afterwards: it has one
/// more line feed at its end, since the stage writes one after every line and
/// the text it is given ends in one.
pub proof fn lemma_remove_trailing_spaces_again(s: Seq<char>)
    ensures
        !has_trailing_space(without_trailing_spaces(s)),
        without_trailing_spaces(without_trailing_spaces(s)) == without_trailing_spaces(s).push(
            '\n',
        ),
{
    let all = split_lines(s);
    let trimmed = right_trimmed_lines(s);
    lemma_split_lines_shape(s);
    assert(no_line_feeds(trimmed)) by {
        assert forall|i: int| 0 <= i < trimmed.len() implies !(#[trigger] trimmed[i]).contains(
            '\n',
        ) by {
            lemma_trim_end_shape(all[i]);
        }
    }
    lemma_split_join_terminated(trimmed);
    let again = trimmed.push(Seq::empty());
    assert forall|i: int| 0 <= i < again.len() implies trim_end(#[trigger] again[i])
        == again[i] by {
        if i < trimmed.len() {
            lemma_trim_end_shape(all[i]);
        }
    }
    assert(right_trimmed_lines(without_trailing_spaces(s)) == again);
    assert(again.drop_last() == trimmed);
}

/// A text without an opening brace is scanned outside a pair throughout, and
/// no brace of it is spaced.
pub proof fn lemma_space_braces_without_opening(s: Seq<char>)
    requires
        !s.contains('{'),
    ensures
        !inside_braces(s),
        space_braces(s) == s,
    decreases s.len(),
{
    if s.len() > 0 {
        lemma_space_braces_without_opening(s.drop_last());
    }
}

/// Bracket spacing rewrites something iff the text holds an opening brace:
/// the first one on a line is met outside a pair, and a closing brace is
/// only rewritten after one.
pub proof fn lemma_spaced_brace_iff_opening(s: Seq<char>)
    ensures
        has_spaced_brace(s) == s.contains('{'),
    decreases s.len(),
{
    if s.len() > 0 {
        let front = s.drop_last();
        assert(front.push(s.last()) == s);
        lemma_spaced_brace_iff_opening(front);
        lemma_spaced_brace_push(front, s.last());
        if !front.contains('{') {
            lemma_space_braces_without_opening(front);
        }
    }
}

/// Bracket spacing on a text that it has been through already rewrites
/// nothing iff the text had no opening brace to start with; it then adds only
/// its line feed, each time. (With an opening brace the second pass spaces
/// that brace again.)
pub proof fn lemma_fix_bracket_spacing_again(s: Seq<char>)
    ensures
        has_spaced_brace(with_spaced_braces(s)) == s.contains('{'),
        !s.contains('{') ==> with_spaced_braces(s) == s.push('\n') && with_spaced_braces(
            with_spaced_braces(s),
        ) == with_spaced_braces(s).push('\n'),
{
    let once = with_spaced_braces(s);
    lemma_spaced_brace_iff_opening(once);
    lemma_space_braces_keeps_opening(s);
    assert(once.contains('{') == space_braces(s).contains('{')) by {
        let t = space_braces(s);
        if t.contains('{') {
            let j = choose|j: int| 0 <= j < t.len() && t[j] == '{';
            assert(once[j] == '{');
        }
    }
    if !s.contains('{') {
        lemma_space_braces_without_opening(s);
        lemma_space_braces_without_opening(once);
    }
}

/// Spacing neither adds nor removes an opening brace.
pub proof fn lemma_space_braces_keeps_opening(s: Seq<char>)
    ensures
        space_braces(s).contains('{') == s.contains('{'),
    decreases s.len(),
{
    if s.len() > 0 {
        let front = s.drop_last();
        let c = s.last();
        let done = space_braces(front);
        let out = space_braces(s);
        lemma_space_braces_keeps_opening(front);
        if s.contains('{') {
            let j = choose|j: int| 0 <= j < s.len() && s[j] == '{';
            if j < front.len() {
                assert(front[j] == '{');
                let k = choose|k: int| 0 <= k < done.len() && done[k] == '{';
                assert(out[k] == '{');
            } else {
                assert(out[done.len() as int] == '{');
            }
        }
    }
}

/// Unifying the quotes of a text a second time leaves it as it is and
/// rewrites nothing.
pub proof fn lemma_fix_quote_style_idempotent(s: Seq<char>, style: QuoteStyle)
    ensures
        restyle_quotes(restyle_quotes(s, style), style) == restyle_quotes(s, style),
        !has_other_quote(restyle_quotes(s, style), style),
{
}

/// The logical lines of lines joined by line feeds are those lines, where
/// the text has no carriage return before a line feed and the last line is
/// not empty.
pub proof fn lemma_logical_lines_of_joined(lines: Seq<Seq<char>>)
    requires
        lines.len() >= 1,
        no_line_feeds(lines),
        lines.last().len() > 0,
        !has_crlf(join_separated(lines)),
    ensures
        logical_lines(join_separated(lines)) == lines,
{
    lemma_split_join_separated(lines);
    let ended = lines.drop_last().map_values(|p: Seq<char>| strip_carriage_return(p));
    assert(ended == lines.drop_last()) by {
        assert forall|i: int| 0 <= i < lines.len() - 1 implies strip_carriage_return(
            #[trigger] lines.drop_last()[i],
        ) == lines.drop_last()[i] by {
            if lines[i].len() > 0 && lines[i].last() == '\r' {
                lemma_join_separated_crlf(lines, i);
            }
        }
    }
}

/// Removing the empty lines of a text that holds a carriage return before
/// a line feed leaves fewer carriage returns than there were: the line
/// ending is rewritten as a bare line feed, so the text is changed.
pub proof fn lemma_remove_empty_lines_eats_crlf(s: Seq<char>)
    requires
        has_crlf(s),
    ensures
        count(without_empty_lines(s), '\r') < count(s, '\r'),
        without_empty_lines(s) != s,
{
    let keep = |line: Seq<char>| !is_blank(line);
    lemma_count_logical_lines(s);
    lemma_count_filter(logical_lines(s), keep, '\r');
    lemma_count_join_separated(lines_with_content(s), '\r');
}

/// Removing the empty lines of a text that has been through it already
/// leaves it as it is, and so reports no change, provided the text has no
/// carriage return before a line feed. (A kept line that ends in two carriage
/// returns loses one in each pass: that is the one case left out, and by
/// [`lemma_remove_empty_lines_eats_crlf`] the second pass does change it.)
pub proof fn lemma_remove_empty_lines_idempotent(s: Seq<char>)
    requires
        !has_crlf(without_empty_lines(s)),
    ensures
        without_empty_lines(without_empty_lines(s)) == without_empty_lines(s),
{
    let keep = |line: Seq<char>| !is_blank(line);
    let all = logical_lines(s);
    let kept = lines_with_content(s);
    lemma_logical_lines_shape(s);
    lemma_filter_members(all, keep);
    if kept.len() > 0 {
        lemma_logical_lines_of_joined(kept);
        lemma_filter_all(kept, keep);
    }
}

/// Re-indented lines keep, line for line, the depth they were written at
/// when they are re-indented again.
proof fn lemma_depth_of_reindented(lines: Seq<Seq<char>>, size: nat, k: int)
    requires
        size > 0,
        0 <= k <= lines.len(),
    ensures
        depth_after(reindented_lines(lines, size).take(k), size) == depth_after(
            lines.take(k),
            size,
        ),
    decreases k,
{
    let done = reindented_lines(lines, size);
    if k > 0 {
        lemma_depth_of_reindented(lines, size, k - 1);
        let line = lines[k - 1];
        let depth = depth_after(lines.take(k), size);
        assert(lines.take(k).drop_last() == lines.take(k - 1));
        assert(done.take(k).drop_last() == done.take(k - 1));
        lemma_trim_start_shape(line);
        lemma_indented(size * depth, trim_start(line));
        assert((size * depth) / size == depth) by (nonlinear_arith)
            requires
                size > 0,
        ;
    }
}

/// Lines that were re-indented are written as they are when re-indented again.
proof fn lemma_reindented_lines_idempotent(lines: Seq<Seq<char>>, size: nat)
    requires
        size > 0,
    ensures
        reindented_lines(reindented_lines(lines, size), size) == reindented_lines(lines, size),
{
    let done = reindented_lines(lines, size);
    let again = reindented_lines(done, size);
    assert forall|k: int| 0 <= k < done.len() implies #[trigger] again[k] == done[k] by {
        lemma_depth_of_reindented(lines, size, k + 1);
        let depth = depth_after(lines.take(k + 1), size);
        lemma_trim_start_shape(lines[k]);
        lemma_indented(size * depth, trim_start(lines[k]));
    }
}

/// No re-indented line holds a line feed.
proof fn lemma_reindented_lines_shape(s: Seq<char>, size: nat)
    ensures
        no_line_feeds(reindented_lines(logical_lines(s), size)),
{
    let all = logical_lines(s);
    let done = reindented_lines(all, size);
    lemma_logical_lines_shape(s);
    assert forall|k: int| 0 <= k < done.len() implies !(#[trigger] done[k]).contains('\n') by {
        lemma_trim_start_shape(all[k]);
    }
}

/// The first `m` re-indented lines hold no more carriage returns than the
/// lines they were made from: indentation is spaces, and what follows it is
/// the end of the line.
proof fn lemma_count_reindented(lines: Seq<Seq<char>>, size: nat, m: int)
    requires
        0 <= m <= lines.len(),
    ensures
        count_in_lines(reindented_lines(lines, size).take(m), '\r') <= count_in_lines(
            lines.take(m),
            '\r',
        ),
    decreases m,
{
    let done = reindented_lines(lines, size);
    if m > 0 {
        lemma_count_reindented(lines, size, m - 1);
        let line = lines[m - 1];
        let rest = trim_start(line);
        let indent = spaces(size * depth_after(lines.take(m), size));
        assert(lines.take(m).drop_last() == lines.take(m - 1));
        assert(done.take(m).drop_last() == done.take(m - 1));
        lemma_trim_start_shape(line);
        lemma_count_add(line.take(line.len() - rest.len()), rest, '\r');
        assert(line.take(line.len() - rest.len()) + rest == line);
        lemma_count_add(indent, rest, '\r');
        lemma_count_contains(indent, '\r');
    }
}

/// Re-indenting a text that holds a carriage return before a line feed
/// leaves fewer carriage returns than there were: the line ending is
/// rewritten as a bare line feed, so the text is changed.
pub proof fn lemma_fix_indentation_eats_crlf(s: Seq<char>, size: nat)
    requires
        has_crlf(s),
    ensures
        count(reindented(s, size), '\r') < count(s, '\r'),
        reindented(s, size) != s,
{
    let all = logical_lines(s);
    let done = reindented_lines(all, size);
    lemma_count_logical_lines(s);
    lemma_count_reindented(all, size, all.len() as int);
    assert(all.take(all.len() as int) == all);
    assert(done.take(all.len() as int) == done);
    lemma_count_join_separated(done, '\r');
}

/// Re-indenting a text that ends in a line feed leaves fewer line feeds
/// than there were: none is written after the last line, so the text is
/// changed.
pub proof fn lemma_fix_indentation_drops_last_line_feed(s: Seq<char>, size: nat)
    requires
        s.len() > 0,
        s.last() == '\n',
    ensures
        count(reindented(s, size), '\n') < count(s, '\n'),
        reindented(s, size) != s,
{
    let pieces = split_lines(s);
    let done = reindented_lines(logical_lines(s), size);
    lemma_split_lines_shape(s.drop_last());
    lemma_join_split(s);
    lemma_count_join_separated(pieces, '\n');
    lemma_reindented_lines_shape(s, size);
    lemma_count_join_separated(done, '\n');
}

/// Re-indenting a text that has been through it already, with the same
/// indent size, leaves it as it is and reports no change, provided the text
/// has no carriage return before a line feed and does not end in a line
/// feed. (Those are the two cases left out: the logical lines of such a text
/// are not the lines that were written, and by
/// [`lemma_fix_indentation_eats_crlf`] and
/// [`lemma_fix_indentation_drops_last_line_feed`] the second pass does
/// change it.)
pub proof fn lemma_fix_indentation_idempotent(s: Seq<char>, size: nat)
    requires
        size > 0,
        !has_crlf(reindented(s, size)),
        !(reindented(s, size).len() > 0 && reindented(s, size).last() == '\n'),
    ensures
        reindented(reindented(s, size), size) == reindented(s, size),
        !indentation_changes(reindented(s, size), size),
{
    let all = logical_lines(s);
    let done = reindented_lines(all, size);
    if done.len() > 0 && done.last().len() > 0 {
        lemma_reindented_lines_shape(s, size);
        lemma_logical_lines_of_joined(done);
        lemma_reindented_lines_idempotent(all, size);
    }
}

/// The flag of the brace scan depends on the current line alone.
proof fn lemma_inside_braces_of_last_line(s: Seq<char>)
    ensures
        inside_braces(s) == inside_braces(split_lines(s).last()),
    decreases s.len(),
{
    if s.len() > 0 {
        let front = s.drop_last();
        lemma_inside_braces_of_last_line(front);
        if s.last() != '\n' {
            let line = split_lines(front).last().push(s.last());
            assert(line.drop_last() == split_lines(front).last());
        }
    }
}

/// Bracket spacing works line by line: the text it gives is each line of the
/// content, spaced by a scan of that line alone, with a line feed after it.
pub proof fn lemma_fix_bracket_spacing_by_line(s: Seq<char>)
    ensures
        with_spaced_braces(s) == join_terminated(
            split_lines(s).map_values(|line: Seq<char>| space_braces(line)),
        ),
    decreases s.len(),
{
    let space = |line: Seq<char>| space_braces(line);
    if s.len() == 0 {
        let only = seq![Seq::<char>::empty()];
        assert(split_lines(s).map_values(space) == only);
        assert(join_terminated(only.drop_last()) == Seq::<char>::empty());
    } else {
        let front = s.drop_last();
        let c = s.last();
        let lines = split_lines(front);
        lemma_fix_bracket_spacing_by_line(front);
        lemma_inside_braces_of_last_line(front);
        let done = lines.map_values(space);
        let head = join_terminated(done.drop_last());
        let now = split_lines(s).map_values(space);
        assert(space_braces(front) == head + space_braces(lines.last())) by {
            let whole = head + space_braces(lines.last()).push('\n');
            assert(whole.drop_last() == head + space_braces(lines.last()));
        }
        if c == '\n' {
            assert(now.drop_last() == done);
        } else {
            let line = lines.last().push(c);
            assert(line.drop_last() == lines.last());
            assert(now.drop_last() == done.drop_last());
        }
    }
}

/// Unifying quotes works line by line: the text it gives is each line of the
/// content with its quotes rewritten, and a line feed between neighbours.
pub proof fn lemma_fix_quote_style_by_line(s: Seq<char>, style: QuoteStyle)
    ensures
        restyle_quotes(s, style) == join_separated(
            split_lines(s).map_values(|line: Seq<char>| restyle_quotes(line, style)),
        ),
    decreases s.len(),
{
    let restyle = |line: Seq<char>| restyle_quotes(line, style);
    if s.len() > 0 {
        let front = s.drop_last();
        let c = s.last();
        let lines = split_lines(front);
        lemma_fix_quote_style_by_line(front, style);
        let done = lines.map_values(restyle);
        let now = split_lines(s).map_values(restyle);
        if c == '\n' {
            assert(now.drop_last() == done);
        } else {
            let line = lines.last().push(c);
            let written = if c == style.replaced() {
                style.target()
            } else {
                c
            };
            assert(restyle_quotes(line, style) == restyle_quotes(lines.last(), style).push(
                written,
            ));
            assert(now.drop_last() == done.drop_last());
            if lines.len() > 1 {
                let head = join_separated(done.drop_last()).push('\n');
                assert(head + restyle_quotes(line, style) == (head + done.last()).push(written));
            }
        }
    }
}

/// A stage never takes a mark away from a descriptor, and moves nothing
/// else of it; two stages mark it iff one of them does.
pub proof fn lemma_mark_stays(file: FileView, first: bool, second: bool)
    ensures
        file.is_modified ==> file.marked(first).is_modified,
        file.marked(first).is_modified == (file.is_modified || first),
        file.marked(first).path == file.path,
        file.marked(first).name == file.name,
        file.marked(first).size == file.size,
        file.marked(first).extension == file.extension,
        file.marked(first).marked(second) == file.marked(first || second),
{
}

/// With every stage off, the text comes through as it is and unchanged.
pub proof fn lemma_no_stage_no_change(text: Seq<char>, stages: Stages)
    requires
        !stages.comments,
        !stages.empty_lines,
        !stages.trailing_spaces,
        !stages.bracket_spacing,
        stages.quote_style is None,
        stages.indent is None,
    ensures
        staged(text, stages) == (Staged { text, changed: false }),
{
}

/// The catalogue is determined by the entries and the ignored names: two
/// outcomes for the same walk are both the error, or hold the same
/// descriptors in the same order.
pub proof fn lemma_catalogue_determined(
    entries: Seq<EntryView>,
    ignored: Seq<Seq<char>>,
    first: Result<Vec<File>, String>,
    second: Result<Vec<File>, String>,
)
    requires
        is_catalogue_of(first, entries, ignored),
        is_catalogue_of(second, entries, ignored),
    ensures
        match (first, second) {
            (Ok(a), Ok(b)) => file_views(a@) == file_views(b@),
            (Err(a), Err(b)) => a@ == b@,
            _ => false,
        },
{
}

/// A walk that finds no file gives the run up with the discovery error:
/// no file is asked for and nothing is written.
pub proof fn lemma_empty_catalogue_aborts(
    stages: Stages,
    ignored: Vec<String>,
    entries: Vec<Entry>,
    next: RunState,
    action: Action,
)
    requires
        discovered(entry_views(entries@), name_views(ignored@), entries.len() as int).len() == 0,
        follows(RunState::Walking { stages, ignored }, Event::Walked(entries), next, action),
    ensures
        next is Aborted,
        action == Action::Abort(RunError::Discovery),
{
}

/// A run that is over or was given up stays so: whatever event comes, it
/// asks for no walk, no read and no write.
pub proof fn lemma_ended_run_stays_ended(
    state: RunState,
    event: Event,
    next: RunState,
    action: Action,
)
    requires
        state is Finished || state is Aborted,
        follows(state, event, next, action),
    ensures
        next is Aborted,
        action is Abort,
{
}

} // verus!
