//! Marking the match inside a selected line.
//!
//! The span to mark is found without regard to case, whatever mode selected
//! the line: the mode decides which lines are shown, not where the mark goes.
//! The span is a stretch of the line itself, so the mark stands on the
//! characters that match even where lowering changes the length of the text.

use vstd::prelude::*;
use colored::Colorize;
use crate::search::{matching_lines, search, views, Mode};
use crate::text::{is_infix, lowered, same_text, to_lower};

verus! {

/// The escape sequence that switches a terminal to bold green.
pub open spec fn style_code() -> Seq<char> {
    seq!['\u{1b}', '[', '1', ';', '3', '2', 'm']
}

/// The escape sequence that switches a terminal back to plain text.
pub open spec fn reset_code() -> Seq<char> {
    seq!['\u{1b}', '[', '0', 'm']
}

/// `styled` is a way to show `plain` with emphasis: for text that holds no
/// reset sequence of its own, either the text as it is (where colours are
/// switched off) or the text between the bold green and the reset sequences.
pub open spec fn is_emphasis_of(plain: Seq<char>, styled: Seq<char>) -> bool {
    !is_infix(reset_code(), plain) ==> (styled == plain || styled == style_code() + plain
        + reset_code())
}

/// The stretch `start..end` of `line`, counted in characters, is an
/// occurrence of `query` without regard to case: lowered, it is the lowered
/// query.
pub open spec fn covers(line: Seq<char>, query: Seq<char>, start: int, end: int) -> bool {
    &&& 0 <= start <= end <= line.len()
    &&& lowered(line.subrange(start, end)) == lowered(query)
}

/// The span `start..end` of `line` is the one to mark for `query`: the
/// occurrence of the query, without regard to case, that starts first, and
/// of those that start there the shortest.
pub open spec fn span_of(line: Seq<char>, query: Seq<char>, start: int, end: int) -> bool {
    &&& covers(line, query, start, end)
    &&& forall|s: int, e: int| #[trigger]
        covers(line, query, s, e) ==> start < s || (start == s && end <= e)
}

/// There is a span to mark in `line` for `query`.
pub open spec fn has_span(line: Seq<char>, query: Seq<char>) -> bool {
    exists|start: int, end: int| span_of(line, query, start, end)
}

/// `out` is `line` with the span `start..end` replaced by `styled`, where
/// that span is the one to mark for `query` and `styled` shows it with
/// emphasis.
pub open spec fn marks(
    line: Seq<char>,
    query: Seq<char>,
    start: int,
    end: int,
    styled: Seq<char>,
    out: Seq<char>,
) -> bool {
    &&& span_of(line, query, start, end)
    &&& is_emphasis_of(line.subrange(start, end), styled)
    &&& out == line.subrange(0, start) + styled + line.subrange(end, line.len() as int)
}

/// `out` is a highlighted form of `line` for `query`: the line with its span
/// shown with emphasis, or the line unchanged where it has no span.
pub open spec fn is_highlight_of(line: Seq<char>, query: Seq<char>, out: Seq<char>) -> bool {
    if has_span(line, query) {
        exists|start: int, end: int, styled: Seq<char>| marks(line, query, start, end, styled, out)
    } else {
        out == line
    }
}

/// Calls `colored`'s `green` and `bold` on `plain` and formats the result.
/// Trusted: whether colours are on is decided by the environment, so the
/// contract allows both outcomes, and it is silent on text that itself holds
/// a reset sequence, which `colored` rewrites.
#[verifier::external_body]
fn emphasize(plain: &str) -> (styled: String)
    ensures
        is_emphasis_of(plain@, styled@),
{
    format!("{}", plain.green().bold())
}

/// Tells whether the stretch `start..end` of `line` is, lowered, the text
/// `low_query`.
fn stretch_lowers_to(line: &str, start: usize, end: usize, low_query: &str) -> (hit: bool)
    requires
        start <= end <= line@.len(),
    ensures
        hit == (lowered(line@.subrange(start as int, end as int)) == low_query@),
{
    let low = to_lower(line.substring_char(start, end));
    same_text(low.as_str(), low_query)
}

/// Finds the span of `line` to mark for `query`, in characters.
pub fn locate(line: &str, query: &str) -> (span: Option<(usize, usize)>)
    ensures
        match span {
            Some((start, end)) => span_of(line@, query@, start as int, end as int),
            None => !has_span(line@, query@),
        },
{
    let low_query = to_lower(query);
    let len = line.unicode_len();
    let mut start: usize = 0;
    loop
        invariant
            len == line@.len(),
            low_query@ == lowered(query@),
            start <= len,
            forall|s: int, e: int| #[trigger]
                covers(line@, query@, s, e) ==> start <= s,
        decreases len - start,
    {
        let mut end: usize = start;
        loop
            invariant
                len == line@.len(),
                low_query@ == lowered(query@),
                start <= end <= len,
                forall|s: int, e: int| #[trigger]
                    covers(line@, query@, s, e) ==> start < s || (start == s && end <= e),
            ensures
                forall|s: int, e: int| #[trigger] covers(line@, query@, s, e) ==> start < s,
            decreases len - end,
        {
            if stretch_lowers_to(line, start, end, low_query.as_str()) {
                return Some((start, end));
            }
            if end == len {
                break ;
            }
            end += 1;
        }
        if start == len {
            return None;
        }
        start += 1;
    }
}

/// Replaces the span `start..end` of `line`, counted in characters, by
/// `styled`.
pub fn splice(line: &str, start: usize, end: usize, styled: &str) -> (out: String)
    requires
        start <= end <= line@.len(),
    ensures
        out@ == line@.subrange(0, start as int) + styled@ + line@.subrange(
            end as int,
            line@.len() as int,
        ),
{
    let len = line.unicode_len();
    let mut out = line.substring_char(0, start).to_owned();
    out.append(styled);
    out.append(line.substring_char(end, len));
    out
}

/// Shows `line` with the first occurrence of `query`, found without regard
/// to case, set off by emphasis; a line without such a span comes back as it
/// is.
pub fn highlight(line: &str, query: &str) -> (out: String)
    ensures
        is_highlight_of(line@, query@, out@),
{
    match locate(line, query) {
        None => line.to_owned(),
        Some((start, end)) => {
            let styled = emphasize(line.substring_char(start, end));
            let out = splice(line, start, end, styled.as_str());
            assert(marks(line@, query@, start as int, end as int, styled@, out@));
            out
        },
    }
}

/// Searches `contents` for `query` under `mode` and returns the selected
/// lines, each highlighted, in the order of the document.
pub fn render_matches(contents: &str, query: &str, mode: Mode) -> (out: Vec<String>)
    ensures
        out@.len() == matching_lines(contents@, query@, mode).len(),
        forall|i: int|
            0 <= i < out@.len() ==> is_highlight_of(
                #[trigger] matching_lines(contents@, query@, mode)[i],
                query@,
                out@[i]@,
            ),
{
    let found = search(contents, query, mode);
    let mut out: Vec<String> = Vec::new();
    let mut i: usize = 0;
    while i < found.len()
        invariant
            i <= found.len(),
            out@.len() == i,
            views(found@) == matching_lines(contents@, query@, mode),
            forall|k: int|
                0 <= k < i ==> is_highlight_of(
                    #[trigger] matching_lines(contents@, query@, mode)[k],
                    query@,
                    out@[k]@,
                ),
        decreases found.len() - i,
    {
        let shown = highlight(found[i], query);
        assert(views(found@)[i as int] == found@[i as int]@);
        out.push(shown);
        i += 1;
    }
    assert(views(found@).len() == found@.len());
    out
}

} // verus!
