//! The search itself: which lines of a document hold a query.

use vstd::prelude::*;
use crate::filtering::{is_subsequence, lemma_filter_first, lemma_filter_is_subsequence};
use crate::filtering::{lemma_filter_keeps_all, lemma_filter_narrows};
use crate::text::{chars_of, find_infix, find_line_end, to_lower};
use crate::text::{is_infix, lines_from, lines_of, lowered, occurs_at};

verus! {

/// How a line is held against the query.
#[derive(Clone, Copy, PartialEq, Eq, Debug, Structural)]
pub enum Mode {
    /// The line holds the query character for character.
    CaseSensitive,
    /// The lowered line holds the lowered query.
    CaseInsensitive,
}

/// What the search looks for in a line: the query itself, or its lowered form.
pub open spec fn needle_of(query: Seq<char>, mode: Mode) -> Seq<char> {
    match mode {
        Mode::CaseSensitive => query,
        Mode::CaseInsensitive => lowered(query),
    }
}

/// What the search looks in: the line itself, or its lowered form.
pub open spec fn haystack_of(line: Seq<char>, mode: Mode) -> Seq<char> {
    match mode {
        Mode::CaseSensitive => line,
        Mode::CaseInsensitive => lowered(line),
    }
}

/// The line is selected by the query under the mode.
pub open spec fn line_matches(line: Seq<char>, query: Seq<char>, mode: Mode) -> bool {
    is_infix(needle_of(query, mode), haystack_of(line, mode))
}

/// `line_matches` for a fixed query and mode, as a predicate on lines.
pub open spec fn matcher(query: Seq<char>, mode: Mode) -> spec_fn(Seq<char>) -> bool {
    |line: Seq<char>| line_matches(line, query, mode)
}

/// The result of a search: the lines of the document that the query selects,
/// in the order of the document and as the document spells them. A line that
/// holds the query several times is still one line of the result.
pub open spec fn matching_lines(text: Seq<char>, query: Seq<char>, mode: Mode) -> Seq<Seq<char>> {
    lines_of(text).filter(matcher(query, mode))
}

/// The character sequences of a list of string slices.
pub open spec fn views(lines: Seq<&str>) -> Seq<Seq<char>> {
    lines.map_values(|s: &str| s@)
}

/// Tells whether `line` is selected, given the needle made from the query.
pub fn line_holds(line: &str, needle: &Vec<char>, mode: Mode) -> (hit: bool)
    ensures
        hit == is_infix(needle@, haystack_of(line@, mode)),
{
    let haystack: Vec<char> = match mode {
        Mode::CaseSensitive => chars_of(line),
        Mode::CaseInsensitive => {
            let low = to_lower(line);
            chars_of(low.as_str())
        },
    };
    find_infix(needle, &haystack).is_some()
}

/// Searches `contents` line by line and returns the lines that `query`
/// selects under `mode`, as slices of `contents`.
pub fn search<'a>(contents: &'a str, query: &str, mode: Mode) -> (found: Vec<&'a str>)
    ensures
        views(found@) == matching_lines(contents@, query@, mode),
{
    let text = chars_of(contents);
    let needle: Vec<char> = match mode {
        Mode::CaseSensitive => chars_of(query),
        Mode::CaseInsensitive => {
            let low = to_lower(query);
            chars_of(low.as_str())
        },
    };
    let ghost keep = matcher(query@, mode);
    let mut found: Vec<&'a str> = Vec::new();
    let mut pos: usize = 0;
    assert(views(found@) =~= Seq::<Seq<char>>::empty());
    assert(views(found@) + lines_from(text@, 0).filter(keep) =~= lines_of(text@).filter(keep));
    while pos < text.len()
        invariant
            text@ == contents@,
            needle@ == needle_of(query@, mode),
            keep == matcher(query@, mode),
            pos <= text.len(),
            views(found@) + lines_from(text@, pos as int).filter(keep) == lines_of(text@).filter(
                keep,
            ),
        decreases text.len() - pos,
    {
        let end = find_line_end(&text, pos);
        let line: &'a str = contents.substring_char(pos, end);
        let hit = line_holds(line, &needle, mode);
        let next: usize = if end < text.len() {
            end + 1
        } else {
            end
        };
        proof {
            let rest = lines_from(text@, end + 1);
            assert(lines_from(text@, next as int) == rest);
            assert(lines_from(text@, pos as int) == seq![line@] + rest);
            lemma_filter_first(line@, rest, keep);
            assert(hit == keep(line@));
            if hit {
                assert(views(found@.push(line)) =~= views(found@) + seq![line@]);
                assert((views(found@) + seq![line@]) + rest.filter(keep) =~= views(found@)
                    + (seq![line@] + rest.filter(keep)));
            }
        }
        if hit {
            found.push(line);
        }
        pos = next;
    }
    assert(lines_from(text@, pos as int).filter(keep) =~= Seq::<Seq<char>>::empty()) by {
        reveal_with_fuel(Seq::filter, 1);
    }
    assert(views(found@) + Seq::<Seq<char>>::empty() =~= views(found@));
    found
}

/// The lines of `contents` that hold `query` character for character.
pub fn search_strict<'a>(contents: &'a str, query: &str) -> (found: Vec<&'a str>)
    ensures
        views(found@) == matching_lines(contents@, query@, Mode::CaseSensitive),
{
    search(contents, query, Mode::CaseSensitive)
}

/// The lines of `contents` whose lowered form holds the lowered `query`.
pub fn search_case_insensitive<'a>(contents: &'a str, query: &str) -> (found: Vec<&'a str>)
    ensures
        views(found@) == matching_lines(contents@, query@, Mode::CaseInsensitive),
{
    search(contents, query, Mode::CaseInsensitive)
}

/// A search selects nothing but lines of the document, in the order of the
/// document and each no more often than the document holds it; every line
/// that it returns meets the mode's test, and no line that meets it is left
/// out.
pub proof fn lemma_search_selects(text: Seq<char>, query: Seq<char>, mode: Mode)
    ensures
        is_subsequence(matching_lines(text, query, mode), lines_of(text)),
        forall|i: int|
            0 <= i < matching_lines(text, query, mode).len() ==> line_matches(
                #[trigger] matching_lines(text, query, mode)[i],
                query,
                mode,
            ),
        forall|j: int|
            0 <= j < lines_of(text).len() && line_matches(#[trigger] lines_of(text)[j], query, mode)
                ==> matching_lines(text, query, mode).contains(lines_of(text)[j]),
{
    let keep = matcher(query, mode);
    let lines = lines_of(text);
    lemma_filter_is_subsequence(lines, keep);
    assert forall|i: int| 0 <= i < lines.filter(keep).len() implies line_matches(
        #[trigger] lines.filter(keep)[i],
        query,
        mode,
    ) by {
        lines.lemma_filter_pred(keep, i);
    }
    assert forall|j: int| 0 <= j < lines.len() && line_matches(#[trigger] lines[j], query, mode)
        implies lines.filter(keep).contains(lines[j]) by {
        lines.lemma_filter_contains(keep, j);
    }
}

/// A case-sensitive search returns only lines of the document that hold the
/// query character for character, in the order of the document.
pub proof fn lemma_strict_search_selects(text: Seq<char>, query: Seq<char>)
    ensures
        is_subsequence(matching_lines(text, query, Mode::CaseSensitive), lines_of(text)),
        forall|i: int|
            0 <= i < matching_lines(text, query, Mode::CaseSensitive).len() ==> is_infix(
                query,
                #[trigger] matching_lines(text, query, Mode::CaseSensitive)[i],
            ),
{
    lemma_search_selects(text, query, Mode::CaseSensitive);
}

/// A case-insensitive search returns the lines of the document whose lowered
/// form holds the lowered query, and returns them as the document spells them:
/// what comes back are lines of the document, not their lowered forms.
pub proof fn lemma_insensitive_search_selects(text: Seq<char>, query: Seq<char>)
    ensures
        is_subsequence(matching_lines(text, query, Mode::CaseInsensitive), lines_of(text)),
        forall|i: int|
            0 <= i < matching_lines(text, query, Mode::CaseInsensitive).len() ==> is_infix(
                lowered(query),
                lowered(#[trigger] matching_lines(text, query, Mode::CaseInsensitive)[i]),
            ),
        forall|j: int|
            0 <= j < lines_of(text).len() && is_infix(
                lowered(query),
                lowered(#[trigger] lines_of(text)[j]),
            ) ==> matching_lines(text, query, Mode::CaseInsensitive).contains(lines_of(text)[j]),
{
    lemma_search_selects(text, query, Mode::CaseInsensitive);
}

/// The empty query selects every line of the document, in either mode.
pub proof fn lemma_empty_query_selects_all(text: Seq<char>, mode: Mode)
    ensures
        matching_lines(text, Seq::<char>::empty(), mode) == lines_of(text),
{
    let nothing = Seq::<char>::empty();
    let keep = matcher(nothing, mode);
    let lines = lines_of(text);
    assert forall|i: int| 0 <= i < lines.len() implies keep(#[trigger] lines[i]) by {
        let haystack = haystack_of(lines[i], mode);
        assert(needle_of(nothing, mode) == nothing);
        assert(haystack.subrange(0, 0) =~= nothing);
        assert(occurs_at(nothing, haystack, 0));
    }
    lemma_filter_keeps_all(lines, keep);
}

/// Lowering keeps the query inside every line of the document that holds it.
/// This holds of a lowering that maps each character by itself; it can fail
/// where the lower-case form of a character depends on its neighbours.
pub open spec fn lowering_keeps_matches(text: Seq<char>, query: Seq<char>) -> bool {
    forall|j: int|
        0 <= j < lines_of(text).len() && is_infix(query, #[trigger] lines_of(text)[j]) ==> is_infix(
            lowered(query),
            lowered(lines_of(text)[j]),
        )
}

/// Where lowering keeps the query inside the lines that hold it, the
/// case-sensitive result lies within the case-insensitive one: it is that
/// result narrowed to the lines that hold the query character for character.
pub proof fn lemma_strict_within_insensitive(text: Seq<char>, query: Seq<char>)
    requires
        lowering_keeps_matches(text, query),
    ensures
        matching_lines(text, query, Mode::CaseSensitive) == matching_lines(
            text,
            query,
            Mode::CaseInsensitive,
        ).filter(matcher(query, Mode::CaseSensitive)),
        is_subsequence(
            matching_lines(text, query, Mode::CaseSensitive),
            matching_lines(text, query, Mode::CaseInsensitive),
        ),
{
    let strict = matcher(query, Mode::CaseSensitive);
    let loose = matcher(query, Mode::CaseInsensitive);
    let lines = lines_of(text);
    assert forall|j: int| 0 <= j < lines.len() && strict(#[trigger] lines[j]) implies loose(
        lines[j],
    ) by {}
    lemma_filter_narrows(lines, strict, loose);
    lemma_filter_is_subsequence(lines.filter(loose), strict);
}

/// Tells whether lowering keeps `query` inside every line of `contents` that
/// holds it, by searching; where it does, the case-sensitive result lies
/// within the case-insensitive one.
pub fn strict_within_insensitive(contents: &str, query: &str) -> (holds: bool)
    ensures
        holds == lowering_keeps_matches(contents@, query@),
        holds ==> is_subsequence(
            matching_lines(contents@, query@, Mode::CaseSensitive),
            matching_lines(contents@, query@, Mode::CaseInsensitive),
        ),
{
    let strict = search(contents, query, Mode::CaseSensitive);
    let low = to_lower(query);
    let needle = chars_of(low.as_str());
    let ghost lines = lines_of(contents@);
    let ghost keep = matcher(query@, Mode::CaseSensitive);
    let mut i: usize = 0;
    while i < strict.len()
        invariant
            i <= strict.len(),
            lines == lines_of(contents@),
            keep == matcher(query@, Mode::CaseSensitive),
            views(strict@) == lines.filter(keep),
            needle@ == lowered(query@),
            forall|k: int|
                0 <= k < i ==> is_infix(lowered(query@), lowered(#[trigger] views(strict@)[k])),
        decreases strict.len() - i,
    {
        if !line_holds(strict[i], &needle, Mode::CaseInsensitive) {
            proof {
                let bad = views(strict@)[i as int];
                lines.lemma_filter_pred(keep, i as int);
                assert(lines.filter(keep).contains(bad));
                lines.lemma_filter_contains_rev(keep, bad);
                let j = choose|j: int| 0 <= j < lines.len() && lines[j] == bad;
                assert(is_infix(query@, lines[j]));
            }
            return false;
        }
        i += 1;
    }
    proof {
        assert forall|j: int| 0 <= j < lines.len() && is_infix(query@, #[trigger] lines[j])
            implies is_infix(lowered(query@), lowered(lines[j])) by {
            assert(keep(lines[j]));
            lines.lemma_filter_contains(keep, j);
            let k = choose|k: int|
                0 <= k < lines.filter(keep).len() && lines.filter(keep)[k] == lines[j];
            assert(views(strict@)[k] == lines[j]);
        }
        lemma_strict_within_insensitive(contents@, query@);
    }
    true
}

} // verus!
