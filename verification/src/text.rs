//! The mathematical model of text used throughout the crate: a string is the
//! sequence of its characters, a document is the sequence of its lines.

use vstd::prelude::*;

verus! {

/// `pat` occurs in `text` starting at position `at`.
pub open spec fn occurs_at(pat: Seq<char>, text: Seq<char>, at: int) -> bool {
    &&& 0 <= at
    &&& at + pat.len() <= text.len()
    &&& text.subrange(at, at + pat.len()) == pat
}

/// `pat` occurs somewhere in `text` as a contiguous run of characters.
pub open spec fn is_infix(pat: Seq<char>, text: Seq<char>) -> bool {
    exists|at: int| occurs_at(pat, text, at)
}

/// `at` is the leftmost position at which `pat` occurs in `text`.
pub open spec fn is_first_occurrence(pat: Seq<char>, text: Seq<char>, at: int) -> bool {
    &&& occurs_at(pat, text, at)
    &&& forall|k: int| 0 <= k < at ==> !occurs_at(pat, text, k)
}

/// The position of the first line feed of `text` at or after `from`, or the
/// length of `text` where there is none.
pub open spec fn line_end(text: Seq<char>, from: int) -> int
    decreases text.len() - from,
{
    if from < 0 || from >= text.len() {
        text.len() as int
    } else if text[from] == '\n' {
        from
    } else {
        line_end(text, from + 1)
    }
}

/// The lines of `text` that begin at or after position `from`, where `from`
/// is the start of a line.
pub open spec fn lines_from(text: Seq<char>, from: int) -> Seq<Seq<char>>
    decreases text.len() + 1 - from,
    via lines_from_decreases
{
    if from < 0 || from >= text.len() {
        Seq::empty()
    } else {
        let end = line_end(text, from);
        seq![text.subrange(from, end)] + lines_from(text, end + 1)
    }
}

#[via_fn]
proof fn lines_from_decreases(text: Seq<char>, from: int) {
    if 0 <= from < text.len() {
        lemma_line_end(text, from);
    }
}

/// The lines of a document. A line feed ends a line; text after the last line
/// feed is a line of its own unless it is empty, so a final line feed adds no
/// empty line, while two line feeds in a row enclose one.
pub open spec fn lines_of(text: Seq<char>) -> Seq<Seq<char>> {
    lines_from(text, 0)
}

/// A line ends at or after its start, holds no line feed, and stops at a line
/// feed or at the end of the text.
pub proof fn lemma_line_end(text: Seq<char>, from: int)
    requires
        0 <= from <= text.len(),
    ensures
        from <= line_end(text, from) <= text.len(),
        forall|k: int| from <= k < line_end(text, from) ==> text[k] != '\n',
        line_end(text, from) < text.len() ==> text[line_end(text, from)] == '\n',
    decreases text.len() - from,
{
    if from < text.len() && text[from] != '\n' {
        lemma_line_end(text, from + 1);
    }
}

/// The characters of `s`, in order.
pub fn chars_of(s: &str) -> (out: Vec<char>)
    ensures
        out@ == s@,
{
    let mut out: Vec<char> = Vec::new();
    for c in it: s.chars()
        invariant
            it.seq() == s@,
            out@ == s@.take(it.index() as int),
    {
        out.push(c);
    }
    out
}

/// Finds where the line that starts at `from` ends.
pub fn find_line_end(text: &Vec<char>, from: usize) -> (end: usize)
    requires
        from <= text.len(),
    ensures
        end == line_end(text@, from as int),
        from <= end <= text.len(),
{
    let mut at: usize = from;
    while at < text.len() && text[at] != '\n'
        invariant
            from <= at <= text.len(),
            line_end(text@, at as int) == line_end(text@, from as int),
        decreases text.len() - at,
    {
        at += 1;
    }
    proof {
        lemma_line_end(text@, from as int);
    }
    at
}

/// Tells whether `pat` occurs in `text` at position `at`.
pub fn occurs_here(pat: &Vec<char>, text: &Vec<char>, at: usize) -> (hit: bool)
    ensures
        hit == occurs_at(pat@, text@, at as int),
{
    if pat.len() > text.len() || at > text.len() - pat.len() {
        return false;
    }
    let mut k: usize = 0;
    while k < pat.len()
        invariant
            k <= pat.len(),
            at + pat.len() <= text.len(),
            forall|j: int| 0 <= j < k ==> text@[at + j] == pat@[j],
        decreases pat.len() - k,
    {
        if text[at + k] != pat[k] {
            assert(text@.subrange(at as int, at + pat.len())[k as int] != pat@[k as int]);
            return false;
        }
        k += 1;
    }
    assert(text@.subrange(at as int, at + pat.len()) =~= pat@);
    true
}

/// Finds the leftmost occurrence of `pat` in `text`.
pub fn find_infix(pat: &Vec<char>, text: &Vec<char>) -> (found: Option<usize>)
    ensures
        match found {
            Some(at) => is_first_occurrence(pat@, text@, at as int),
            None => !is_infix(pat@, text@),
        },
{
    if pat.len() > text.len() {
        return None;
    }
    let last: usize = text.len() - pat.len();
    let mut at: usize = 0;
    loop
        invariant
            last == text.len() - pat.len(),
            at <= last,
            forall|k: int| 0 <= k < at ==> !occurs_at(pat@, text@, k),
        decreases last - at,
    {
        if occurs_here(pat, text, at) {
            return Some(at);
        }
        if at == last {
            return None;
        }
        at += 1;
    }
}

/// Tells whether two strings hold the same characters.
pub fn same_text(a: &str, b: &str) -> (same: bool)
    ensures
        same == (a@ == b@),
{
    let left = chars_of(a);
    let right = chars_of(b);
    if left.len() != right.len() {
        return false;
    }
    let hit = occurs_here(&left, &right, 0);
    assert(right@.subrange(0, right@.len() as int) =~= right@);
    hit
}

/// The lower-case form that the standard library gives for a string.
pub uninterp spec fn fold_case(s: Seq<char>) -> Seq<char>;

/// The lower-case form of a string as this crate uses it: the standard
/// library's, with the empty string being its own lower-case form.
pub open spec fn lowered(s: Seq<char>) -> Seq<char> {
    if s.len() == 0 {
        s
    } else {
        fold_case(s)
    }
}

/// Calls `str::to_lowercase`. Trusted: the result is taken to be a function
/// of the characters of `s` alone, named `fold_case`; nothing else is claimed
/// of it.
#[verifier::external_body]
fn std_lowercase(s: &str) -> (out: String)
    ensures
        out@ == fold_case(s@),
{
    s.to_lowercase()
}

/// Lowers a string.
pub fn to_lower(s: &str) -> (out: String)
    ensures
        out@ == lowered(s@),
{
    if s.is_empty() {
        String::new()
    } else {
        std_lowercase(s)
    }
}

} // verus!
