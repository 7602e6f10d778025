use minigrep::highlight::{highlight, locate, render_matches, splice};
use minigrep::search::Mode;

#[test]
fn locate_finds_the_first_occurrence_without_regard_to_case() {
    assert_eq!(locate("today is tuesday", "Day"), Some((2, 5)));
    assert_eq!(locate("It IS a toy, is it", "is"), Some((3, 5)));
    assert_eq!(locate("hello", "xyz"), None);
    assert_eq!(locate("hello", ""), Some((0, 0)));
    assert_eq!(locate("", ""), Some((0, 0)));
}

#[test]
fn locate_counts_characters() {
    assert_eq!(locate("thé vert", "VERT"), Some((4, 8)));
}

#[test]
fn splice_replaces_the_span() {
    assert_eq!(splice("today is tuesday", 2, 5, "<day>"), "to<day> is tuesday");
    assert_eq!(splice("abc", 0, 0, "-"), "-abc");
    assert_eq!(splice("abc", 3, 3, "-"), "abc-");
    assert_eq!(splice("abc", 0, 3, ""), "");
    assert_eq!(splice("thé vert", 4, 8, "noir"), "thé noir");
}

#[test]
fn highlight_marks_the_span_in_bold_green() {
    colored::control::set_override(true);
    assert_eq!(
        highlight("today is tuesday", "Day"),
        "to\u{1b}[1;32mday\u{1b}[0m is tuesday"
    );
}

#[test]
fn highlight_leaves_a_line_without_the_query_alone() {
    colored::control::set_override(true);
    assert_eq!(highlight("hello", "xyz"), "hello");
}

#[test]
fn render_matches_highlights_the_selected_lines() {
    colored::control::set_override(true);
    let data = "hello\nIt Is a ball\nthis is it\n";
    assert_eq!(
        render_matches(data, "is", Mode::CaseSensitive),
        vec!["th\u{1b}[1;32mis\u{1b}[0m is it"]
    );
    assert_eq!(
        render_matches(data, "is", Mode::CaseInsensitive),
        vec!["It \u{1b}[1;32mIs\u{1b}[0m a ball", "th\u{1b}[1;32mis\u{1b}[0m is it"]
    );
    assert_eq!(render_matches(data, "zz", Mode::CaseInsensitive), Vec::<String>::new());
}

#[test]
fn locate_gives_the_stretch_of_the_line_itself() {
    assert_eq!(locate("İx", "x"), Some((1, 2)));
    assert_eq!(locate("İstanbul x", "x"), Some((9, 10)));
    assert_eq!(locate("İ ab", "a"), Some((2, 3)));
    assert_eq!(locate("İ ab", "A"), Some((2, 3)));
}

#[test]
fn locate_finds_a_stretch_that_lowers_to_a_longer_text() {
    assert_eq!(locate("xİy", "i\u{307}"), Some((1, 2)));
    assert_eq!(locate("xİy", "İ"), Some((1, 2)));
    assert_eq!(locate("xİy", "İY"), Some((1, 3)));
}

#[test]
fn locate_takes_the_first_start_and_then_the_shortest() {
    assert_eq!(locate("abcabc", "BC"), Some((1, 3)));
    assert_eq!(locate("aaa", "a"), Some((0, 1)));
    assert_eq!(locate("abc", "abcd"), None);
    assert_eq!(locate("", "a"), None);
}

#[test]
fn highlight_marks_the_characters_that_match() {
    colored::control::set_override(true);
    assert_eq!(highlight("İx", "x"), "İ\u{1b}[1;32mx\u{1b}[0m");
    assert_eq!(highlight("İstanbul x", "x"), "İstanbul \u{1b}[1;32mx\u{1b}[0m");
    assert_eq!(highlight("İ ab", "a"), "İ \u{1b}[1;32ma\u{1b}[0mb");
}

#[test]
fn highlight_marks_a_line_that_only_the_strict_search_selects() {
    colored::control::set_override(true);
    assert_eq!(highlight("ΑΣ", "Σ"), "Α\u{1b}[1;32mΣ\u{1b}[0m");
}

#[test]
fn highlight_of_the_empty_query_marks_an_empty_span() {
    colored::control::set_override(true);
    assert_eq!(highlight("abc", ""), "\u{1b}[1;32m\u{1b}[0mabc");
}
