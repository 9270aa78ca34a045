use fsrep::report::{decimal_text, failure_line, highlight_with, match_line, summary_line};
use fsrep::text::{split_around, split_text};
use fsrep::{
    create_regex_expression, fsrep_failure, highlight_regex_result, render_results,
    CompiledPattern, SearchResults,
};

fn compiled(pattern: &str) -> CompiledPattern {
    create_regex_expression(pattern).unwrap()
}

fn record(line_number: u128, line_content: &str) -> SearchResults {
    SearchResults { line_number, line_content: line_content.to_string() }
}

fn plain() {
    colored::control::set_override(false);
}

#[test]
fn decimal_text_writes_digits_without_leading_zeros() {
    assert_eq!(decimal_text(0), "0");
    assert_eq!(decimal_text(7), "7");
    assert_eq!(decimal_text(10), "10");
    assert_eq!(decimal_text(905), "905");
    assert_eq!(decimal_text(1234567890), "1234567890");
    assert_eq!(decimal_text(u128::MAX), "340282366920938463463374607431768211455");
}

#[test]
fn decimal_text_agrees_with_the_standard_library() {
    for number in [1u128, 9, 11, 99, 100, 101, 1000, 65535, 65536, 18446744073709551616] {
        assert_eq!(decimal_text(number), number.to_string());
    }
}

#[test]
fn summary_line_from_its_parts() {
    assert_eq!(summary_line("TAG", "a.txt", "3"), "TAG: In file: 'a.txt' 3 matches found");
    assert_eq!(summary_line("", "", ""), ": In file: ''  matches found");
}

#[test]
fn match_line_from_its_parts() {
    assert_eq!(match_line("12", "some text"), "12: some text");
    assert_eq!(match_line("", ""), ": ");
}

#[test]
fn failure_line_with_and_without_a_subject() {
    assert_eq!(failure_line("TAG", "cause", Some("file.txt")), "TAG: 'file.txt' cause");
    assert_eq!(failure_line("TAG", "cause", None), "TAG: cause");
}

#[test]
fn split_text_cuts_at_a_byte_offset() {
    assert_eq!(split_text("Lorem ipsum", 5), ("Lorem", " ipsum"));
    assert_eq!(split_text("äb", 2), ("ä", "b"));
    assert_eq!(split_text("abc", 0), ("", "abc"));
    assert_eq!(split_text("abc", 3), ("abc", ""));
}

#[test]
fn split_around_cuts_in_three() {
    assert_eq!(split_around("Lorem ipsum dolor", 6, 11), ("Lorem ", "ipsum", " dolor"));
    assert_eq!(split_around("日本語", 3, 6), ("日", "本", "語"));
    assert_eq!(split_around("abc", 1, 1), ("a", "", "bc"));
    assert_eq!(split_around("abc", 0, 3), ("", "abc", ""));
}

#[test]
fn highlight_with_replaces_the_span() {
    assert_eq!(highlight_with("Lorem ipsum dolor", 6, 11, "<ipsum>"), "Lorem <ipsum> dolor");
    assert_eq!(highlight_with("Lorem", 0, 5, "[]"), "[]");
    assert_eq!(highlight_with("Lorem", 2, 2, "|"), "Lo|rem");
    assert_eq!(highlight_with("日本語", 3, 6, "X"), "日X語");
}

#[test]
fn highlight_without_styles_leaves_the_line_as_it_is() {
    plain();
    assert_eq!(highlight_regex_result(&compiled("ipsum"), "Lorem ipsum dolor"), "Lorem ipsum dolor");
    assert_eq!(highlight_regex_result(&compiled("^Lorem"), "Lorem ipsum"), "Lorem ipsum");
    assert_eq!(highlight_regex_result(&compiled("dolor$"), "ipsum dolor"), "ipsum dolor");
}

#[test]
fn report_without_styles() {
    plain();
    let lines = render_results(
        "villains.txt",
        &compiled("a"),
        &vec![record(2, "Madara"), record(11, "Sasori")],
    );
    assert_eq!(
        lines,
        vec![
            "fsrep success: In file: 'villains.txt' 2 matches found",
            "2: Madara",
            "11: Sasori",
        ]
    );
}

#[test]
fn report_has_one_line_for_each_match_after_the_summary() {
    plain();
    let query = compiled("x");
    for count in 0..6u128 {
        let found: Vec<SearchResults> = (1..=count).map(|number| record(number, "x")).collect();
        let lines = render_results("f", &query, &found);
        assert_eq!(lines.len() as u128, count + 1);
        assert_eq!(lines[0], format!("fsrep success: In file: 'f' {count} matches found"));
        for (index, line) in lines[1..].iter().enumerate() {
            assert_eq!(*line, format!("{}: x", index + 1));
        }
    }
}

#[test]
fn report_of_no_match_is_the_summary_with_count_zero() {
    plain();
    let lines = render_results("empty.txt", &compiled("x"), &vec![]);
    assert_eq!(lines, vec!["fsrep success: In file: 'empty.txt' 0 matches found"]);
}

#[test]
fn failure_without_styles() {
    plain();
    assert_eq!(
        fsrep_failure("No such file or directory (os error 2)", Some("missing.txt")),
        "fsrep failure: 'missing.txt' No such file or directory (os error 2)"
    );
    assert_eq!(fsrep_failure("thread panic", None), "fsrep failure: thread panic");
}

#[test]
fn a_match_that_holds_codes_is_left_as_it_is_without_styles() {
    plain();
    let line = "x\u{1b}[0my and \u{1b}[31m";
    assert_eq!(highlight_regex_result(&compiled("x.*y"), line), line);
}
