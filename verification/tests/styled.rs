use fsrep::{
    create_regex_expression, fsrep_failure, highlight_line, highlight_regex_result,
    render_results, CompiledPattern, SearchResults,
};

fn compiled(pattern: &str) -> CompiledPattern {
    create_regex_expression(pattern).unwrap()
}

fn styled() {
    colored::control::set_override(true);
}

#[test]
fn highlight_sets_off_a_match_at_the_start() {
    styled();
    assert_eq!(
        highlight_regex_result(&compiled("^Lorem"), "Lorem ipsum"),
        "\u{1b}[1;32mLorem\u{1b}[0m ipsum"
    );
}

#[test]
fn highlight_sets_off_a_match_in_the_middle() {
    styled();
    assert_eq!(
        highlight_regex_result(&compiled("ipsum"), "Lorem ipsum dolor"),
        "Lorem \u{1b}[1;32mipsum\u{1b}[0m dolor"
    );
}

#[test]
fn highlight_sets_off_a_match_at_the_end() {
    styled();
    assert_eq!(
        highlight_regex_result(&compiled("dolor$"), "ipsum dolor"),
        "ipsum \u{1b}[1;32mdolor\u{1b}[0m"
    );
}

#[test]
fn highlight_sets_off_the_first_match_only() {
    styled();
    assert_eq!(
        highlight_regex_result(&compiled("na"), "banana"),
        "ba\u{1b}[1;32mna\u{1b}[0mna"
    );
}

#[test]
fn highlight_sets_off_a_match_of_many_bytes_a_character() {
    styled();
    assert_eq!(
        highlight_regex_result(&compiled("本"), "日本語"),
        "日\u{1b}[1;32m本\u{1b}[0m語"
    );
}

#[test]
fn highlight_of_an_empty_match_writes_the_codes_alone() {
    styled();
    assert_eq!(highlight_regex_result(&compiled("x*"), "abc"), "\u{1b}[1;32m\u{1b}[0mabc");
}

#[test]
fn highlight_line_leaves_a_line_without_a_match_as_it_is() {
    styled();
    let query = compiled("ipsum");
    assert_eq!(highlight_line(&query, "Lorem ipsum"), "Lorem \u{1b}[1;32mipsum\u{1b}[0m");
    assert_eq!(highlight_line(&query, "dolor sit"), "dolor sit");
    assert_eq!(highlight_line(&query, ""), "");
}

#[test]
fn styled_report() {
    styled();
    let found = vec![SearchResults { line_number: 3, line_content: "Orochimaru".to_string() }];
    let lines = render_results("a.txt", &compiled("chi"), &found);
    assert_eq!(
        lines,
        vec![
            "\u{1b}[1;32mfsrep success\u{1b}[0m: In file: 'a.txt' \u{1b}[1;32m1\u{1b}[0m matches found",
            "\u{1b}[1;36m3\u{1b}[0m: Oro\u{1b}[1;32mchi\u{1b}[0mmaru",
        ]
    );
}

#[test]
fn styled_failure() {
    styled();
    assert_eq!(
        fsrep_failure("cause", Some("missing.txt")),
        "\u{1b}[1;31mfsrep failure\u{1b}[0m: 'missing.txt' cause"
    );
    assert_eq!(fsrep_failure("cause", None), "\u{1b}[1;31mfsrep failure\u{1b}[0m: cause");
}

#[test]
fn a_match_that_holds_another_code_is_set_off_unchanged() {
    styled();
    assert_eq!(
        highlight_regex_result(&compiled("x.*y"), "-x\u{1b}[31my-"),
        "-\u{1b}[1;32mx\u{1b}[31my\u{1b}[0m-"
    );
}

#[test]
fn a_match_that_holds_the_closing_code_has_its_style_taken_up_again() {
    styled();
    assert_eq!(
        highlight_regex_result(&compiled("x.*y"), "x\u{1b}[0my"),
        "\u{1b}[1;32mx\u{1b}[0m\u{1b}[1;32my\u{1b}[0m"
    );
}
