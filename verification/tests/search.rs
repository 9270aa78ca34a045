use fsrep::lines::next_line;
use fsrep::{create_regex_expression, scan, search, CompiledPattern, ScanOutcome, SearchResults};

fn compiled(pattern: &str) -> CompiledPattern {
    create_regex_expression(pattern).unwrap()
}

fn record(line_number: u128, line_content: &str) -> SearchResults {
    SearchResults { line_number, line_content: line_content.to_string() }
}

fn lines_by_next_line(text: &str) -> Vec<String> {
    let mut lines = Vec::new();
    let mut rest = text;
    while let Some((line, remaining)) = next_line(rest) {
        assert!(remaining.len() < rest.len());
        lines.push(line.to_string());
        rest = remaining;
    }
    lines
}

#[test]
#[should_panic(expected = "  left: [SearchResults { line_number: 16, line_content: \"Black\" }]\n right: []")]
fn search_not_found() {
    let query: &CompiledPattern = &create_regex_expression(&"Black").unwrap();
    let contents: &str = "\
            Itachi
            Madara
            Obito
            Pain
            Orochimaru
            Shin
            Konan
            Kakuzu
            Kisame
            Deidara
            Sasori
            Hidan
            Yahiko";

    assert_eq!(vec![SearchResults{ line_number: 16, line_content: "Black".to_string() }], search(&query, &contents));
}

#[test]
fn search_found() {
    let query: &CompiledPattern = &create_regex_expression(&"Orochimaru").unwrap();
    let contents: &str = "\
            Itachi
            Madara
            Obito
            Pain
            Orochimaru
            Shin
            Konan
            Kakuzu
            Kisame
            Deidara
            Sasori
            Hidan
            Yahiko";

    assert_eq!(vec![SearchResults{ line_number: 5, line_content: "            Orochimaru".to_string() }], search(&query, &contents));
}

#[test]
fn search_finds_nothing_where_no_line_matches() {
    let found = search(&compiled("Black"), "Itachi\nMadara\nObito\n");
    assert_eq!(found, Vec::<SearchResults>::new());
}

#[test]
fn search_in_four_lines_finds_the_third() {
    let found = search(&compiled("Orochimaru"), "Itachi\nMadara\nOrochimaru\nShin");
    assert_eq!(found, vec![record(3, "Orochimaru")]);
}

#[test]
fn search_numbers_lines_by_position_not_by_match() {
    let found = search(&compiled("a"), "x\na1\ny\n\na2\nz\na3\n");
    assert_eq!(found, vec![record(2, "a1"), record(5, "a2"), record(7, "a3")]);
}

#[test]
fn search_keeps_every_matching_line_in_rising_order() {
    let text = "b\nab\nba\nc\n\nabc\ncab\nd";
    let total = text.lines().count() as u128;
    let found = search(&compiled("b"), text);
    let numbers: Vec<u128> = found.iter().map(|line| line.line_number).collect();
    assert_eq!(numbers, vec![1, 2, 3, 6, 7]);
    assert!(numbers.windows(2).all(|pair| pair[0] < pair[1]));
    assert!(numbers.iter().all(|number| 1 <= *number && *number <= total));
    let all: Vec<&str> = text.lines().collect();
    for line in &found {
        assert_eq!(line.line_content, all[line.line_number as usize - 1]);
    }
}

#[test]
fn search_in_an_empty_text_finds_nothing() {
    assert_eq!(search(&compiled(""), ""), Vec::<SearchResults>::new());
    assert_eq!(search(&compiled("^$"), ""), Vec::<SearchResults>::new());
}

#[test]
fn search_sees_empty_lines() {
    let found = search(&compiled("^$"), "\n\nx\n\n");
    assert_eq!(found, vec![record(1, ""), record(2, ""), record(4, "")]);
}

#[test]
fn trailing_line_feed_adds_no_line() {
    let query = compiled(".*");
    assert_eq!(search(&query, "one\ntwo\n"), vec![record(1, "one"), record(2, "two")]);
    assert_eq!(search(&query, "one\ntwo"), vec![record(1, "one"), record(2, "two")]);
    assert_eq!(search(&query, "\n"), vec![record(1, "")]);
}

#[test]
fn carriage_return_before_line_feed_is_no_part_of_the_line() {
    let found = search(&compiled("o$"), "one\r\ntwo\r\nthree");
    assert_eq!(found, vec![record(2, "two")]);
}

#[test]
fn carriage_return_alone_stays_in_the_line() {
    let query = compiled("\r");
    assert_eq!(search(&query, "a\rb\nc\r"), vec![record(1, "a\rb"), record(2, "c\r")]);
    assert_eq!(search(&query, "a\r\r\nb"), vec![record(1, "a\r")]);
}

#[test]
fn search_handles_lines_of_many_bytes_a_character() {
    let found = search(&compiled("語"), "日本語\nnihongo\r\n語\n");
    assert_eq!(found, vec![record(1, "日本語"), record(3, "語")]);
}

#[test]
fn next_line_splits_as_the_standard_library_does() {
    let texts = [
        "",
        "a",
        "a\n",
        "a\nb",
        "a\r\nb\r\n",
        "\n",
        "\n\n",
        "\r\n",
        "\r",
        "a\r",
        "a\rb\n",
        "\r\r\n",
        "\n\r",
        "x\n\ny\n\n",
        "日本語\r\nß\n",
        "no line feed at the end\r",
        "\u{85}\u{2028}\n\u{b}",
    ];
    for text in texts {
        let expected: Vec<String> = text.lines().map(|line| line.to_string()).collect();
        assert_eq!(lines_by_next_line(text), expected, "{text:?}");
    }
}

#[test]
fn next_line_returns_the_line_and_what_follows_it() {
    assert_eq!(next_line("one\r\ntwo\nthree"), Some(("one", "two\nthree")));
    assert_eq!(next_line("last"), Some(("last", "")));
    assert_eq!(next_line("\nrest"), Some(("", "rest")));
    assert_eq!(next_line("\n"), Some(("", "")));
    assert_eq!(next_line(""), None);
}

#[test]
fn scan_of_a_text_succeeds_with_its_matches() {
    let outcome = scan(&compiled("in"), "a.txt", &Ok("Pain\nShin\nKonan\n".to_string()));
    assert_eq!(
        outcome,
        ScanOutcome::Success {
            filename: "a.txt".to_string(),
            matches: vec![record(1, "Pain"), record(2, "Shin")],
        }
    );
}

#[test]
fn scan_without_a_match_succeeds_with_no_match() {
    let outcome = scan(&compiled("Black"), "a.txt", &Ok("Pain\nShin\n".to_string()));
    assert_eq!(outcome, ScanOutcome::Success { filename: "a.txt".to_string(), matches: vec![] });
}

#[test]
fn scan_of_an_unreadable_file_fails_with_the_cause() {
    let outcome = scan(&compiled("."), "missing.txt", &Err("No such file or directory".to_string()));
    assert_eq!(
        outcome,
        ScanOutcome::Failure {
            filename: "missing.txt".to_string(),
            cause: "No such file or directory".to_string(),
        }
    );
}

#[test]
fn scanning_twice_gives_the_same_outcome() {
    let query = compiled("a|e");
    let read = Ok("alpha\nbeta\ngamma\nphi\n".to_string());
    let first = scan(&query, "greek.txt", &read);
    let second = scan(&query, "greek.txt", &read);
    assert_eq!(first, second);
    let again = scan(&compiled("a|e"), "greek.txt", &read);
    assert_eq!(first, again);
}
