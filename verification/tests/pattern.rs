use fsrep::pattern::compiled_or_refused;
use fsrep::{create_regex_expression, search, CompiledPattern};

fn compiled(pattern: &str) -> CompiledPattern {
    create_regex_expression(pattern).unwrap()
}

#[test]
fn valid_pattern_compiles_and_keeps_its_text() {
    let query = compiled(r"foo\w+bar");
    assert_eq!(query.pattern(), r"foo\w+bar");
}

#[test]
fn unclosed_group_is_refused() {
    let refusal = create_regex_expression("foo(bar").unwrap_err();
    assert!(refusal.message.contains("unclosed group"));
}

#[test]
fn oversized_pattern_is_refused() {
    let refusal = create_regex_expression(r"\w{1000}").unwrap_err();
    assert!(refusal.message.contains("size limit"));
}

#[test]
fn refusal_carries_the_message_of_the_compiler() {
    let error = regex::Regex::new("a{2,1}").unwrap_err();
    let expected = error.to_string();
    let refusal = compiled_or_refused(Err(error)).unwrap_err();
    assert_eq!(refusal.message, expected);
    assert_ne!(refusal.message, "a{2,1}");
}

#[test]
fn is_match_finds_a_match_anywhere_in_the_line() {
    let query = compiled("chimar");
    assert!(query.is_match("Orochimaru"));
    assert!(!query.is_match("Madara"));
    assert!(!query.is_match(""));
}

#[test]
fn is_match_on_the_empty_line() {
    assert!(compiled("^$").is_match(""));
    assert!(compiled("a*").is_match(""));
    assert!(!compiled("a+").is_match(""));
}

#[test]
fn locate_gives_the_first_match_only() {
    let query = compiled("ab");
    assert_eq!(query.locate("xxabyyabzz"), Some((2, 4)));
    assert_eq!(query.locate("ab"), Some((0, 2)));
    assert_eq!(query.locate("ba"), None);
}

#[test]
fn locate_counts_in_bytes() {
    let query = compiled(r"\p{Greek}+");
    assert_eq!(query.locate("Greek: αβγδ"), Some((7, 15)));
    assert_eq!(compiled("b").locate("äb"), Some((2, 3)));
}

#[test]
fn locate_can_give_an_empty_span() {
    assert_eq!(compiled("x*").locate("abc"), Some((0, 0)));
    assert_eq!(compiled("$").locate("abc"), Some((3, 3)));
}

#[test]
fn anchored_pattern_matches_the_first_line_at_offsets_zero_to_five() {
    let query = compiled("^Lorem");
    let found = search(&query, "Lorem\nsearch\n");
    assert_eq!(found.len(), 1);
    assert_eq!(found[0].line_number, 1);
    assert_eq!(found[0].line_content, "Lorem");
    assert_eq!(query.locate(&found[0].line_content), Some((0, 5)));
}

#[test]
fn a_line_is_a_match_exactly_when_a_span_is_located() {
    let patterns = ["a", "^$", "o+", r"\d{2}", "é", "(x|y)z", ".", "b$"];
    let lines = ["", "a", "foo", "x12", "café", "yz and xz", "\t", "ab", "ba", "日本語"];
    for pattern in patterns {
        let query = compiled(pattern);
        for line in lines {
            assert_eq!(query.is_match(line), query.locate(line).is_some(), "{pattern} on {line}");
        }
    }
}

#[test]
fn a_cloned_pattern_matches_as_the_first_does() {
    let query = compiled("^a.c$");
    let copy = query.clone();
    assert_eq!(copy.pattern(), "^a.c$");
    assert_eq!(copy.is_match("abc"), query.is_match("abc"));
    assert_eq!(copy.locate("abcd"), query.locate("abcd"));
}
