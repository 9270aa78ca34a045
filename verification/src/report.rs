//! What is written about a file: a summary line with the number of matching
//! lines, then one line for each of them, with its number and with the first
//! match in it set off from the rest; or, for a failure, one diagnostic line.
//!
//! The lines are made here and printed by the caller.

use vstd::prelude::*;
use vstd::utf8::*;
use crate::pattern::{is_span_of, leftmost_match, CompiledPattern};
use crate::search::{records_view, MatchedLine, SearchResults};
use crate::style::{is_painted, paint, Tint};
use crate::text::{split_around, text_between, texts};

verus! {

/// The character that writes the digit `value`.
pub open spec fn digit(value: nat) -> char {
    if value == 0 {
        '0'
    } else if value == 1 {
        '1'
    } else if value == 2 {
        '2'
    } else if value == 3 {
        '3'
    } else if value == 4 {
        '4'
    } else if value == 5 {
        '5'
    } else if value == 6 {
        '6'
    } else if value == 7 {
        '7'
    } else if value == 8 {
        '8'
    } else {
        '9'
    }
}

/// `number` in decimal digits, without leading zeros.
pub open spec fn decimal(number: nat) -> Seq<char>
    decreases number,
{
    if number < 10 {
        seq![digit(number)]
    } else {
        decimal(number / 10).push(digit(number % 10))
    }
}

/// The text of one digit.
fn digit_text(value: u8) -> (text: &'static str)
    requires
        value < 10,
    ensures
        text@ == seq![digit(value as nat)],
{
    proof {
        reveal_strlit("0");
        reveal_strlit("1");
        reveal_strlit("2");
        reveal_strlit("3");
        reveal_strlit("4");
        reveal_strlit("5");
        reveal_strlit("6");
        reveal_strlit("7");
        reveal_strlit("8");
        reveal_strlit("9");
    }
    let text = if value == 0 {
        "0"
    } else if value == 1 {
        "1"
    } else if value == 2 {
        "2"
    } else if value == 3 {
        "3"
    } else if value == 4 {
        "4"
    } else if value == 5 {
        "5"
    } else if value == 6 {
        "6"
    } else if value == 7 {
        "7"
    } else if value == 8 {
        "8"
    } else {
        "9"
    };
    assert(text@ =~= seq![digit(value as nat)]);
    text
}

/// Writes `number` in decimal digits.
pub fn decimal_text(number: u128) -> (text: String)
    ensures
        text@ == decimal(number as nat),
{
    let mut text = String::from_str(digit_text((number % 10) as u8));
    let mut rest = number / 10;
    while rest > 0
        invariant
            rest > 0 ==> decimal(number as nat) == decimal(rest as nat) + text@,
            rest == 0 ==> decimal(number as nat) == text@,
        decreases rest,
    {
        let mut longer = String::from_str(digit_text((rest % 10) as u8));
        longer.append(text.as_str());
        proof {
            if rest >= 10 {
                assert(decimal(rest as nat) + text@ =~= decimal((rest / 10) as nat) + longer@);
            } else {
                assert(decimal(rest as nat) + text@ =~= longer@);
            }
        }
        text = longer;
        rest = rest / 10;
    }
    text
}

/// `line` with `styled` in the place of what it holds between the byte
/// offsets of `span`.
pub open spec fn highlighted(line: Seq<char>, span: (int, int), styled: Seq<char>) -> Seq<char> {
    text_between(line, 0, span.0) + styled + text_between(
        line,
        span.1,
        encode_utf8(line).len() as int,
    )
}

/// Whether `out` is `line` with what it holds between the byte offsets of
/// `span` set off: what stands before `span` and after it is unchanged, and
/// what stands in it is styled in green.
pub open spec fn is_span_highlighted(line: Seq<char>, span: (int, int), out: Seq<char>) -> bool {
    exists|styled: Seq<char>|
        is_painted(text_between(line, span.0, span.1), Tint::Green, styled) && out
            == #[trigger] highlighted(line, span, styled)
}

/// Whether `out` is `line` with the first match of `pattern` in it set off.
/// A line without a match has no such text.
pub open spec fn is_highlighted(pattern: Seq<char>, line: Seq<char>, out: Seq<char>) -> bool {
    match leftmost_match(pattern, line) {
        Some(span) => is_span_highlighted(line, span, out),
        None => false,
    }
}

/// The summary line for `filename`, given the styled tag and the styled
/// number of matching lines.
pub open spec fn summary_text(tag: Seq<char>, filename: Seq<char>, count: Seq<char>) -> Seq<char> {
    tag + ": In file: '"@ + filename + "' "@ + count + " matches found"@
}

/// Whether `out` is the summary line that reports `count` matching lines in
/// `filename`.
pub open spec fn is_summary(filename: Seq<char>, count: nat, out: Seq<char>) -> bool {
    exists|tag: Seq<char>, number: Seq<char>|
        is_painted("fsrep success"@, Tint::Green, tag) && is_painted(
            decimal(count),
            Tint::Green,
            number,
        ) && out == #[trigger] summary_text(tag, filename, number)
}

/// The line for one match, given its styled number and its content with the
/// match set off.
pub open spec fn match_text(number: Seq<char>, content: Seq<char>) -> Seq<char> {
    number + ": "@ + content
}

/// Whether `out` is the line that reports the matched line `found`.
pub open spec fn is_match_line(pattern: Seq<char>, found: MatchedLine, out: Seq<char>) -> bool {
    exists|number: Seq<char>, content: Seq<char>|
        is_painted(decimal(found.line_number), Tint::Cyan, number) && is_highlighted(
            pattern,
            found.line_content,
            content,
        ) && out == #[trigger] match_text(number, content)
}

/// Whether `lines` is the report on `found` in `filename`: the summary line
/// with the number of matches, then one line for each match, in their order,
/// none left out and none twice.
pub open spec fn is_report(
    pattern: Seq<char>,
    filename: Seq<char>,
    found: Seq<MatchedLine>,
    lines: Seq<Seq<char>>,
) -> bool {
    &&& lines.len() == found.len() + 1
    &&& is_summary(filename, found.len(), lines[0])
    &&& forall|i: int|
        0 <= i < found.len() ==> is_match_line(pattern, found[i], #[trigger] lines[i + 1])
}

/// The diagnostic line for the fault `error`, given the styled tag; `info`
/// names what the fault is about, most often a file.
pub open spec fn failure_text(tag: Seq<char>, error: Seq<char>, info: Option<Seq<char>>) -> Seq<
    char,
> {
    match info {
        Some(about) => tag + ": '"@ + about + "' "@ + error,
        None => tag + ": "@ + error,
    }
}

/// Whether `out` is the diagnostic line for the fault `error`.
pub open spec fn is_diagnostic(error: Seq<char>, info: Option<Seq<char>>, out: Seq<char>) -> bool {
    exists|tag: Seq<char>|
        is_painted("fsrep failure"@, Tint::Red, tag) && out == #[trigger] failure_text(
            tag,
            error,
            info,
        )
}

/// What `info` names, if anything.
pub open spec fn info_view(info: Option<&str>) -> Option<Seq<char>> {
    match info {
        Some(about) => Some(about@),
        None => None,
    }
}

/// Writes `line_content` with `styled` in the place of what stands between
/// the byte offsets `start` and `end`.
pub fn highlight_with(line_content: &str, start: usize, end: usize, styled: &str) -> (out: String)
    requires
        is_span_of(line_content@, (start as int, end as int)),
    ensures
        out@ == highlighted(line_content@, (start as int, end as int), styled@),
{
    let (before, _, after) = split_around(line_content, start, end);
    let mut out = String::from_str(before);
    out.append(styled);
    out.append(after);
    out
}

/// Writes `line_content` with the first match of the pattern set off in
/// green. The pattern has to match the line.
pub fn highlight_regex_result(regex_query_expression: &CompiledPattern, line_content: &str) -> (out:
    String)
    requires
        leftmost_match(regex_query_expression@, line_content@).is_some(),
    ensures
        is_highlighted(regex_query_expression@, line_content@, out@),
{
    let (start, end) = regex_query_expression.locate(line_content).unwrap();
    let (_, matched, _) = split_around(line_content, start, end);
    let styled = paint(matched, Tint::Green);
    let out = highlight_with(line_content, start, end, styled.as_str());
    proof {
        let span = (start as int, end as int);
        assert(leftmost_match(regex_query_expression@, line_content@) == Some(span));
        assert(out@ == highlighted(line_content@, span, styled@));
        assert(is_span_highlighted(line_content@, span, out@));
    }
    out
}

/// Writes `line_content` with the first match of the pattern set off in
/// green, if the pattern matches the line; a line that it does not match
/// comes back as it is.
pub fn highlight_line(regex_query_expression: &CompiledPattern, line_content: &str) -> (out: String)
    ensures
        leftmost_match(regex_query_expression@, line_content@).is_some() ==> is_highlighted(
            regex_query_expression@,
            line_content@,
            out@,
        ),
        leftmost_match(regex_query_expression@, line_content@).is_none() ==> out@ == line_content@,
{
    if regex_query_expression.is_match(line_content) {
        highlight_regex_result(regex_query_expression, line_content)
    } else {
        String::from_str(line_content)
    }
}

/// Writes the summary line from its parts.
pub fn summary_line(tag: &str, filename: &str, count: &str) -> (out: String)
    ensures
        out@ == summary_text(tag@, filename@, count@),
{
    let mut out = String::from_str(tag);
    out.append(": In file: '");
    out.append(filename);
    out.append("' ");
    out.append(count);
    out.append(" matches found");
    out
}

/// Writes the line for one match from its parts.
pub fn match_line(number: &str, content: &str) -> (out: String)
    ensures
        out@ == match_text(number@, content@),
{
    let mut out = String::from_str(number);
    out.append(": ");
    out.append(content);
    out
}

/// Writes a diagnostic line from its parts.
pub fn failure_line(tag: &str, error_flag: &str, additional_info: Option<&str>) -> (out: String)
    ensures
        out@ == failure_text(tag@, error_flag@, info_view(additional_info)),
{
    let mut out = String::from_str(tag);
    match additional_info {
        Some(about) => {
            out.append(": '");
            out.append(about);
            out.append("' ");
        },
        None => {
            out.append(": ");
        },
    }
    out.append(error_flag);
    out
}

/// Writes the report on the matches found in `filename`: the summary line,
/// then a line for each match. Every one of `regex_query_results` has to be
/// a line that the pattern matches, as every result of a search is.
pub fn render_results(
    filename: &str,
    regex_query_expression: &CompiledPattern,
    regex_query_results: &Vec<SearchResults>,
) -> (lines: Vec<String>)
    requires
        forall|i: int|
            0 <= i < regex_query_results@.len() ==> leftmost_match(
                regex_query_expression@,
                (#[trigger] regex_query_results@[i]).line_content@,
            ).is_some(),
    ensures
        is_report(
            regex_query_expression@,
            filename@,
            records_view(regex_query_results@),
            texts(lines@),
        ),
{
    let tag = paint("fsrep success", Tint::Green);
    let count = decimal_text(regex_query_results.len() as u128);
    let styled_count = paint(count.as_str(), Tint::Green);
    let mut lines: Vec<String> = Vec::new();
    lines.push(summary_line(tag.as_str(), filename, styled_count.as_str()));
    let ghost pattern = regex_query_expression@;
    let ghost found = records_view(regex_query_results@);
    let ghost summary = lines@[0]@;
    let mut next: usize = 0;
    while next < regex_query_results.len()
        invariant
            pattern == regex_query_expression@,
            found == records_view(regex_query_results@),
            next <= regex_query_results@.len(),
            lines@.len() == next + 1,
            lines@[0]@ == summary,
            forall|i: int|
                0 <= i < next ==> is_match_line(pattern, found[i], (#[trigger] lines@[i + 1])@),
            forall|i: int|
                0 <= i < regex_query_results@.len() ==> leftmost_match(
                    pattern,
                    (#[trigger] regex_query_results@[i]).line_content@,
                ).is_some(),
        decreases regex_query_results@.len() - next,
    {
        let result = &regex_query_results[next];
        let number = decimal_text(result.line_number);
        let styled_number = paint(number.as_str(), Tint::Cyan);
        let content = highlight_regex_result(regex_query_expression, result.line_content.as_str());
        let line = match_line(styled_number.as_str(), content.as_str());
        proof {
            assert(line@ == match_text(styled_number@, content@));
            assert(is_match_line(pattern, found[next as int], line@));
        }
        let ghost before = lines@;
        lines.push(line);
        proof {
            assert forall|i: int| 0 <= i < next + 1 implies is_match_line(
                pattern,
                found[i],
                (#[trigger] lines@[i + 1])@,
            ) by {
                if i < next {
                    assert(lines@[i + 1] == before[i + 1]);
                }
            }
        }
        next += 1;
    }
    proof {
        assert(summary == summary_text(tag@, filename@, styled_count@));
        assert(is_summary(filename@, found.len(), texts(lines@)[0]));
        assert forall|i: int| 0 <= i < found.len() implies is_match_line(
            pattern,
            found[i],
            #[trigger] texts(lines@)[i + 1],
        ) by {
            assert(is_match_line(pattern, found[i], lines@[i + 1]@));
        }
    }
    lines
}

/// Writes the diagnostic line for a fault: the failure tag, then in quotes
/// what the fault is about, if `additional_info` names it, then the fault
/// `error_flag` itself. The caller prints the line and ends the process.
pub fn fsrep_failure(error_flag: &str, additional_info: Option<&str>) -> (out: String)
    ensures
        is_diagnostic(error_flag@, info_view(additional_info), out@),
{
    let tag = paint("fsrep failure", Tint::Red);
    failure_line(tag.as_str(), error_flag, additional_info)
}

} // verus!
