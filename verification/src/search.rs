//! Scanning a text: its lines are numbered from 1, and those that the
//! pattern matches are kept, in the order in which they stand in the text.

use vstd::prelude::*;
use vstd::utf8::*;
use crate::lines::{lines_of, next_line};
use crate::pattern::{leftmost_match, CompiledPattern};

verus! {

/// A line that the pattern matched: its number in the file, counted from 1,
/// and what it holds, without its line end.
#[derive(Debug, PartialEq, Eq, Clone)]
pub struct SearchResults {
    pub line_number: u128,
    pub line_content: String,
}

/// A matched line as contracts speak of it.
pub struct MatchedLine {
    pub line_number: nat,
    pub line_content: Seq<char>,
}

impl View for SearchResults {
    type V = MatchedLine;

    open spec fn view(&self) -> MatchedLine {
        MatchedLine { line_number: self.line_number as nat, line_content: self.line_content@ }
    }
}

/// The matched lines that `records` holds.
pub open spec fn records_view(records: Seq<SearchResults>) -> Seq<MatchedLine> {
    Seq::new(records.len(), |i: int| records[i]@)
}

/// `lines`, each with its number.
pub open spec fn numbered(lines: Seq<Seq<char>>) -> Seq<MatchedLine> {
    Seq::new(
        lines.len(),
        |i: int| MatchedLine { line_number: (i + 1) as nat, line_content: lines[i] },
    )
}

/// The test that keeps a line: `pattern` matches somewhere in it.
pub open spec fn is_hit(pattern: Seq<char>) -> spec_fn(MatchedLine) -> bool {
    |line: MatchedLine| leftmost_match(pattern, line.line_content).is_some()
}

/// Those of `lines` that `pattern` matches, each with its number.
pub open spec fn matching(pattern: Seq<char>, lines: Seq<Seq<char>>) -> Seq<MatchedLine> {
    numbered(lines).filter(is_hit(pattern))
}

/// What a search for `pattern` in `text` finds.
pub open spec fn matches_in(pattern: Seq<char>, text: Seq<char>) -> Seq<MatchedLine> {
    matching(pattern, lines_of(text))
}

/// Whether `found` is a selection of `lines` in their order: the numbers
/// rise strictly, each is the number of a line, and each entry holds the
/// line of its number.
pub open spec fn is_selection_of(found: Seq<MatchedLine>, lines: Seq<Seq<char>>) -> bool {
    &&& forall|i: int, j: int|
        0 <= i < j < found.len() ==> (#[trigger] found[i]).line_number < (
        #[trigger] found[j]).line_number
    &&& forall|i: int|
        0 <= i < found.len() ==> {
            &&& 1 <= (#[trigger] found[i]).line_number <= lines.len()
            &&& found[i].line_content == lines[found[i].line_number - 1]
        }
}

/// Whether `found` holds every line of `lines` that `pattern` matches, under
/// the line's number, and no line that it does not match.
pub open spec fn holds_the_hits(
    found: Seq<MatchedLine>,
    pattern: Seq<char>,
    lines: Seq<Seq<char>>,
) -> bool {
    &&& forall|i: int|
        0 <= i < found.len() ==> leftmost_match(
            pattern,
            (#[trigger] found[i]).line_content,
        ).is_some()
    &&& forall|index: int|
        0 <= index < lines.len() && leftmost_match(pattern, #[trigger] lines[index]).is_some()
            ==> found.contains(
            MatchedLine { line_number: (index + 1) as nat, line_content: lines[index] },
        )
}

/// Taking one more line into account adds that line to the matching ones
/// if the pattern matches it, and changes nothing else.
pub proof fn lemma_matching_push(pattern: Seq<char>, lines: Seq<Seq<char>>, line: Seq<char>)
    ensures
        matching(pattern, lines.push(line)) == if leftmost_match(pattern, line).is_some() {
            matching(pattern, lines).push(
                MatchedLine { line_number: lines.len() + 1, line_content: line },
            )
        } else {
            matching(pattern, lines)
        },
{
    let longer = numbered(lines.push(line));
    assert(longer.drop_last() =~= numbered(lines));
    assert(longer.last() == MatchedLine { line_number: lines.len() + 1, line_content: line });
    reveal(Seq::filter);
}

/// The matching lines are a selection of the lines, in their order, and the
/// pattern matches every one of them.
pub proof fn lemma_matching_is_selection(pattern: Seq<char>, lines: Seq<Seq<char>>)
    ensures
        is_selection_of(matching(pattern, lines), lines),
        forall|i: int|
            0 <= i < matching(pattern, lines).len() ==> leftmost_match(
                pattern,
                (#[trigger] matching(pattern, lines)[i]).line_content,
            ).is_some(),
    decreases lines.len(),
{
    if lines.len() == 0 {
        reveal(Seq::filter);
    } else {
        let earlier = lines.drop_last();
        lemma_matching_is_selection(pattern, earlier);
        lemma_matching_push(pattern, earlier, lines.last());
        assert(earlier.push(lines.last()) =~= lines);
    }
}

/// No line is passed over: every line that the pattern matches is among the
/// matching lines, under its own number.
pub proof fn lemma_matching_is_complete(pattern: Seq<char>, lines: Seq<Seq<char>>, index: int)
    requires
        0 <= index < lines.len(),
        leftmost_match(pattern, lines[index]).is_some(),
    ensures
        matching(pattern, lines).contains(
            MatchedLine { line_number: (index + 1) as nat, line_content: lines[index] },
        ),
    decreases lines.len(),
{
    let earlier = lines.drop_last();
    lemma_matching_push(pattern, earlier, lines.last());
    assert(earlier.push(lines.last()) =~= lines);
    let wanted = MatchedLine { line_number: (index + 1) as nat, line_content: lines[index] };
    if index == lines.len() - 1 {
        assert(matching(pattern, lines).last() == wanted);
    } else {
        lemma_matching_is_complete(pattern, earlier, index);
        let at = choose|at: int|
            0 <= at < matching(pattern, earlier).len() && matching(pattern, earlier)[at] == wanted;
        assert(matching(pattern, lines)[at] == wanted);
    }
}

/// The matching lines are the lines that the pattern matches: all of them,
/// and no other.
pub proof fn lemma_matching_holds_the_hits(pattern: Seq<char>, lines: Seq<Seq<char>>)
    ensures
        holds_the_hits(matching(pattern, lines), pattern, lines),
{
    lemma_matching_is_selection(pattern, lines);
    assert forall|index: int|
        0 <= index < lines.len() && leftmost_match(
            pattern,
            #[trigger] lines[index],
        ).is_some() implies matching(pattern, lines).contains(
        MatchedLine { line_number: (index + 1) as nat, line_content: lines[index] },
    ) by {
        lemma_matching_is_complete(pattern, lines, index);
    }
}

/// Where the pattern matches no line, nothing is found.
pub proof fn lemma_no_hit_finds_nothing(pattern: Seq<char>, lines: Seq<Seq<char>>)
    requires
        forall|i: int|
            0 <= i < lines.len() ==> leftmost_match(pattern, #[trigger] lines[i]).is_none(),
    ensures
        matching(pattern, lines) == Seq::<MatchedLine>::empty(),
    decreases lines.len(),
{
    if lines.len() == 0 {
        reveal(Seq::filter);
    } else {
        let earlier = lines.drop_last();
        assert forall|i: int| 0 <= i < earlier.len() implies leftmost_match(
            pattern,
            #[trigger] earlier[i],
        ).is_none() by {
            assert(earlier[i] == lines[i]);
        }
        lemma_no_hit_finds_nothing(pattern, earlier);
        lemma_matching_push(pattern, earlier, lines.last());
        assert(earlier.push(lines.last()) =~= lines);
    }
}

/// Searches `file_contents` for the lines that the pattern matches.
///
/// The result holds exactly those lines, each with its number, in the order
/// of the text: the numbers rise strictly, none exceeds the number of lines,
/// and no matching line is left out.
pub fn search(regex_query_expression: &CompiledPattern, file_contents: &str) -> (results: Vec<
    SearchResults,
>)
    ensures
        records_view(results@) == matches_in(regex_query_expression@, file_contents@),
        is_selection_of(records_view(results@), lines_of(file_contents@)),
        holds_the_hits(
            records_view(results@),
            regex_query_expression@,
            lines_of(file_contents@),
        ),
{
    let mut results: Vec<SearchResults> = Vec::new();
    let mut rest: &str = file_contents;
    let mut line_number: u128 = 0;
    // A text has no more lines than bytes, so the line numbers stay in range.
    let size = file_contents.as_bytes().len();
    let ghost pattern = regex_query_expression@;
    let ghost mut seen: Seq<Seq<char>> = Seq::empty();
    proof {
        assert(seen + lines_of(rest@) =~= lines_of(file_contents@));
        assert(numbered(seen) =~= Seq::<MatchedLine>::empty());
        reveal(Seq::filter);
        assert(records_view(results@) =~= matching(pattern, seen));
    }
    loop
        invariant
            pattern == regex_query_expression@,
            seen + lines_of(rest@) == lines_of(file_contents@),
            line_number == seen.len(),
            seen.len() + encode_utf8(rest@).len() <= size,
            records_view(results@) == matching(pattern, seen),
        ensures
            rest@.len() == 0,
        decreases rest@.len(),
    {
        match next_line(rest) {
            None => {
                break;
            },
            Some((line, remaining)) => {
                line_number = line_number + 1;
                if regex_query_expression.is_match(line) {
                    results.push(SearchResults { line_number, line_content: line.to_owned() });
                }
                proof {
                    lemma_matching_push(pattern, seen, line@);
                    assert(records_view(results@) =~= matching(pattern, seen.push(line@)));
                    assert(seen.push(line@) + lines_of(remaining@) =~= seen + lines_of(rest@));
                    seen = seen.push(line@);
                }
                rest = remaining;
            },
        }
    }
    proof {
        assert(seen =~= lines_of(file_contents@));
        lemma_matching_is_selection(pattern, seen);
        lemma_matching_holds_the_hits(pattern, seen);
    }
    results
}

/// What became of the scan of one file: the lines that were found in it, or
/// why it could not be read. The outcome is made once for each file.
#[derive(Debug, PartialEq, Eq, Clone)]
pub enum ScanOutcome {
    Success { filename: String, matches: Vec<SearchResults> },
    Failure { filename: String, cause: String },
}

/// A scan's outcome as contracts speak of it.
pub enum Scanned {
    Success { filename: Seq<char>, matches: Seq<MatchedLine> },
    Failure { filename: Seq<char>, cause: Seq<char> },
}

impl View for ScanOutcome {
    type V = Scanned;

    open spec fn view(&self) -> Scanned {
        match self {
            ScanOutcome::Success { filename, matches } => Scanned::Success {
                filename: filename@,
                matches: records_view(matches@),
            },
            ScanOutcome::Failure { filename, cause } => Scanned::Failure {
                filename: filename@,
                cause: cause@,
            },
        }
    }
}

/// What reading a file came to: its text, or why it could not be read.
pub open spec fn read_view(file_read: Result<String, String>) -> Result<Seq<char>, Seq<char>> {
    match file_read {
        Ok(contents) => Ok(contents@),
        Err(cause) => Err(cause@),
    }
}

/// The outcome that is owed for a file: for a text, all that a search finds
/// in it, be it nothing; for a file that could not be read, the failure
/// with its cause and none of the file's lines.
pub open spec fn scan_of(
    pattern: Seq<char>,
    filename: Seq<char>,
    file_read: Result<Seq<char>, Seq<char>>,
) -> Scanned {
    match file_read {
        Ok(contents) => Scanned::Success { filename, matches: matches_in(pattern, contents) },
        Err(cause) => Scanned::Failure { filename, cause },
    }
}

/// Scans one file, given what reading it came to.
pub fn scan(
    regex_query_expression: &CompiledPattern,
    filename: &str,
    file_read: &Result<String, String>,
) -> (outcome: ScanOutcome)
    ensures
        outcome@ == scan_of(regex_query_expression@, filename@, read_view(*file_read)),
{
    match file_read {
        Ok(contents) => ScanOutcome::Success {
            filename: filename.to_owned(),
            matches: search(regex_query_expression, contents.as_str()),
        },
        Err(cause) => ScanOutcome::Failure { filename: filename.to_owned(), cause: cause.clone() },
    }
}

/// A file's lines are numbered by where they stand, and matching lines come
/// in that order: whatever a scan of a readable file returns, the line
/// numbers of its matches rise strictly, each of them is the number of a
/// line of the file, and each match holds the line of its number.
pub proof fn lemma_scan_keeps_order(
    pattern: Seq<char>,
    filename: Seq<char>,
    contents: Seq<char>,
    outcome: ScanOutcome,
)
    requires
        outcome@ == scan_of(pattern, filename, Ok(contents)),
    ensures
        outcome@ is Success,
        is_selection_of(outcome@->Success_matches, lines_of(contents)),
{
    lemma_matching_is_selection(pattern, lines_of(contents));
}

/// Scanning is repeatable: two scans with one pattern of one file, read
/// with one result, have the same outcome, match for match.
pub proof fn lemma_scan_is_repeatable(
    pattern: Seq<char>,
    filename: Seq<char>,
    file_read: Result<Seq<char>, Seq<char>>,
    first: ScanOutcome,
    second: ScanOutcome,
)
    requires
        first@ == scan_of(pattern, filename, file_read),
        second@ == scan_of(pattern, filename, file_read),
    ensures
        first@ == second@,
{
}

} // verus!
