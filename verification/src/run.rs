//! A run: the pattern is compiled once, every file is scanned with it, and
//! each file gets its report or its diagnostic. A file that could not be read
//! costs the run its success and nothing else: the other files are scanned
//! and reported all the same.
//!
//! The files are read by the caller, who hands in what each reading came to.
//! What is owed for one file depends on that file alone, so a caller is free
//! to have its files scanned side by side: it calls `report_file` for each
//! of them and `exit_code` at the end. `run_process` does the same, in the
//! order of the file names, for files that are all read already. A caller
//! that reads no file before the pattern has compiled calls
//! `create_regex_expression` first and `run_compiled` once the files are read.

use vstd::prelude::*;
use crate::config::Config;
use crate::lines::lines_of;
use crate::pattern::{create_regex_expression, leftmost_match, CompiledPattern, InvalidPattern};
use crate::report::{fsrep_failure, is_diagnostic, is_report, is_summary, render_results};
use crate::search::{
    lemma_matching_is_selection, lemma_no_hit_finds_nothing, matches_in, read_view, records_view,
    scan, scan_of, MatchedLine, ScanOutcome, Scanned,
};
use crate::text::texts;

verus! {

/// What a run has to say about one file: the outcome of its scan, and the
/// lines to print. For a file that was scanned these are the report, meant
/// for the standard output; for one that could not be read, the one
/// diagnostic line, meant for the standard error.
#[derive(Debug, PartialEq, Eq, Clone)]
pub struct FileReport {
    pub outcome: ScanOutcome,
    pub lines: Vec<String>,
}

/// What a run comes to: one entry for each file, in the order of the file
/// names, and the status with which the process is to end.
#[derive(Debug, PartialEq, Eq, Clone)]
pub struct RunReport {
    pub files: Vec<FileReport>,
    pub exit_code: i32,
}

/// Whether `report` is what is owed for the file `filename`, read with the
/// result `file_read`.
pub open spec fn is_file_report(
    pattern: Seq<char>,
    filename: Seq<char>,
    file_read: Result<Seq<char>, Seq<char>>,
    report: FileReport,
) -> bool {
    &&& report.outcome@ == scan_of(pattern, filename, file_read)
    &&& match file_read {
        Ok(contents) => is_report(
            pattern,
            filename,
            matches_in(pattern, contents),
            texts(report.lines@),
        ),
        Err(cause) => report.lines@.len() == 1 && is_diagnostic(
            cause,
            Some(filename),
            report.lines@[0]@,
        ),
    }
}

/// Whether every one of the files was scanned.
pub open spec fn all_scanned(files: Seq<FileReport>) -> bool {
    forall|i: int| 0 <= i < files.len() ==> (#[trigger] files[i]).outcome is Success
}

/// The status with which a run over `files` ends: 0 if every file was
/// scanned, be it without a match; 1 if a file could not be read.
pub open spec fn status_of(files: Seq<FileReport>) -> i32 {
    if all_scanned(files) {
        0
    } else {
        1
    }
}

/// Whether every file was read.
pub open spec fn all_read(file_reads: Seq<Result<String, String>>) -> bool {
    forall|i: int| 0 <= i < file_reads.len() ==> (#[trigger] file_reads[i]) is Ok
}

/// Whether `run` is what is owed for the files `filenames`, read with the
/// results `file_reads`: an entry for each file, every entry what is owed for
/// its file whatever became of the others, and the status 0 if every file
/// was read, 1 if not.
pub open spec fn is_run_report(
    pattern: Seq<char>,
    filenames: Seq<String>,
    file_reads: Seq<Result<String, String>>,
    run: RunReport,
) -> bool {
    &&& run.files@.len() == filenames.len()
    &&& forall|i: int|
        0 <= i < filenames.len() ==> is_file_report(
            pattern,
            filenames[i]@,
            read_view(file_reads[i]),
            #[trigger] run.files@[i],
        )
    &&& run.exit_code == if all_read(file_reads) {
        0i32
    } else {
        1i32
    }
}

/// Scans one file, given what reading it came to, and writes what is to be
/// printed about it.
pub fn report_file(
    regex_query_expression: &CompiledPattern,
    filename: &str,
    file_read: &Result<String, String>,
) -> (report: FileReport)
    ensures
        is_file_report(regex_query_expression@, filename@, read_view(*file_read), report),
{
    let outcome = scan(regex_query_expression, filename, file_read);
    let mut lines: Vec<String> = Vec::new();
    match &outcome {
        ScanOutcome::Success { filename: _, matches } => {
            proof {
                let contents = file_read->Ok_0@;
                lemma_matching_is_selection(regex_query_expression@, lines_of(contents));
                assert forall|i: int| 0 <= i < matches@.len() implies leftmost_match(
                    regex_query_expression@,
                    (#[trigger] matches@[i]).line_content@,
                ).is_some() by {
                    assert(records_view(matches@)[i].line_content == matches@[i].line_content@);
                }
            }
            lines = render_results(filename, regex_query_expression, matches);
        },
        ScanOutcome::Failure { filename: _, cause } => {
            lines.push(fsrep_failure(cause.as_str(), Some(filename)));
        },
    }
    FileReport { outcome, lines }
}

/// The files that were scanned are those that were read.
pub proof fn lemma_scanned_is_read(
    pattern: Seq<char>,
    filenames: Seq<String>,
    file_reads: Seq<Result<String, String>>,
    files: Seq<FileReport>,
)
    requires
        file_reads.len() == filenames.len(),
        files.len() == filenames.len(),
        forall|i: int|
            0 <= i < filenames.len() ==> is_file_report(
                pattern,
                filenames[i]@,
                read_view(file_reads[i]),
                #[trigger] files[i],
            ),
    ensures
        all_scanned(files) <==> all_read(file_reads),
{
    assert forall|i: int| 0 <= i < files.len() implies ((#[trigger] files[i]).outcome is Success
        <==> file_reads[i] is Ok) by {
        assert(is_file_report(pattern, filenames[i]@, read_view(file_reads[i]), files[i]));
    }
    if all_scanned(files) {
        assert forall|i: int| 0 <= i < file_reads.len() implies (#[trigger] file_reads[i])
            is Ok by {
            assert(files[i].outcome is Success);
        }
    }
}

/// The status with which a run over `files` is to end.
pub fn exit_code(files: &Vec<FileReport>) -> (code: i32)
    ensures
        code == status_of(files@),
{
    let mut code: i32 = 0;
    let mut next: usize = 0;
    while next < files.len()
        invariant
            next <= files@.len(),
            code == status_of(files@.take(next as int)),
        decreases files@.len() - next,
    {
        proof {
            let before = files@.take(next as int);
            let after = files@.take(next + 1);
            assert(forall|i: int| 0 <= i < before.len() ==> before[i] == after[i]);
            assert(after[next as int] == files@[next as int]);
            if all_scanned(after) {
                assert forall|i: int| 0 <= i < before.len() implies (#[trigger] before[i]).outcome
                    is Success by {
                    assert(after[i].outcome is Success);
                }
            }
        }
        match &files[next].outcome {
            ScanOutcome::Success { .. } => {},
            ScanOutcome::Failure { .. } => {
                code = 1;
            },
        }
        next += 1;
    }
    proof {
        assert(files@.take(next as int) =~= files@);
    }
    code
}

/// Scans every file with a pattern that compiled: the files are taken in
/// the order of their names, and each is reported whatever became of the
/// others.
pub fn run_scans(
    regex_query_expression: &CompiledPattern,
    filenames: &Vec<String>,
    file_reads: &Vec<Result<String, String>>,
) -> (run: RunReport)
    requires
        file_reads@.len() == filenames@.len(),
    ensures
        is_run_report(regex_query_expression@, filenames@, file_reads@, run),
{
    let mut files: Vec<FileReport> = Vec::new();
    let mut next: usize = 0;
    while next < filenames.len()
        invariant
            file_reads@.len() == filenames@.len(),
            next <= filenames@.len(),
            files@.len() == next,
            forall|i: int|
                0 <= i < next ==> is_file_report(
                    regex_query_expression@,
                    filenames@[i]@,
                    read_view(file_reads@[i]),
                    #[trigger] files@[i],
                ),
        decreases filenames@.len() - next,
    {
        let report = report_file(
            regex_query_expression,
            filenames[next].as_str(),
            &file_reads[next],
        );
        files.push(report);
        next += 1;
    }
    proof {
        lemma_scanned_is_read(regex_query_expression@, filenames@, file_reads@, files@);
    }
    let exit_code = exit_code(&files);
    RunReport { files, exit_code }
}

/// What a run comes to, given what compiling its pattern came to: a pattern
/// that compiled has every file scanned and reported, in the order of the file
/// names; a refusal ends the run at once, with no file scanned, and comes back
/// as it is.
pub fn run_compiled(
    compiled: Result<CompiledPattern, InvalidPattern>,
    filenames: &Vec<String>,
    file_reads: &Vec<Result<String, String>>,
) -> (result: Result<RunReport, InvalidPattern>)
    requires
        file_reads@.len() == filenames@.len(),
    ensures
        compiled matches Ok(pattern) ==> result matches Ok(run) && is_run_report(
            pattern@,
            filenames@,
            file_reads@,
            run,
        ),
        compiled matches Err(refusal) ==> result == Err::<RunReport, InvalidPattern>(refusal),
{
    match compiled {
        Ok(regex_query_expression) => Ok(run_scans(&regex_query_expression, filenames, file_reads)),
        Err(refusal) => Err(refusal),
    }
}

/// Runs a search: compiles the pattern of `program_config`, then scans and
/// reports every file of it, given in `file_reads` what reading each of them
/// came to, in the order of the file names. A pattern that does not compile
/// ends the run before any file is scanned. Which patterns compile is for
/// the `regex` crate to say; what follows from its answer is `run_compiled`.
pub fn run_process(program_config: &Config, file_reads: &Vec<Result<String, String>>) -> (result:
    Result<RunReport, InvalidPattern>)
    requires
        file_reads@.len() == program_config.filenames@.len(),
    ensures
        result matches Ok(run) ==> is_run_report(
            program_config.regex_query@,
            program_config.filenames@,
            file_reads@,
            run,
        ),
{
    run_compiled(
        create_regex_expression(program_config.regex_query.as_str()),
        &program_config.filenames,
        file_reads,
    )
}

/// A run is repeatable: two runs with one pattern over the same files, read
/// with the same results, end with the same status and have the same
/// outcome for every file, match for match, and as many lines to print for
/// it. Whether the lines carry style codes is read from the process in each
/// run, so the lines themselves are not compared.
pub proof fn lemma_run_is_repeatable(
    pattern: Seq<char>,
    filenames: Seq<String>,
    file_reads: Seq<Result<String, String>>,
    first: RunReport,
    second: RunReport,
)
    requires
        file_reads.len() == filenames.len(),
        is_run_report(pattern, filenames, file_reads, first),
        is_run_report(pattern, filenames, file_reads, second),
    ensures
        first.exit_code == second.exit_code,
        first.files@.len() == second.files@.len(),
        forall|i: int|
            0 <= i < first.files@.len() ==> {
                &&& (#[trigger] first.files@[i]).outcome@ == second.files@[i].outcome@
                &&& first.files@[i].lines@.len() == second.files@[i].lines@.len()
            },
{
    assert forall|i: int| 0 <= i < first.files@.len() implies {
        &&& (#[trigger] first.files@[i]).outcome@ == second.files@[i].outcome@
        &&& first.files@[i].lines@.len() == second.files@[i].lines@.len()
    } by {
        let file_read = read_view(file_reads[i]);
        assert(is_file_report(pattern, filenames[i]@, file_read, first.files@[i]));
        assert(is_file_report(pattern, filenames[i]@, file_read, second.files@[i]));
        assert(texts(first.files@[i].lines@).len() == first.files@[i].lines@.len());
        assert(texts(second.files@[i].lines@).len() == second.files@[i].lines@.len());
    }
}

/// A file without a match is no failure: where the pattern matches no line
/// of a file that was read, the file's scan succeeds with no match, and its
/// report is the summary line alone, which gives the number of matches as 0.
pub proof fn lemma_report_without_match(
    pattern: Seq<char>,
    filename: Seq<char>,
    contents: Seq<char>,
    report: FileReport,
)
    requires
        is_file_report(pattern, filename, Ok(contents), report),
        forall|i: int|
            0 <= i < lines_of(contents).len() ==> leftmost_match(
                pattern,
                #[trigger] lines_of(contents)[i],
            ).is_none(),
    ensures
        report.outcome@ == (Scanned::Success { filename, matches: Seq::<MatchedLine>::empty() }),
        report.lines@.len() == 1,
        is_summary(filename, 0, report.lines@[0]@),
{
    lemma_no_hit_finds_nothing(pattern, lines_of(contents));
}

/// A report holds every match once: whatever is reported for a file that
/// was read, it has one line for each match of the file's scan, after the
/// summary line, and the summary line gives their number.
pub proof fn lemma_report_counts_matches(
    pattern: Seq<char>,
    filename: Seq<char>,
    contents: Seq<char>,
    report: FileReport,
)
    requires
        is_file_report(pattern, filename, Ok(contents), report),
    ensures
        report.outcome@ is Success,
        report.lines@.len() == report.outcome@->Success_matches.len() + 1,
        is_summary(filename, report.outcome@->Success_matches.len(), report.lines@[0]@),
{
}

} // verus!
