//! What a scan reports: output lines for the projects that decoded, and
//! warnings for what could not be read, decoded or walked.

use crate::descriptor::{project_lines, ProjectJson, ProjectView};
use vstd::prelude::*;
use vstd::string::StringExecFns;

verus! {

/// What reading and decoding one project file gave. The two failures carry
/// the text of the underlying error.
#[derive(Debug, Clone, PartialEq, Eq)]
pub enum Decoded {
    Project(ProjectJson),
    Unreadable(String),
    Malformed(String),
}

/// One step of a scan: a project file under the path as it is shown, with
/// what decoding it gave, or a failure of the walk with its error text.
#[derive(Debug, Clone, PartialEq, Eq)]
pub enum Visit {
    File { shown: String, decoded: Decoded },
    Failed { error: String },
}

/// Lines for the output stream and lines for the diagnostic stream.
#[derive(Debug, Clone, PartialEq, Eq)]
pub struct Report {
    pub output: Vec<String>,
    pub warnings: Vec<String>,
}

/// What decoding gave, as plain sequences.
pub enum DecodedView {
    Project(ProjectView),
    Unreadable(Seq<char>),
    Malformed(Seq<char>),
}

/// One step of a scan, as plain sequences.
pub enum VisitView {
    File { shown: Seq<char>, decoded: DecodedView },
    Failed { error: Seq<char> },
}

/// A report, as plain sequences of lines.
pub struct ReportView {
    pub output: Seq<Seq<char>>,
    pub warnings: Seq<Seq<char>>,
}

impl View for Decoded {
    type V = DecodedView;

    open spec fn view(&self) -> DecodedView {
        match self {
            Decoded::Project(project) => DecodedView::Project(project@),
            Decoded::Unreadable(error) => DecodedView::Unreadable(error@),
            Decoded::Malformed(error) => DecodedView::Malformed(error@),
        }
    }
}

impl View for Visit {
    type V = VisitView;

    open spec fn view(&self) -> VisitView {
        match self {
            Visit::File { shown, decoded } => VisitView::File { shown: shown@, decoded: decoded@ },
            Visit::Failed { error } => VisitView::Failed { error: error@ },
        }
    }
}

impl View for Report {
    type V = ReportView;

    open spec fn view(&self) -> ReportView {
        ReportView { output: self.output.deep_view(), warnings: self.warnings.deep_view() }
    }
}

impl ReportView {
    /// A report without lines.
    pub open spec fn empty() -> ReportView {
        ReportView { output: Seq::empty(), warnings: Seq::empty() }
    }

    /// This report followed by `next`, stream by stream.
    pub open spec fn followed_by(self, next: ReportView) -> ReportView {
        ReportView { output: self.output + next.output, warnings: self.warnings + next.warnings }
    }
}

/// The warning for a project file that could not be read.
pub open spec fn read_warning(shown: Seq<char>, error: Seq<char>) -> Seq<char> {
    "Warning: Failed to read "@ + shown + ": "@ + error
}

/// The warning for a project file that is no valid project description.
pub open spec fn decode_warning(shown: Seq<char>, error: Seq<char>) -> Seq<char> {
    "Warning: Failed to parse JSON in "@ + shown + ": "@ + error
}

/// The warning for a part of the tree that could not be walked.
pub open spec fn walk_warning(error: Seq<char>) -> Seq<char> {
    "Warning: Error walking directory: "@ + error
}

/// The report of one project file: the project's lines where it decoded,
/// else one warning and no output.
pub open spec fn file_report(shown: Seq<char>, decoded: DecodedView) -> ReportView {
    match decoded {
        DecodedView::Project(project) => ReportView {
            output: project_lines(project),
            warnings: Seq::empty(),
        },
        DecodedView::Unreadable(error) => ReportView {
            output: Seq::empty(),
            warnings: seq![read_warning(shown, error)],
        },
        DecodedView::Malformed(error) => ReportView {
            output: Seq::empty(),
            warnings: seq![decode_warning(shown, error)],
        },
    }
}

/// The report of one step of a scan.
pub open spec fn visit_report(visit: VisitView) -> ReportView {
    match visit {
        VisitView::File { shown, decoded } => file_report(shown, decoded),
        VisitView::Failed { error } => ReportView {
            output: Seq::empty(),
            warnings: seq![walk_warning(error)],
        },
    }
}

/// The report of a scan: the reports of its steps, in the order of the walk.
pub open spec fn scan_report(visits: Seq<VisitView>) -> ReportView
    decreases visits.len(),
{
    if visits.len() == 0 {
        ReportView::empty()
    } else {
        scan_report(visits.drop_last()).followed_by(visit_report(visits.last()))
    }
}

/// The views of a scan's steps.
pub open spec fn visit_views(visits: Seq<Visit>) -> Seq<VisitView> {
    Seq::new(visits.len(), |i: int| visits[i]@)
}

fn one_line(line: String) -> (lines: Vec<String>)
    ensures
        lines.deep_view() == seq![line@],
{
    let mut lines: Vec<String> = Vec::new();
    lines.push(line);
    assert(lines.deep_view() =~= seq![line@]);
    lines
}

fn no_lines() -> (lines: Vec<String>)
    ensures
        lines.deep_view() == Seq::<Seq<char>>::empty(),
{
    let lines: Vec<String> = Vec::new();
    assert(lines.deep_view() =~= Seq::<Seq<char>>::empty());
    lines
}

/// Builds `prefix`, `shown`, `": "` and `error` into one line.
fn warning_line(prefix: &str, shown: &str, error: &str) -> (line: String)
    ensures
        line@ == prefix@ + shown@ + ": "@ + error@,
{
    let mut line = String::from_str(prefix);
    line.append(shown);
    line.append(": ");
    line.append(error);
    line
}

/// Reports one project file, shown as `shown`: the lines of the project
/// where reading and decoding gave one, else the one warning that names the
/// file and the error.
pub fn report_file(shown: &str, decoded: &Decoded) -> (report: Report)
    ensures
        report@ == file_report(shown@, decoded@),
{
    match decoded {
        Decoded::Project(project) => Report { output: project.lines(), warnings: no_lines() },
        Decoded::Unreadable(error) => Report {
            output: no_lines(),
            warnings: one_line(warning_line("Warning: Failed to read ", shown, error.as_str())),
        },
        Decoded::Malformed(error) => Report {
            output: no_lines(),
            warnings: one_line(
                warning_line("Warning: Failed to parse JSON in ", shown, error.as_str()),
            ),
        },
    }
}

/// Reports one step of a scan.
pub fn report_visit(visit: &Visit) -> (report: Report)
    ensures
        report@ == visit_report(visit@),
{
    match visit {
        Visit::File { shown, decoded } => report_file(shown.as_str(), decoded),
        Visit::Failed { error } => {
            let mut line = String::from_str("Warning: Error walking directory: ");
            line.append(error.as_str());
            Report { output: no_lines(), warnings: one_line(line) }
        },
    }
}

/// Reports a whole scan: each step's lines in the order of the walk. A step
/// that fails adds its warning and does not end the scan.
pub fn report_scan(visits: &Vec<Visit>) -> (report: Report)
    ensures
        report@ == scan_report(visit_views(visits@)),
{
    let mut output: Vec<String> = Vec::new();
    let mut warnings: Vec<String> = Vec::new();
    let mut i: usize = 0;
    assert(visit_views(visits@).take(0) =~= Seq::<VisitView>::empty());
    assert(output.deep_view() =~= Seq::<Seq<char>>::empty());
    assert(warnings.deep_view() =~= Seq::<Seq<char>>::empty());
    while i < visits.len()
        invariant
            i <= visits.len(),
            output.deep_view() == scan_report(visit_views(visits@).take(i as int)).output,
            warnings.deep_view() == scan_report(visit_views(visits@).take(i as int)).warnings,
        decreases visits.len() - i,
    {
        let ghost output_before = output.deep_view();
        let ghost warnings_before = warnings.deep_view();
        let mut step = report_visit(&visits[i]);
        output.append(&mut step.output);
        warnings.append(&mut step.warnings);
        proof {
            let seen = visit_views(visits@).take(i + 1);
            assert(seen.drop_last() =~= visit_views(visits@).take(i as int));
            assert(seen.last() == visits[i as int]@);
            assert(output.deep_view() =~= output_before + visit_report(visits[i as int]@).output);
            assert(warnings.deep_view() =~= warnings_before + visit_report(
                visits[i as int]@,
            ).warnings);
        }
        i += 1;
    }
    assert(visit_views(visits@).take(i as int) =~= visit_views(visits@));
    Report { output, warnings }
}

/// The report of two scans run one after the other is the first report
/// followed by the second.
pub proof fn lemma_scan_report_concat(first: Seq<VisitView>, second: Seq<VisitView>)
    ensures
        scan_report(first + second) == scan_report(first).followed_by(scan_report(second)),
    decreases second.len(),
{
    if second.len() == 0 {
        assert(first + second =~= first);
        assert(scan_report(first).followed_by(ReportView::empty()).output =~= scan_report(
            first,
        ).output);
        assert(scan_report(first).followed_by(ReportView::empty()).warnings =~= scan_report(
            first,
        ).warnings);
    } else {
        assert((first + second).drop_last() =~= first + second.drop_last());
        assert((first + second).last() == second.last());
        lemma_scan_report_concat(first, second.drop_last());
        let step = visit_report(second.last());
        let left = scan_report(first);
        let middle = scan_report(second.drop_last());
        assert((left.output + middle.output) + step.output =~= left.output + (middle.output
            + step.output));
        assert((left.warnings + middle.warnings) + step.warnings =~= left.warnings + (
        middle.warnings + step.warnings));
    }
}

/// A malformed project file anywhere in a scan adds exactly one warning and
/// no output line, and what stands before and after it is reported as if
/// the file were not there.
pub proof fn lemma_malformed_file_only_warns(
    before: Seq<VisitView>,
    shown: Seq<char>,
    error: Seq<char>,
    after: Seq<VisitView>,
)
    ensures
        ({
            let bad = VisitView::File { shown, decoded: DecodedView::Malformed(error) };
            let whole = scan_report(before + seq![bad] + after);
            &&& whole.output == scan_report(before + after).output
            &&& whole.warnings == scan_report(before).warnings + seq![
                decode_warning(shown, error),
            ] + scan_report(after).warnings
        }),
{
    let bad = VisitView::File { shown, decoded: DecodedView::Malformed(error) };
    lemma_scan_report_concat(before + seq![bad], after);
    lemma_scan_report_concat(before, seq![bad]);
    lemma_scan_report_concat(before, after);
    assert(seq![bad].drop_last() =~= Seq::<VisitView>::empty());
    assert(seq![bad].last() == bad);
    assert(scan_report(seq![bad].drop_last()) == ReportView::empty());
    assert(scan_report(seq![bad]).output =~= Seq::<Seq<char>>::empty());
    assert(scan_report(seq![bad]).warnings =~= seq![decode_warning(shown, error)]);
    assert(scan_report(before).output + scan_report(seq![bad]).output =~= scan_report(
        before,
    ).output);
}

/// Two walks that yield the same steps are reported alike: a scan repeated
/// on an unchanged tree prints what it printed before.
pub proof fn lemma_same_walk_same_report(first: Seq<Visit>, second: Seq<Visit>)
    requires
        first.len() == second.len(),
        forall|i: int| 0 <= i < first.len() ==> first[i]@ == second[i]@,
    ensures
        scan_report(visit_views(first)) == scan_report(visit_views(second)),
{
    assert(visit_views(first) =~= visit_views(second));
}

/// How the tree is walked.
#[derive(Debug, Clone, Copy, PartialEq, Eq, Structural)]
pub enum ScanMode {
    /// By a walker that applies the ignore rules found in the tree.
    IgnoreAware,
    /// Directory by directory, passing over hidden directories.
    Simple,
}

/// What a failure of the walk leads to.
#[derive(Debug, Clone, PartialEq, Eq)]
pub enum Failure {
    /// The scan goes on, after this warning.
    Warned { warning: String },
    /// The scan ends, with this error.
    Fatal { error: String },
}

/// What a failure leads to, with its line as a plain sequence.
pub enum FailureView {
    Warned { warning: Seq<char> },
    Fatal { error: Seq<char> },
}

impl View for Failure {
    type V = FailureView;

    open spec fn view(&self) -> FailureView {
        match self {
            Failure::Warned { warning } => FailureView::Warned { warning: warning@ },
            Failure::Fatal { error } => FailureView::Fatal { error: error@ },
        }
    }
}

/// The line for an error that ends the run.
pub open spec fn fatal_error(error: Seq<char>) -> Seq<char> {
    "Error: "@ + error
}

/// The line for a start directory without a repository root above it.
pub open spec fn missing_root_error(start: Seq<char>) -> Seq<char> {
    "Error: No .git directory found. Starting from: "@ + start
}

/// What a failure of the walk leads to in each mode: a warning in the
/// ignore-aware scan, the end of the scan in the simple one.
pub open spec fn failure_in(mode: ScanMode, error: Seq<char>) -> FailureView {
    match mode {
        ScanMode::IgnoreAware => FailureView::Warned { warning: walk_warning(error) },
        ScanMode::Simple => FailureView::Fatal { error: fatal_error(error) },
    }
}

/// Decides on a failure of the walk, by the mode of the scan.
pub fn walk_failure(mode: ScanMode, error: &str) -> (failure: Failure)
    ensures
        failure@ == failure_in(mode, error@),
{
    match mode {
        ScanMode::IgnoreAware => {
            let mut warning = String::from_str("Warning: Error walking directory: ");
            warning.append(error);
            Failure::Warned { warning }
        },
        ScanMode::Simple => {
            let mut line = String::from_str("Error: ");
            line.append(error);
            Failure::Fatal { error: line }
        },
    }
}

/// The error line for a start directory, shown as `start`, that has no
/// repository root above it.
pub fn missing_root_line(start: &str) -> (line: String)
    ensures
        line@ == missing_root_error(start@),
{
    let mut line = String::from_str("Error: No .git directory found. Starting from: ");
    line.append(start);
    line
}

/// How a run ended.
#[derive(Debug, Clone, Copy, PartialEq, Eq, Structural)]
pub enum Ending {
    /// The scan ran to its end, whatever it found and warned of.
    Completed,
    /// No repository root was found.
    NoRoot,
    /// A failure of the walk ended the scan.
    Aborted,
}

/// The exit code of a run: 0 where the scan ran to its end, else 1.
pub open spec fn exit_code_of(ending: Ending) -> int {
    if ending == Ending::Completed {
        0
    } else {
        1
    }
}

/// The exit code of a run.
pub fn exit_code(ending: Ending) -> (code: i32)
    ensures
        code == exit_code_of(ending),
{
    match ending {
        Ending::Completed => 0,
        Ending::NoRoot => 1,
        Ending::Aborted => 1,
    }
}

} // verus!
