//! One run over the rows of a database, step by step.
//!
//! The caller reads the database and tells the run what it found: the tables
//! with their row counts once, then each table and each row as it comes,
//! every time with the cancellation flag as it stands. The run answers what
//! to do next, and hands out the statistics at the end unless it was stopped.

use vstd::prelude::*;
use vstd::string::StringExecFns;
use crate::catalog::TableInfo;
use crate::progress::{compute, is_report_due, report, report_due, AnalysisProgress, ProgressModel};
use crate::text::texts;
use crate::stats::{
    law_row_formats_stay_distinct, law_row_frequency, row_occurrences, AnalysisModel,
    AnalysisResults,
};
use crate::value::{cells, CellModel, CellValue};

verus! {

/// Why a run ended without statistics.
#[derive(Clone, Copy, Debug, PartialEq, Eq, Structural)]
pub enum ScanError {
    /// The run was told to stop.
    Cancelled,
    /// The database could not be opened or queried at all.
    SourceUnavailable,
    /// A counter would have left the range of 64 bits.
    CountersFull,
}

impl ScanError {
    /// The reason in words.
    pub open spec fn message_text(self) -> Seq<char> {
        match self {
            ScanError::Cancelled => "Analysis cancelled"@,
            ScanError::SourceUnavailable => "Database unavailable"@,
            ScanError::CountersFull => "Counters full"@,
        }
    }

    /// The reason in words.
    pub fn message(&self) -> (text: String)
        ensures
            text@ == self.message_text(),
    {
        match self {
            ScanError::Cancelled => String::from_str("Analysis cancelled"),
            ScanError::SourceUnavailable => String::from_str("Database unavailable"),
            ScanError::CountersFull => String::from_str("Counters full"),
        }
    }
}

/// What the caller is to do after a row.
#[derive(Clone, Debug, PartialEq, Eq)]
pub enum RowOutcome {
    /// Go on with the next row.
    Continue,
    /// Deliver the report, then go on with the next row.
    Report(AnalysisProgress),
    /// Read no more: the run has ended.
    Stop(ScanError),
}

/// A run in progress.
#[derive(Clone, Debug, PartialEq, Eq)]
pub struct AnalysisRun {
    /// The database that the run works on.
    pub target: String,
    /// The number under which the run is registered.
    pub token: u64,
    /// The rows that the tables held when the run began.
    pub total_rows: u64,
    pub processed_rows: u64,
    pub results: AnalysisResults,
    /// Why the run has ended, once it has.
    pub stopped: Option<ScanError>,
}

/// A run as a mathematical value.
pub struct RunModel {
    pub target: Seq<char>,
    pub token: u64,
    pub total_rows: nat,
    pub processed_rows: nat,
    pub stats: AnalysisModel,
    pub stopped: Option<ScanError>,
}

/// What the caller tells a run: that it has come to a table, or to a row,
/// each time with the cancellation flag as it stands.
pub enum StepModel {
    Table { cancelled: bool },
    Row { cancelled: bool, table: Seq<char>, columns: Seq<Seq<char>>, row: Seq<CellModel> },
}

impl StepModel {
    /// Whether the step finds the cancellation flag signalled.
    pub open spec fn told_to_stop(self) -> bool {
        match self {
            StepModel::Table { cancelled } => cancelled,
            StepModel::Row { cancelled, .. } => cancelled,
        }
    }
}

/// The number of rows among `steps`.
pub open spec fn rows_among(steps: Seq<StepModel>) -> nat
    decreases steps.len(),
{
    if steps.len() == 0 {
        0
    } else {
        rows_among(steps.drop_last()) + if steps.last() is Row {
            1nat
        } else {
            0nat
        }
    }
}

/// How often the code point `code` occurs in the rows among `steps`.
pub open spec fn occurrences_among(steps: Seq<StepModel>, code: u32) -> nat
    decreases steps.len(),
{
    if steps.len() == 0 {
        0
    } else {
        occurrences_among(steps.drop_last(), code) + match steps.last() {
            StepModel::Table { .. } => 0nat,
            StepModel::Row { columns, row, .. } => row_occurrences(row, columns.len(), code),
        }
    }
}

/// The rows of a table as the run counts them: a negative count stands for
/// no rows.
pub open spec fn rows_of(table: TableInfo) -> nat {
    if table.row_count < 0 {
        0
    } else {
        table.row_count as nat
    }
}

/// The rows of the first `n` tables together.
pub open spec fn planned_rows(tables: Seq<TableInfo>, n: nat) -> nat
    decreases n,
{
    if n == 0 {
        0
    } else {
        planned_rows(tables, (n - 1) as nat) + rows_of(tables[n - 1])
    }
}

impl RunModel {
    /// A run on `target` that is to process `total_rows` rows and has seen
    /// nothing yet.
    pub open spec fn begin(target: Seq<char>, token: u64, total_rows: nat) -> RunModel {
        RunModel {
            target,
            token,
            total_rows,
            processed_rows: 0,
            stats: AnalysisModel::empty(),
            stopped: None,
        }
    }

    /// The run after it has processed one more row.
    pub open spec fn count_row(
        self,
        table: Seq<char>,
        columns: Seq<Seq<char>>,
        row: Seq<CellModel>,
    ) -> RunModel {
        RunModel {
            processed_rows: self.processed_rows + 1,
            stats: self.stats.observe_row(table, columns, row),
            ..self
        }
    }

    /// The run after it has ended for `reason`.
    pub open spec fn stop(self, reason: ScanError) -> RunModel {
        RunModel { stopped: Some(reason), ..self }
    }

    /// Whether the counters of the run can be held in 64 bits.
    pub open spec fn fits(self) -> bool {
        self.processed_rows <= u64::MAX && self.stats.fits()
    }

    /// The run after the caller has come to a table: a run that has ended
    /// stays as it is, a cancelled one ends, any other goes on unchanged.
    pub open spec fn on_table(self, cancelled: bool) -> RunModel {
        if self.stopped is Some {
            self
        } else if cancelled {
            self.stop(ScanError::Cancelled)
        } else {
            self
        }
    }

    /// The run after the caller has come to a row: a run that has ended
    /// stays as it is, a cancelled one ends, and so does one whose counters
    /// cannot hold the row; any other processes the row.
    pub open spec fn on_row(
        self,
        cancelled: bool,
        table: Seq<char>,
        columns: Seq<Seq<char>>,
        row: Seq<CellModel>,
    ) -> RunModel {
        if self.stopped is Some {
            self
        } else if cancelled {
            self.stop(ScanError::Cancelled)
        } else if !self.count_row(table, columns, row).fits() {
            self.stop(ScanError::CountersFull)
        } else {
            self.count_row(table, columns, row)
        }
    }

    /// The run after one step of the caller.
    pub open spec fn step(self, step: StepModel) -> RunModel {
        match step {
            StepModel::Table { cancelled } => self.on_table(cancelled),
            StepModel::Row { cancelled, table, columns, row } => self.on_row(
                cancelled,
                table,
                columns,
                row,
            ),
        }
    }

    /// The run after the steps of the caller, one after the other.
    pub open spec fn steps(self, steps: Seq<StepModel>) -> RunModel
        decreases steps.len(),
    {
        if steps.len() == 0 {
            self
        } else {
            self.steps(steps.drop_last()).step(steps.last())
        }
    }

    /// The report that is due after a row, if one is.
    pub open spec fn report_after_row(self, elapsed_nanos: nat) -> Option<ProgressModel> {
        if self.stopped is None && report_due(self.processed_rows, self.total_rows) {
            Some(report(self.target, self.processed_rows, self.total_rows, elapsed_nanos))
        } else {
            None
        }
    }

    /// The report that is due before the first table, if one is: a run with
    /// no rows to process reports at once that it is finished.
    pub open spec fn first_report(self) -> Option<ProgressModel> {
        if self.stopped is None && self.total_rows == 0 && self.processed_rows == 0 {
            Some(report(self.target, 0, 0, 0))
        } else {
            None
        }
    }

    /// What the run hands out at its end: the statistics, or the reason why
    /// it has none to give.
    pub open spec fn outcome(self) -> Result<AnalysisModel, ScanError> {
        match self.stopped {
            Some(reason) => Err(reason),
            None => Ok(self.stats),
        }
    }
}

/// A run that has not ended has processed every row it was told of, once:
/// its count of rows has grown by their number, and its total is what it was.
/// If that makes the count reach a total above 0, the last row was followed
/// by a report, which says that the run is finished.
pub proof fn law_every_row_counted(run: RunModel, steps: Seq<StepModel>, elapsed_nanos: nat)
    requires
        run.steps(steps).stopped is None,
    ensures
        run.steps(steps).processed_rows == run.processed_rows + rows_among(steps),
        run.steps(steps).total_rows == run.total_rows,
        run.steps(steps).target == run.target,
        run.steps(steps).token == run.token,
        steps.len() > 0 && steps.last() is Row && run.steps(steps).processed_rows
            == run.total_rows ==> run.steps(steps).report_after_row(elapsed_nanos) == Some(
            report(run.target, run.total_rows, run.total_rows, elapsed_nanos),
        ) && report(run.target, run.total_rows, run.total_rows, elapsed_nanos).is_finished,
    decreases steps.len(),
{
    if steps.len() > 0 {
        // A run that has ended stays ended, so this one had not ended before
        // its last step.
        assert(run.steps(steps.drop_last()).stopped is None);
        law_every_row_counted(run, steps.drop_last(), elapsed_nanos);
    }
}

/// A run that begins with a total of `total_rows` rows and has not ended
/// after it was told of as many rows has processed exactly its total.
pub proof fn law_processed_equals_total(
    target: Seq<char>,
    token: u64,
    total_rows: nat,
    steps: Seq<StepModel>,
)
    requires
        RunModel::begin(target, token, total_rows).steps(steps).stopped is None,
        rows_among(steps) == total_rows,
    ensures
        RunModel::begin(target, token, total_rows).steps(steps).processed_rows == total_rows,
        RunModel::begin(target, token, total_rows).steps(steps).total_rows == total_rows,
{
    law_every_row_counted(RunModel::begin(target, token, total_rows), steps, 0);
}

/// In a run that has not ended, the frequency of a code point has grown by
/// the number of its occurrences in the text values of the rows it was told
/// of. For a run that began with nothing seen, it is that number.
pub proof fn law_frequency_is_exact(run: RunModel, steps: Seq<StepModel>, code: u32)
    requires
        run.steps(steps).stopped is None,
    ensures
        run.steps(steps).stats.frequency(code) == run.stats.frequency(code) + occurrences_among(
            steps,
            code,
        ),
        run.stats == AnalysisModel::empty() ==> run.steps(steps).stats.frequency(code)
            == occurrences_among(steps, code),
    decreases steps.len(),
{
    if steps.len() > 0 {
        let before = run.steps(steps.drop_last());
        assert(before.stopped is None);
        law_frequency_is_exact(run, steps.drop_last(), code);
        match steps.last() {
            StepModel::Table { .. } => {},
            StepModel::Row { cancelled, table, columns, row } => {
                law_row_frequency(before.stats, table, columns, row, columns.len(), code);
            },
        }
    }
}

/// Whatever a run was told of, no column of its statistics holds a format
/// twice, however many values suggested the format.
pub proof fn law_formats_never_repeat(run: RunModel, steps: Seq<StepModel>)
    requires
        run.stats.labels_distinct(),
    ensures
        run.steps(steps).stats.labels_distinct(),
    decreases steps.len(),
{
    if steps.len() > 0 {
        let before = run.steps(steps.drop_last());
        law_formats_never_repeat(run, steps.drop_last());
        match steps.last() {
            StepModel::Table { .. } => {},
            StepModel::Row { cancelled, table, columns, row } => {
                law_row_formats_stay_distinct(before.stats, table, columns, row, columns.len());
            },
        }
    }
}

/// A run that has ended stays ended: no later table or row changes it.
pub proof fn law_ended_run_stays_ended(
    run: RunModel,
    cancelled: bool,
    table: Seq<char>,
    columns: Seq<Seq<char>>,
    row: Seq<CellModel>,
)
    requires
        run.stopped is Some,
    ensures
        run.on_table(cancelled) == run,
        run.on_row(cancelled, table, columns, row) == run,
{
}

/// A run that is told of a cancellation ends as cancelled, whatever follows.
pub proof fn law_cancellation_is_final(run: RunModel, steps: Seq<StepModel>, i: int)
    requires
        run.stopped is None,
        0 <= i < steps.len(),
        steps[i].told_to_stop(),
    ensures
        run.steps(steps).stopped is Some,
        run.steps(steps).outcome() is Err,
    decreases steps.len(),
{
    if i < steps.len() - 1 {
        law_cancellation_is_final(run, steps.drop_last(), i);
    }
}

/// A run with no rows to process reports at once, and once only, that it is
/// finished at 0 percent; told of no row, it ends with the statistics of a
/// run that has seen nothing.
pub proof fn law_empty_run_finishes_at_once(target: Seq<char>, token: u64)
    ensures
        ({
            let run = RunModel::begin(target, token, 0);
            &&& run.first_report() == Some(report(target, 0, 0, 0))
            &&& report(target, 0, 0, 0).is_finished
            &&& report(target, 0, 0, 0).progress == 0
            &&& run.on_table(false).outcome() == Ok::<AnalysisModel, ScanError>(
                AnalysisModel::empty(),
            )
            &&& run.outcome() == Ok::<AnalysisModel, ScanError>(AnalysisModel::empty())
        }),
{
}

impl View for AnalysisRun {
    type V = RunModel;

    open spec fn view(&self) -> RunModel {
        RunModel {
            target: self.target@,
            token: self.token,
            total_rows: self.total_rows as nat,
            processed_rows: self.processed_rows as nat,
            stats: self.results@,
            stopped: self.stopped,
        }
    }
}

/// The view of a row outcome.
pub open spec fn outcome_view(outcome: RowOutcome) -> (Option<ProgressModel>, Option<ScanError>) {
    match outcome {
        RowOutcome::Continue => (None, None),
        RowOutcome::Report(snapshot) => (Some(snapshot@), None),
        RowOutcome::Stop(reason) => (None, Some(reason)),
    }
}

impl AnalysisRun {
    /// Whether the statistics of the run are well formed.
    pub open spec fn wf(&self) -> bool {
        self.results.wf()
    }

    /// Begins a run on `target` under the number `token`. The rows of
    /// `tables` together are the total that progress is measured against.
    /// No run begins where that total is not a number of 64 bits.
    pub fn start(target: &str, token: u64, tables: &Vec<TableInfo>) -> (run: Result<
        AnalysisRun,
        ScanError,
    >)
        ensures
            match run {
                Ok(run) => {
                    &&& run.wf()
                    &&& run@ == RunModel::begin(target@, token, planned_rows(tables@, tables@.len()))
                },
                Err(reason) => {
                    &&& reason == ScanError::CountersFull
                    &&& planned_rows(tables@, tables@.len()) > u64::MAX
                },
            },
    {
        let mut total: u128 = 0;
        let mut i: usize = 0;
        while i < tables.len()
            invariant
                i <= tables@.len(),
                total == planned_rows(tables@, i as nat),
                total <= i * 0x8000_0000_0000_0000,
            decreases tables@.len() - i,
        {
            if tables[i].row_count > 0 {
                total = total + tables[i].row_count as u128;
            }
            i = i + 1;
        }
        if total > u64::MAX as u128 {
            Err(ScanError::CountersFull)
        } else {
            Ok(
                AnalysisRun {
                    target: String::from_str(target),
                    token,
                    total_rows: total as u64,
                    processed_rows: 0,
                    results: AnalysisResults::new(),
                    stopped: None,
                },
            )
        }
    }

    /// The report that is due before the first table, if one is.
    pub fn first_report(&self) -> (snapshot: Option<AnalysisProgress>)
        ensures
            match snapshot {
                Some(snapshot) => self@.first_report() == Some(snapshot@),
                None => self@.first_report() is None,
            },
    {
        if self.stopped.is_none() && self.total_rows == 0 && self.processed_rows == 0 {
            Some(compute(self.target.as_str(), 0, 0, 0))
        } else {
            None
        }
    }

    /// Takes note that the caller has come to a table, with the cancellation
    /// flag as it stands, and says whether the table is to be read.
    pub fn begin_table(&mut self, cancelled: bool) -> (proceed: bool)
        ensures
            final(self)@ == old(self)@.on_table(cancelled),
            final(self).results == old(self).results,
            proceed == (final(self).stopped is None),
    {
        if self.stopped.is_none() && cancelled {
            self.stopped = Some(ScanError::Cancelled);
        }
        self.stopped.is_none()
    }

    /// Takes note of a row of `table`, with the cancellation flag as it
    /// stands and the time since the run began, and says what to do next.
    pub fn on_row(
        &mut self,
        cancelled: bool,
        table: &str,
        columns: &Vec<String>,
        row: &Vec<CellValue>,
        elapsed_nanos: u64,
    ) -> (outcome: RowOutcome)
        requires
            old(self).wf(),
        ensures
            final(self).wf(),
            final(self)@ == old(self)@.on_row(cancelled, table@, texts(columns@), cells(row@)),
            outcome_view(outcome) == (
                final(self)@.report_after_row(elapsed_nanos as nat),
                final(self).stopped,
            ),
    {
        match self.stopped {
            Some(reason) => {
                return RowOutcome::Stop(reason);
            },
            None => {},
        }
        if cancelled {
            self.stopped = Some(ScanError::Cancelled);
            return RowOutcome::Stop(ScanError::Cancelled);
        }
        if self.processed_rows == u64::MAX || !self.results.can_observe_row(table, columns, row) {
            self.stopped = Some(ScanError::CountersFull);
            return RowOutcome::Stop(ScanError::CountersFull);
        }
        self.results.observe_row(table, columns, row);
        self.processed_rows = self.processed_rows + 1;
        if is_report_due(self.processed_rows, self.total_rows) {
            RowOutcome::Report(
                compute(self.target.as_str(), self.processed_rows, self.total_rows, elapsed_nanos),
            )
        } else {
            RowOutcome::Continue
        }
    }

    /// Ends the run and hands out its statistics, unless it was stopped:
    /// then the statistics gathered so far are dropped and the reason is
    /// given instead.
    pub fn finish(self) -> (outcome: Result<AnalysisResults, ScanError>)
        ensures
            match outcome {
                Ok(results) => self.stopped is None && results == self.results,
                Err(reason) => self.stopped == Some(reason),
            },
    {
        match self.stopped {
            Some(reason) => Err(reason),
            None => Ok(self.results),
        }
    }
}

} // verus!
