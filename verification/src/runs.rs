//! What holds of a whole run: of every row counted, of the sums of its
//! statistics and of the formats it ends with.
//!
//! A run is told of its tables and rows in steps. The laws here speak of all
//! the steps of a run together, and of a run that reads tables which hold the
//! rows that were counted in them.

use vstd::prelude::*;
use crate::catalog::TableInfo;
use crate::formats::{email_label, looks_like_email, looks_like_url, new_labels, url_label};
use crate::progress::report;
use crate::scan::{
    law_every_row_counted, law_frequency_is_exact, occurrences_among, planned_rows, rows_among,
    RunModel, StepModel,
};
use crate::stats::{
    cell_occurrences, column_key, lemma_counters_grow, row_occurrences, AnalysisModel,
};
use crate::text::{lemma_classes_partition, occurrences};
use crate::value::{cell_at, CellModel};

verus! {

/// A table as a run reads it: its name, its columns and its rows in the
/// order in which they come.
pub struct TableModel {
    pub name: Seq<char>,
    pub columns: Seq<Seq<char>>,
    pub rows: Seq<Seq<CellModel>>,
}

/// The steps of reading a table up to its row `n`, with the cancellation
/// flag never signalled: first the table, then its rows one by one.
pub open spec fn table_steps(table: TableModel, n: nat) -> Seq<StepModel>
    decreases n,
{
    if n == 0 {
        seq![StepModel::Table { cancelled: false }]
    } else {
        table_steps(table, (n - 1) as nat).push(
            StepModel::Row {
                cancelled: false,
                table: table.name,
                columns: table.columns,
                row: table.rows[n - 1],
            },
        )
    }
}

/// The steps of reading the first `n` tables, each with all its rows, in the
/// order of the tables.
pub open spec fn scan_steps(tables: Seq<TableModel>, n: nat) -> Seq<StepModel>
    decreases n,
{
    if n == 0 {
        seq![]
    } else {
        scan_steps(tables, (n - 1) as nat) + table_steps(
            tables[n - 1],
            tables[n - 1].rows.len(),
        )
    }
}

/// The rows of the first `n` tables together.
pub open spec fn rows_in(tables: Seq<TableModel>, n: nat) -> nat
    decreases n,
{
    if n == 0 {
        0
    } else {
        rows_in(tables, (n - 1) as nat) + tables[n - 1].rows.len()
    }
}

/// Whether each table was counted with the rows it holds.
pub open spec fn counted_as_held(infos: Seq<TableInfo>, tables: Seq<TableModel>) -> bool {
    &&& infos.len() == tables.len()
    &&& forall|i: int|
        0 <= i < tables.len() ==> (#[trigger] infos[i]).row_count == tables[i].rows.len()
}

/// The run after every row among `steps` was counted, whatever the flag and
/// the limits of the counters.
pub open spec fn count_all(run: RunModel, steps: Seq<StepModel>) -> RunModel
    decreases steps.len(),
{
    if steps.len() == 0 {
        run
    } else {
        match steps.last() {
            StepModel::Table { .. } => count_all(run, steps.drop_last()),
            StepModel::Row { table, columns, row, .. } => count_all(run, steps.drop_last()).count_row(
                table,
                columns,
                row,
            ),
        }
    }
}

/// The rows among two lists of steps are the rows among the one and those
/// among the other.
pub proof fn lemma_rows_among_add(first: Seq<StepModel>, second: Seq<StepModel>)
    ensures
        rows_among(first + second) == rows_among(first) + rows_among(second),
    decreases second.len(),
{
    if second.len() == 0 {
        assert(first + second =~= first);
    } else {
        assert((first + second).drop_last() =~= first + second.drop_last());
        lemma_rows_among_add(first, second.drop_last());
    }
}

/// Reading a table up to its row `n` tells the run of `n` rows, and no step
/// of it finds the flag signalled.
pub proof fn lemma_table_steps(table: TableModel, n: nat)
    ensures
        rows_among(table_steps(table, n)) == n,
        table_steps(table, n).len() == n + 1,
        forall|i: int| 0 <= i < table_steps(table, n).len() ==> !(#[trigger] table_steps(
            table,
            n,
        )[i]).told_to_stop(),
    decreases n,
{
    if n == 0 {
        assert(table_steps(table, n).drop_last() =~= Seq::<StepModel>::empty());
        assert(rows_among(Seq::<StepModel>::empty()) == 0);
    } else {
        lemma_table_steps(table, (n - 1) as nat);
        assert(table_steps(table, n).drop_last() =~= table_steps(table, (n - 1) as nat));
    }
}

/// Reading the first `n` tables tells the run of all their rows, and no step
/// of it finds the flag signalled.
pub proof fn lemma_scan_steps(tables: Seq<TableModel>, n: nat)
    ensures
        rows_among(scan_steps(tables, n)) == rows_in(tables, n),
        forall|i: int| 0 <= i < scan_steps(tables, n).len() ==> !(#[trigger] scan_steps(
            tables,
            n,
        )[i]).told_to_stop(),
    decreases n,
{
    if n > 0 {
        let table = tables[n - 1];
        lemma_scan_steps(tables, (n - 1) as nat);
        lemma_table_steps(table, table.rows.len());
        lemma_rows_among_add(
            scan_steps(tables, (n - 1) as nat),
            table_steps(table, table.rows.len()),
        );
    }
}

/// Tables that were counted with the rows they hold give a total of as many
/// rows as they hold.
pub proof fn lemma_planned_as_held(infos: Seq<TableInfo>, tables: Seq<TableModel>, n: nat)
    requires
        counted_as_held(infos, tables),
        n <= tables.len(),
    ensures
        planned_rows(infos, n) == rows_in(tables, n),
    decreases n,
{
    if n > 0 {
        lemma_planned_as_held(infos, tables, (n - 1) as nat);
        assert(infos[n - 1].row_count == tables[n - 1].rows.len());
    }
}

/// Counting never lowers a counter: what was counted after the first `k`
/// steps fits whenever what was counted after all of them does.
pub proof fn lemma_count_all_grows(run: RunModel, steps: Seq<StepModel>, k: int)
    requires
        0 <= k <= steps.len(),
        count_all(run, steps).fits(),
    ensures
        count_all(run, steps.take(k)).fits(),
    decreases steps.len(),
{
    if k == steps.len() {
        assert(steps.take(k) =~= steps);
    } else {
        let before = count_all(run, steps.drop_last());
        match steps.last() {
            StepModel::Table { .. } => {},
            StepModel::Row { cancelled, table, columns, row } => {
                lemma_counters_grow(before.stats, table, columns, row, 0, columns.len());
            },
        }
        assert(steps.drop_last().take(k) =~= steps.take(k));
        lemma_count_all_grows(run, steps.drop_last(), k);
    }
}

/// A run that no step finds signalled, and whose counters can hold all its
/// rows, counts every row and does not end before the caller ends it.
pub proof fn law_unsignalled_run_goes_on(run: RunModel, steps: Seq<StepModel>)
    requires
        run.stopped is None,
        forall|i: int| 0 <= i < steps.len() ==> !(#[trigger] steps[i]).told_to_stop(),
        count_all(run, steps).fits(),
    ensures
        run.steps(steps) == count_all(run, steps),
        run.steps(steps).stopped is None,
        run.steps(steps).outcome() is Ok,
    decreases steps.len(),
{
    if steps.len() > 0 {
        assert(steps.drop_last() =~= steps.take(steps.len() - 1));
        lemma_count_all_grows(run, steps, steps.len() - 1);
        let front = steps.drop_last();
        assert forall|i: int| 0 <= i < front.len() implies !(#[trigger] front[i]).told_to_stop() by {
            assert(!steps[i].told_to_stop());
        }
        law_unsignalled_run_goes_on(run, steps.drop_last());
        assert(!steps[steps.len() - 1].told_to_stop());
    }
}

/// A run over tables that hold the rows that were counted in them, which is
/// never signalled and whose counters can hold all the rows, ends with
/// statistics; it has processed every row of every table once, which is
/// exactly its total. Where the total is above 0, the row that reaches it is
/// followed by a report, which says that the run is finished.
pub proof fn law_run_processes_its_total(
    target: Seq<char>,
    token: u64,
    infos: Seq<TableInfo>,
    tables: Seq<TableModel>,
    elapsed_nanos: nat,
)
    requires
        counted_as_held(infos, tables),
        count_all(
            RunModel::begin(target, token, planned_rows(infos, infos.len())),
            scan_steps(tables, tables.len()),
        ).fits(),
    ensures
        ({
            let total = planned_rows(infos, infos.len());
            let steps = scan_steps(tables, tables.len());
            let run = RunModel::begin(target, token, total);
            &&& run.steps(steps).outcome() is Ok
            &&& run.steps(steps).processed_rows == total
            &&& run.steps(steps).total_rows == total
            &&& total == rows_in(tables, tables.len())
            &&& forall|k: int|
                0 < k <= steps.len() && steps[k - 1] is Row && #[trigger] rows_among(steps.take(k))
                    == total ==> run.steps(steps.take(k)).report_after_row(elapsed_nanos) == Some(
                    report(target, total, total, elapsed_nanos),
                ) && report(target, total, total, elapsed_nanos).is_finished
        }),
{
    let total = planned_rows(infos, infos.len());
    let steps = scan_steps(tables, tables.len());
    let run = RunModel::begin(target, token, total);
    lemma_planned_as_held(infos, tables, tables.len());
    lemma_scan_steps(tables, tables.len());
    law_unsignalled_run_goes_on(run, steps);
    law_every_row_counted(run, steps, elapsed_nanos);
    assert forall|k: int|
        0 < k <= steps.len() && steps[k - 1] is Row && #[trigger] rows_among(steps.take(k))
            == total implies run.steps(steps.take(k)).report_after_row(elapsed_nanos) == Some(
        report(target, total, total, elapsed_nanos),
    ) && report(target, total, total, elapsed_nanos).is_finished by {
        let prefix = steps.take(k);
        lemma_count_all_grows(run, steps, k);
        assert forall|i: int| 0 <= i < prefix.len() implies !(#[trigger] prefix[i]).told_to_stop(
        ) by {
            assert(!steps[i].told_to_stop());
        }
        law_unsignalled_run_goes_on(run, prefix);
        law_every_row_counted(run, prefix, elapsed_nanos);
    }
}

/// What values are made of, kind by kind.
pub struct Kinds {
    /// The characters of the text values.
    pub text_chars: nat,
    /// The number of integers and real numbers.
    pub numbers: nat,
    /// The number of binary values.
    pub blobs: nat,
    /// The bytes of the binary values.
    pub blob_bytes: nat,
}

impl Kinds {
    /// What two lots of values are made of together.
    pub open spec fn plus(self, other: Kinds) -> Kinds {
        Kinds {
            text_chars: self.text_chars + other.text_chars,
            numbers: self.numbers + other.numbers,
            blobs: self.blobs + other.blobs,
            blob_bytes: self.blob_bytes + other.blob_bytes,
        }
    }
}

/// What no value at all is made of.
pub open spec fn no_kinds() -> Kinds {
    Kinds { text_chars: 0, numbers: 0, blobs: 0, blob_bytes: 0 }
}

/// What one value is made of.
pub open spec fn kinds_of(value: CellModel) -> Kinds {
    match value {
        CellModel::Null => no_kinds(),
        CellModel::Integer(_) => Kinds { numbers: 1, ..no_kinds() },
        CellModel::Real => Kinds { numbers: 1, ..no_kinds() },
        CellModel::Text(text) => Kinds { text_chars: text.len(), ..no_kinds() },
        CellModel::Blob(bytes) => Kinds { blobs: 1, blob_bytes: bytes.len(), ..no_kinds() },
    }
}

/// What the values under the first `n` columns of a row are made of.
pub open spec fn kinds_in_row(row: Seq<CellModel>, n: nat) -> Kinds
    decreases n,
{
    if n == 0 {
        no_kinds()
    } else {
        kinds_in_row(row, (n - 1) as nat).plus(kinds_of(cell_at(row, n - 1)))
    }
}

/// What the values of the rows among `steps` are made of.
pub open spec fn kinds_among(steps: Seq<StepModel>) -> Kinds
    decreases steps.len(),
{
    if steps.len() == 0 {
        no_kinds()
    } else {
        match steps.last() {
            StepModel::Table { .. } => kinds_among(steps.drop_last()),
            StepModel::Row { columns, row, .. } => kinds_among(steps.drop_last()).plus(
                kinds_in_row(row, columns.len()),
            ),
        }
    }
}

/// The characters counted under the three classes together.
pub open spec fn classed(model: AnalysisModel) -> nat {
    model.type_distribution.numeric + model.type_distribution.alphabets
        + model.type_distribution.special
}

/// Whether `after` is `before` with values of `kinds` counted in: the three
/// classes together have grown by one for each character of text and one for
/// each number, the unknown values by one for each binary value, and the
/// total by the characters of text and the bytes of the binary values.
pub open spec fn grown_by(before: AnalysisModel, after: AnalysisModel, kinds: Kinds) -> bool {
    &&& classed(after) == classed(before) + kinds.text_chars + kinds.numbers
    &&& after.type_distribution.unknown == before.type_distribution.unknown + kinds.blobs
    &&& after.total_chars == before.total_chars + kinds.text_chars + kinds.blob_bytes
}

/// A value is counted for what it is made of.
pub proof fn law_value_counted_by_kind(
    model: AnalysisModel,
    table: Seq<char>,
    column: Seq<char>,
    value: CellModel,
)
    ensures
        grown_by(model, model.observe(table, column, value), kinds_of(value)),
{
    if let CellModel::Text(text) = value {
        lemma_classes_partition(text);
    }
}

/// The values of a row are counted for what they are made of.
pub proof fn law_row_counted_by_kind(
    model: AnalysisModel,
    table: Seq<char>,
    columns: Seq<Seq<char>>,
    row: Seq<CellModel>,
    n: nat,
)
    ensures
        grown_by(model, model.observe_cells(table, columns, row, n), kinds_in_row(row, n)),
    decreases n,
{
    if n > 0 {
        law_row_counted_by_kind(model, table, columns, row, (n - 1) as nat);
        law_value_counted_by_kind(
            model.observe_cells(table, columns, row, (n - 1) as nat),
            table,
            columns[n - 1],
            cell_at(row, n - 1),
        );
    }
}

/// In a run that has not ended, the sums of the statistics are those of the
/// values of all its rows: the three classes together hold one for each
/// character of every text value and one for each number, the unknown values
/// one for each binary value, and the total the characters of the text
/// values and the bytes of the binary values.
pub proof fn law_sums_over_run(run: RunModel, steps: Seq<StepModel>)
    requires
        run.steps(steps).stopped is None,
    ensures
        grown_by(run.stats, run.steps(steps).stats, kinds_among(steps)),
        run.stats == AnalysisModel::empty() ==> {
            &&& classed(run.steps(steps).stats) == kinds_among(steps).text_chars + kinds_among(
                steps,
            ).numbers
            &&& run.steps(steps).stats.type_distribution.unknown == kinds_among(steps).blobs
            &&& run.steps(steps).stats.total_chars == kinds_among(steps).text_chars + kinds_among(
                steps,
            ).blob_bytes
        },
    decreases steps.len(),
{
    if steps.len() > 0 {
        let before = run.steps(steps.drop_last());
        assert(before.stopped is None);
        law_sums_over_run(run, steps.drop_last());
        match steps.last() {
            StepModel::Table { .. } => {},
            StepModel::Row { cancelled, table, columns, row } => {
                law_row_counted_by_kind(before.stats, table, columns, row, columns.len());
            },
        }
    }
}

/// The sum of `f` over the code points below `n`.
pub open spec fn sum_below(f: spec_fn(u32) -> nat, n: nat) -> nat
    decreases n,
{
    if n == 0 {
        0
    } else {
        sum_below(f, (n - 1) as nat) + f((n - 1) as u32)
    }
}

/// All frequencies of the statistics together.
pub open spec fn frequency_total(model: AnalysisModel) -> nat {
    sum_below(|code: u32| model.frequency(code), 0x1_0000_0000)
}

/// The sum of a sum is the sum of the sums.
pub proof fn lemma_sum_add(
    f: spec_fn(u32) -> nat,
    g: spec_fn(u32) -> nat,
    h: spec_fn(u32) -> nat,
    n: nat,
)
    requires
        forall|code: u32| #[trigger] h(code) == f(code) + g(code),
    ensures
        sum_below(h, n) == sum_below(f, n) + sum_below(g, n),
    decreases n,
{
    if n > 0 {
        lemma_sum_add(f, g, h, (n - 1) as nat);
    }
}

/// A function that is 0 everywhere sums to 0.
pub proof fn lemma_sum_zero(f: spec_fn(u32) -> nat, n: nat)
    requires
        forall|code: u32| #[trigger] f(code) == 0,
    ensures
        sum_below(f, n) == 0,
    decreases n,
{
    if n > 0 {
        lemma_sum_zero(f, (n - 1) as nat);
    }
}

/// A function that is 1 at one code point and 0 elsewhere sums to 1 once
/// the sum has passed that code point.
pub proof fn lemma_sum_one(f: spec_fn(u32) -> nat, at: u32, n: nat)
    requires
        forall|code: u32| #[trigger] f(code) == if code == at { 1nat } else { 0nat },
        n <= 0x1_0000_0000,
    ensures
        sum_below(f, n) == if at < n { 1nat } else { 0nat },
    decreases n,
{
    if n > 0 {
        lemma_sum_one(f, at, (n - 1) as nat);
    }
}

/// The occurrences of all code points in a text are its characters.
pub proof fn lemma_occurrences_total(text: Seq<char>)
    ensures
        sum_below(|code: u32| occurrences(text, code), 0x1_0000_0000) == text.len(),
    decreases text.len(),
{
    let all = |code: u32| occurrences(text, code);
    if text.len() == 0 {
        lemma_sum_zero(all, 0x1_0000_0000);
    } else {
        let front = |code: u32| occurrences(text.drop_last(), code);
        let last = |code: u32| if code == text.last() as u32 { 1nat } else { 0nat };
        lemma_occurrences_total(text.drop_last());
        lemma_sum_one(last, text.last() as u32, 0x1_0000_0000);
        lemma_sum_add(front, last, all, 0x1_0000_0000);
    }
}

/// The occurrences of all code points in the values under the first `n`
/// columns of a row are the characters of the text values among them.
pub proof fn lemma_row_occurrences_total(row: Seq<CellModel>, n: nat)
    ensures
        sum_below(|code: u32| row_occurrences(row, n, code), 0x1_0000_0000) == kinds_in_row(
            row,
            n,
        ).text_chars,
    decreases n,
{
    let all = |code: u32| row_occurrences(row, n, code);
    if n == 0 {
        lemma_sum_zero(all, 0x1_0000_0000);
    } else {
        let value = cell_at(row, n - 1);
        let front = |code: u32| row_occurrences(row, (n - 1) as nat, code);
        let last = |code: u32| cell_occurrences(value, code);
        lemma_row_occurrences_total(row, (n - 1) as nat);
        match value {
            CellModel::Text(text) => {
                lemma_occurrences_total(text);
                assert(last =~= (|code: u32| occurrences(text, code)));
            },
            _ => {
                lemma_sum_zero(last, 0x1_0000_0000);
            },
        }
        lemma_sum_add(front, last, all, 0x1_0000_0000);
    }
}

/// The occurrences of all code points in the rows among `steps` are the
/// characters of their text values.
pub proof fn lemma_occurrences_among_total(steps: Seq<StepModel>)
    ensures
        sum_below(|code: u32| occurrences_among(steps, code), 0x1_0000_0000) == kinds_among(
            steps,
        ).text_chars,
    decreases steps.len(),
{
    let all = |code: u32| occurrences_among(steps, code);
    if steps.len() == 0 {
        lemma_sum_zero(all, 0x1_0000_0000);
    } else {
        let front = |code: u32| occurrences_among(steps.drop_last(), code);
        lemma_occurrences_among_total(steps.drop_last());
        match steps.last() {
            StepModel::Table { .. } => {
                let last = |code: u32| 0nat;
                lemma_sum_zero(last, 0x1_0000_0000);
                lemma_sum_add(front, last, all, 0x1_0000_0000);
            },
            StepModel::Row { cancelled, table, columns, row } => {
                let last = |code: u32| row_occurrences(row, columns.len(), code);
                lemma_row_occurrences_total(row, columns.len());
                lemma_sum_add(front, last, all, 0x1_0000_0000);
            },
        }
    }
}

/// In a run that has not ended, all frequencies together have grown by the
/// characters of the text values of its rows; values of another kind add
/// nothing to them. For a run that began with nothing seen, they are the
/// total less the bytes of the binary values.
pub proof fn law_frequencies_sum_to_text(run: RunModel, steps: Seq<StepModel>)
    requires
        run.steps(steps).stopped is None,
    ensures
        frequency_total(run.steps(steps).stats) == frequency_total(run.stats) + kinds_among(
            steps,
        ).text_chars,
        run.stats == AnalysisModel::empty() ==> frequency_total(run.steps(steps).stats)
            == run.steps(steps).stats.total_chars - kinds_among(steps).blob_bytes,
{
    let before = |code: u32| run.stats.frequency(code);
    let added = |code: u32| occurrences_among(steps, code);
    let after = |code: u32| run.steps(steps).stats.frequency(code);
    assert forall|code: u32| #[trigger] after(code) == before(code) + added(code) by {
        law_frequency_is_exact(run, steps, code);
    }
    lemma_sum_add(before, added, after, 0x1_0000_0000);
    lemma_occurrences_among_total(steps);
    if run.stats == AnalysisModel::empty() {
        lemma_sum_zero(before, 0x1_0000_0000);
        law_sums_over_run(run, steps);
    }
}

/// Whether a text value suggests the format `label`.
pub open spec fn suggests(value: Seq<char>, label: Seq<char>) -> bool {
    ||| label == email_label() && looks_like_email(value)
    ||| label == url_label() && looks_like_url(value)
}

/// Whether `value`, found in `column` of `table`, is a text that suggests the
/// format `label` for the column kept under `key`.
pub open spec fn value_suggests(
    table: Seq<char>,
    column: Seq<char>,
    value: CellModel,
    key: Seq<char>,
    label: Seq<char>,
) -> bool {
    value matches CellModel::Text(text) && column_key(table, column) == key && suggests(
        text,
        label,
    )
}

/// Whether a value under one of the first `n` columns of a row suggests the
/// format `label` for the column kept under `key`.
pub open spec fn row_suggests(
    table: Seq<char>,
    columns: Seq<Seq<char>>,
    row: Seq<CellModel>,
    n: nat,
    key: Seq<char>,
    label: Seq<char>,
) -> bool
    decreases n,
{
    if n == 0 {
        false
    } else {
        row_suggests(table, columns, row, (n - 1) as nat, key, label) || value_suggests(
            table,
            columns[n - 1],
            cell_at(row, n - 1),
            key,
            label,
        )
    }
}

/// Whether a value of a row among `steps` suggests the format `label` for
/// the column kept under `key`.
pub open spec fn steps_suggest(steps: Seq<StepModel>, key: Seq<char>, label: Seq<char>) -> bool
    decreases steps.len(),
{
    if steps.len() == 0 {
        false
    } else {
        steps_suggest(steps.drop_last(), key, label) || match steps.last() {
            StepModel::Table { .. } => false,
            StepModel::Row { table, columns, row, .. } => row_suggests(
                table,
                columns,
                row,
                columns.len(),
                key,
                label,
            ),
        }
    }
}

/// Whether `after` is `before` with more at its end, and holds `label`
/// exactly if `before` holds it or it was suggested.
pub open spec fn extended_by(
    before: Seq<Seq<char>>,
    after: Seq<Seq<char>>,
    label: Seq<char>,
    suggested: bool,
) -> bool {
    &&& before.is_prefix_of(after)
    &&& after.contains(label) <==> before.contains(label) || suggested
}

/// A value adds to the formats of a column at their end, and adds a format
/// exactly if it suggests it for that column and the column does not hold it
/// yet. It changes the formats of no other column.
pub proof fn law_value_extends_formats(
    model: AnalysisModel,
    table: Seq<char>,
    column: Seq<char>,
    value: CellModel,
    key: Seq<char>,
    label: Seq<char>,
)
    ensures
        extended_by(
            model.formats_of(key),
            model.observe(table, column, value).formats_of(key),
            label,
            value_suggests(table, column, value, key, label),
        ),
{
    let before = model.formats_of(key);
    let after = model.observe(table, column, value).formats_of(key);
    match value {
        CellModel::Text(text) => {
            if column_key(table, column) == key {
                let added = new_labels(text, before);
                assert(after == before + added);
                assert(before =~= after.subrange(0, before.len() as int));
                if after.contains(label) {
                    let i = choose|i: int| 0 <= i < after.len() && after[i] == label;
                    if i < before.len() {
                        assert(before[i] == label);
                    } else {
                        assert(added[i - before.len()] == label);
                    }
                }
                if before.contains(label) {
                    let i = choose|i: int| 0 <= i < before.len() && before[i] == label;
                    assert(after[i] == label);
                }
                if suggests(text, label) && !before.contains(label) {
                    assert(added[0] == label || added[added.len() - 1] == label);
                    if added[0] == label {
                        assert(after[before.len() as int] == label);
                    } else {
                        assert(after[after.len() - 1] == label);
                    }
                }
            } else {
                assert(after == before);
                assert(before =~= after.subrange(0, before.len() as int));
            }
        },
        _ => {
            assert(before =~= after.subrange(0, before.len() as int));
        },
    }
}

/// What is at the beginning of the beginning of a list is at the beginning
/// of the list.
pub proof fn lemma_prefix_chain(a: Seq<Seq<char>>, b: Seq<Seq<char>>, c: Seq<Seq<char>>)
    requires
        a.is_prefix_of(b),
        b.is_prefix_of(c),
    ensures
        a.is_prefix_of(c),
{
    assert forall|i: int| 0 <= i < a.len() implies a[i] == c[i] by {
        assert(a[i] == b.subrange(0, a.len() as int)[i]);
        assert(b[i] == c.subrange(0, b.len() as int)[i]);
    }
    assert(a =~= c.subrange(0, a.len() as int));
}

/// The values of a row add to the formats of a column at their end, and add
/// a format exactly if one of them suggests it for that column.
pub proof fn law_row_extends_formats(
    model: AnalysisModel,
    table: Seq<char>,
    columns: Seq<Seq<char>>,
    row: Seq<CellModel>,
    n: nat,
    key: Seq<char>,
    label: Seq<char>,
)
    ensures
        extended_by(
            model.formats_of(key),
            model.observe_cells(table, columns, row, n).formats_of(key),
            label,
            row_suggests(table, columns, row, n, key, label),
        ),
    decreases n,
{
    if n == 0 {
        let before = model.formats_of(key);
        assert(before =~= before.subrange(0, before.len() as int));
    } else {
        let middle = model.observe_cells(table, columns, row, (n - 1) as nat);
        law_row_extends_formats(model, table, columns, row, (n - 1) as nat, key, label);
        law_value_extends_formats(middle, table, columns[n - 1], cell_at(row, n - 1), key, label);
        lemma_prefix_chain(
            model.formats_of(key),
            middle.formats_of(key),
            model.observe_cells(table, columns, row, n).formats_of(key),
        );
    }
}

/// In a run that has not ended, the formats of a column are those it began
/// with and, after them, those that the values of its rows have added. A
/// column holds a format exactly if it held it at the beginning or a text
/// value of the column suggested it. For a run that began with nothing seen,
/// the formats of a column are exactly those that its text values
/// suggested, each of them the e-mail label or the web address label.
pub proof fn law_formats_are_those_suggested(
    run: RunModel,
    steps: Seq<StepModel>,
    key: Seq<char>,
    label: Seq<char>,
)
    requires
        run.steps(steps).stopped is None,
    ensures
        extended_by(
            run.stats.formats_of(key),
            run.steps(steps).stats.formats_of(key),
            label,
            steps_suggest(steps, key, label),
        ),
        run.stats == AnalysisModel::empty() ==> (run.steps(steps).stats.formats_of(key).contains(
            label,
        ) <==> steps_suggest(steps, key, label)),
        run.stats == AnalysisModel::empty() && run.steps(steps).stats.formats_of(key).contains(
            label,
        ) ==> label == email_label() || label == url_label(),
    decreases steps.len(),
{
    let first = run.stats.formats_of(key);
    if steps.len() == 0 {
        assert(first =~= first.subrange(0, first.len() as int));
    } else {
        let before = run.steps(steps.drop_last());
        assert(before.stopped is None);
        law_formats_are_those_suggested(run, steps.drop_last(), key, label);
        match steps.last() {
            StepModel::Table { .. } => {},
            StepModel::Row { cancelled, table, columns, row } => {
                law_row_extends_formats(
                    before.stats,
                    table,
                    columns,
                    row,
                    columns.len(),
                    key,
                    label,
                );
                lemma_prefix_chain(
                    first,
                    before.stats.formats_of(key),
                    run.steps(steps).stats.formats_of(key),
                );
            },
        }
    }
    if steps_suggest(steps, key, label) {
        lemma_suggested_labels(steps, key, label);
    }
}

/// Only the e-mail label and the web address label are ever suggested.
pub proof fn lemma_suggested_labels(steps: Seq<StepModel>, key: Seq<char>, label: Seq<char>)
    requires
        steps_suggest(steps, key, label),
    ensures
        label == email_label() || label == url_label(),
    decreases steps.len(),
{
    if steps.len() > 0 {
        if steps_suggest(steps.drop_last(), key, label) {
            lemma_suggested_labels(steps.drop_last(), key, label);
        } else {
            match steps.last() {
                StepModel::Table { .. } => {},
                StepModel::Row { cancelled, table, columns, row } => {
                    lemma_row_suggested_labels(table, columns, row, columns.len(), key, label);
                },
            }
        }
    }
}

/// Only the e-mail label and the web address label are ever suggested.
pub proof fn lemma_row_suggested_labels(
    table: Seq<char>,
    columns: Seq<Seq<char>>,
    row: Seq<CellModel>,
    n: nat,
    key: Seq<char>,
    label: Seq<char>,
)
    requires
        row_suggests(table, columns, row, n, key, label),
    ensures
        label == email_label() || label == url_label(),
    decreases n,
{
    if n > 0 && row_suggests(table, columns, row, (n - 1) as nat, key, label) {
        lemma_row_suggested_labels(table, columns, row, (n - 1) as nat, key, label);
    }
}

/// The formats of a column stand in the order of their detection: what a
/// column holds after the first `k` steps of a run stays at the beginning of
/// what it holds after all of them.
pub proof fn law_formats_in_order_of_detection(
    run: RunModel,
    steps: Seq<StepModel>,
    k: int,
    key: Seq<char>,
)
    requires
        run.steps(steps).stopped is None,
        0 <= k <= steps.len(),
    ensures
        run.steps(steps.take(k)).stats.formats_of(key).is_prefix_of(
            run.steps(steps).stats.formats_of(key),
        ),
    decreases steps.len(),
{
    let last = run.steps(steps).stats.formats_of(key);
    if k == steps.len() {
        assert(steps.take(k) =~= steps);
        assert(last =~= last.subrange(0, last.len() as int));
    } else {
        let before = run.steps(steps.drop_last());
        assert(before.stopped is None);
        assert(steps.drop_last().take(k) =~= steps.take(k));
        law_formats_in_order_of_detection(run, steps.drop_last(), k, key);
        let held = before.stats.formats_of(key);
        match steps.last() {
            StepModel::Table { .. } => {
                assert(held =~= held.subrange(0, held.len() as int));
            },
            StepModel::Row { cancelled, table, columns, row } => {
                law_row_extends_formats(
                    before.stats,
                    table,
                    columns,
                    row,
                    columns.len(),
                    key,
                    email_label(),
                );
            },
        }
        lemma_prefix_chain(
            run.steps(steps.take(k)).stats.formats_of(key),
            before.stats.formats_of(key),
            last,
        );
    }
}

} // verus!
