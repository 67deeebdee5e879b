//! Progress of a run: how far it is, how fast it goes and how long it will
//! still take, in whole units.
//!
//! Time is taken in nanoseconds and every quotient is rounded down. A value
//! too large for 64 bits is given as the largest that 64 bits hold.

use vstd::prelude::*;
use vstd::string::StringExecFns;

verus! {

/// A progress report is due after every so many rows.
pub const REPORT_STRIDE: u64 = 100;

/// What a run reports of its progress.
#[derive(Clone, Debug, PartialEq, Eq)]
pub struct AnalysisProgress {
    /// The database that the run works on.
    pub db_path: String,
    /// Rows processed, in percent of the total.
    pub progress: u64,
    pub records_processed: u64,
    pub total_records: u64,
    /// The seconds that the rows still to come will take at the speed so far.
    pub time_remaining_secs: u64,
    /// Rows processed per second so far.
    pub speed_records_per_sec: u64,
    /// Whether every row of the total was processed.
    pub is_finished: bool,
}

/// A progress report as a mathematical value.
pub struct ProgressModel {
    pub db_path: Seq<char>,
    pub progress: nat,
    pub records_processed: nat,
    pub total_records: nat,
    pub time_remaining_secs: nat,
    pub speed_records_per_sec: nat,
    pub is_finished: bool,
}

impl View for AnalysisProgress {
    type V = ProgressModel;

    open spec fn view(&self) -> ProgressModel {
        ProgressModel {
            db_path: self.db_path@,
            progress: self.progress as nat,
            records_processed: self.records_processed as nat,
            total_records: self.total_records as nat,
            time_remaining_secs: self.time_remaining_secs as nat,
            speed_records_per_sec: self.speed_records_per_sec as nat,
            is_finished: self.is_finished,
        }
    }
}

/// The largest value of 64 bits in place of a larger number.
pub open spec fn clip(n: nat) -> u64 {
    if n > u64::MAX {
        u64::MAX
    } else {
        n as u64
    }
}

/// Rows per second: the rows processed over the seconds elapsed, or 0 where
/// no time has elapsed.
pub open spec fn throughput(processed: nat, elapsed_nanos: nat) -> nat {
    if elapsed_nanos == 0 {
        0
    } else {
        processed * 1_000_000_000 / elapsed_nanos
    }
}

/// Seconds remaining: the rows still to come over the rows per second so
/// far, or 0 where that speed is 0 or no row is still to come.
pub open spec fn remaining_secs(processed: nat, total: nat, elapsed_nanos: nat) -> nat {
    if processed == 0 || elapsed_nanos == 0 || total <= processed {
        0
    } else {
        ((total - processed) * elapsed_nanos / ((processed * 1_000_000_000) as int)) as nat
    }
}

/// Percent done: the rows processed over the total, times 100, or 0 where
/// the total is 0.
pub open spec fn percentage(processed: nat, total: nat) -> nat {
    if total == 0 {
        0
    } else {
        processed * 100 / total
    }
}

/// The report of the run on `target` after `processed` of `total` rows and
/// `elapsed_nanos` nanoseconds. The run is finished when it has processed
/// exactly the total.
pub open spec fn report(
    target: Seq<char>,
    processed: nat,
    total: nat,
    elapsed_nanos: nat,
) -> ProgressModel {
    ProgressModel {
        db_path: target,
        progress: clip(percentage(processed, total)) as nat,
        records_processed: processed,
        total_records: total,
        time_remaining_secs: clip(remaining_secs(processed, total, elapsed_nanos)) as nat,
        speed_records_per_sec: clip(throughput(processed, elapsed_nanos)) as nat,
        is_finished: processed == total,
    }
}

/// A report is due on every row whose number is a multiple of the stride,
/// and on the row that completes the total.
pub open spec fn report_due(processed: nat, total: nat) -> bool {
    processed % (REPORT_STRIDE as nat) == 0 || processed == total
}

/// Percent done is at most 100 as long as no more rows were processed than
/// the total, and is 100 when a total above 0 is reached.
pub proof fn law_percentage_range(processed: nat, total: nat)
    requires
        processed <= total,
    ensures
        percentage(processed, total) <= 100,
        processed == total && total > 0 ==> percentage(processed, total) == 100,
{
    if total > 0 {
        assert(processed * 100 <= total * 100) by (nonlinear_arith)
            requires
                processed <= total,
        ;
        vstd::arithmetic::div_mod::lemma_div_is_ordered(
            (processed * 100) as int,
            (total * 100) as int,
            total as int,
        );
        vstd::arithmetic::div_mod::lemma_div_multiples_vanish(100, total as int);
        assert(total * 100 == 100 * total) by (nonlinear_arith);
    }
}

/// A report says that the run is finished exactly when the rows processed
/// are the total, whatever time has elapsed. Such a report leaves no time
/// remaining.
pub proof fn law_finished_at_total(
    target: Seq<char>,
    processed: nat,
    total: nat,
    elapsed_nanos: nat,
)
    ensures
        report(target, processed, total, elapsed_nanos).is_finished <==> processed == total,
        processed == total ==> report(target, processed, total, elapsed_nanos).time_remaining_secs
            == 0,
{
}

/// Whether a report is due after the row that made the count `processed`.
pub fn is_report_due(processed: u64, total: u64) -> (due: bool)
    ensures
        due == report_due(processed as nat, total as nat),
{
    processed % REPORT_STRIDE == 0 || processed == total
}

/// Brings a number down to 64 bits.
fn clip_to_u64(n: u128) -> (clipped: u64)
    ensures
        clipped == clip(n as nat),
{
    if n > u64::MAX as u128 {
        u64::MAX
    } else {
        n as u64
    }
}

/// The progress of the run on `target` after `processed` of `total` rows and
/// `elapsed_nanos` nanoseconds.
pub fn compute(target: &str, processed: u64, total: u64, elapsed_nanos: u64) -> (snapshot:
    AnalysisProgress)
    ensures
        snapshot@ == report(target@, processed as nat, total as nat, elapsed_nanos as nat),
{
    let speed: u64 = if elapsed_nanos == 0 {
        0
    } else {
        clip_to_u64(processed as u128 * 1_000_000_000 / elapsed_nanos as u128)
    };
    let remaining: u64 = if processed == 0 || elapsed_nanos == 0 || total <= processed {
        0
    } else {
        let rows: u128 = (total - processed) as u128;
        assert(rows * elapsed_nanos <= 0xffff_ffff_ffff_ffff * 0xffff_ffff_ffff_ffff)
            by (nonlinear_arith)
            requires
                0 <= rows <= 0xffff_ffff_ffff_ffff,
                0 <= elapsed_nanos <= 0xffff_ffff_ffff_ffff,
        ;
        clip_to_u64(rows * elapsed_nanos as u128 / (processed as u128 * 1_000_000_000))
    };
    let percent: u64 = if total == 0 {
        0
    } else {
        clip_to_u64(processed as u128 * 100 / total as u128)
    };
    AnalysisProgress {
        db_path: String::from_str(target),
        progress: percent,
        records_processed: processed,
        total_records: total,
        time_remaining_secs: remaining,
        speed_records_per_sec: speed,
        is_finished: processed == total,
    }
}

} // verus!
