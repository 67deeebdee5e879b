use db_visualizer::progress::{compute, is_report_due, AnalysisProgress, REPORT_STRIDE};

const SECOND: u64 = 1_000_000_000;

#[test]
fn progress_of_a_quarter_done() {
    let snapshot = compute("data.db", 50, 200, 10 * SECOND);
    assert_eq!(
        snapshot,
        AnalysisProgress {
            db_path: "data.db".to_string(),
            progress: 25,
            records_processed: 50,
            total_records: 200,
            time_remaining_secs: 30,
            speed_records_per_sec: 5,
            is_finished: false,
        }
    );
}

#[test]
fn progress_is_finished_when_the_total_is_reached() {
    for elapsed in [0, 1, SECOND, 1000 * SECOND, u64::MAX] {
        let snapshot = compute("data.db", 200, 200, elapsed);
        assert!(snapshot.is_finished);
        assert_eq!(snapshot.progress, 100);
        assert_eq!(snapshot.time_remaining_secs, 0);
    }
    assert!(!compute("data.db", 199, 200, SECOND).is_finished);
    assert!(!compute("data.db", 201, 200, SECOND).is_finished);
}

#[test]
fn progress_without_rows_is_zero_percent_and_finished() {
    let snapshot = compute("empty.db", 0, 0, 0);
    assert_eq!(snapshot.progress, 0);
    assert!(snapshot.is_finished);
    assert_eq!(snapshot.speed_records_per_sec, 0);
    assert_eq!(snapshot.time_remaining_secs, 0);
    assert_eq!(snapshot.records_processed, 0);
    assert_eq!(snapshot.total_records, 0);
}

#[test]
fn speed_is_zero_when_no_time_has_elapsed() {
    let snapshot = compute("data.db", 100, 200, 0);
    assert_eq!(snapshot.speed_records_per_sec, 0);
    assert_eq!(snapshot.time_remaining_secs, 0);
    assert_eq!(snapshot.progress, 50);
}

#[test]
fn remaining_time_is_zero_when_nothing_was_processed() {
    let snapshot = compute("data.db", 0, 200, 5 * SECOND);
    assert_eq!(snapshot.speed_records_per_sec, 0);
    assert_eq!(snapshot.time_remaining_secs, 0);
    assert_eq!(snapshot.progress, 0);
}

#[test]
fn quotients_are_rounded_down() {
    let snapshot = compute("data.db", 100, 300, 3 * SECOND);
    assert_eq!(snapshot.progress, 33);
    assert_eq!(snapshot.speed_records_per_sec, 33);
    assert_eq!(snapshot.time_remaining_secs, 6);
    let slow = compute("data.db", 1, 3, 2 * SECOND);
    assert_eq!(slow.speed_records_per_sec, 0);
    assert_eq!(slow.time_remaining_secs, 4);
}

#[test]
fn speed_uses_fractions_of_a_second() {
    let snapshot = compute("data.db", 100, 1000, SECOND / 4);
    assert_eq!(snapshot.speed_records_per_sec, 400);
    assert_eq!(snapshot.time_remaining_secs, 2);
}

#[test]
fn values_beyond_64_bits_are_clipped() {
    let fast = compute("data.db", u64::MAX, u64::MAX, 1);
    assert_eq!(fast.speed_records_per_sec, u64::MAX);
    let long = compute("data.db", 1, u64::MAX, u64::MAX);
    assert_eq!(long.time_remaining_secs, u64::MAX);
    let day = compute("data.db", 1000, 87_401_000, 1_000_000_000);
    assert_eq!(day.time_remaining_secs, 87_400);
    let over = compute("data.db", u64::MAX, 1, SECOND);
    assert_eq!(over.progress, u64::MAX);
    assert_eq!(over.time_remaining_secs, 0);
}

#[test]
fn a_report_is_due_every_hundred_rows_and_on_the_last() {
    assert_eq!(REPORT_STRIDE, 100);
    assert!(is_report_due(100, 1000));
    assert!(is_report_due(200, 1000));
    assert!(is_report_due(1000, 1000));
    assert!(!is_report_due(99, 1000));
    assert!(!is_report_due(101, 1000));
    assert!(is_report_due(7, 7));
    assert!(is_report_due(250, 250));
    assert!(!is_report_due(249, 250));
    assert!(is_report_due(300, 250));
    assert!(is_report_due(0, 0));
}
