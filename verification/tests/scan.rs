use db_visualizer::catalog::TableInfo;
use db_visualizer::progress::compute;
use db_visualizer::scan::{AnalysisRun, RowOutcome, ScanError};
use db_visualizer::stats::{AnalysisResults, TypeDistribution};
use db_visualizer::value::CellValue;

fn table(name: &str, row_count: i64) -> TableInfo {
    TableInfo { name: name.to_string(), row_count }
}

fn columns() -> Vec<String> {
    vec!["id".to_string(), "name".to_string()]
}

fn row(id: i64) -> Vec<CellValue> {
    vec![CellValue::Integer(id), CellValue::Text("ab".to_string())]
}

#[test]
fn a_run_begins_with_the_sum_of_the_row_counts() {
    let run = AnalysisRun::start("data.db", 7, &vec![table("a", 3), table("b", 0), table("c", 4)])
        .unwrap();
    assert_eq!(run.target, "data.db");
    assert_eq!(run.token, 7);
    assert_eq!(run.total_rows, 7);
    assert_eq!(run.processed_rows, 0);
    assert_eq!(run.results, AnalysisResults::new());
    assert_eq!(run.stopped, None);
}

#[test]
fn a_negative_row_count_stands_for_no_rows() {
    let run = AnalysisRun::start("data.db", 0, &vec![table("a", -5), table("b", 2)]).unwrap();
    assert_eq!(run.total_rows, 2);
}

#[test]
fn no_run_begins_when_the_total_is_beyond_64_bits() {
    let tables = vec![table("a", i64::MAX), table("b", i64::MAX), table("c", 1)];
    assert_eq!(AnalysisRun::start("data.db", 0, &tables).unwrap().total_rows, u64::MAX);
    let tables = vec![table("a", i64::MAX), table("b", i64::MAX), table("c", 2)];
    assert_eq!(AnalysisRun::start("data.db", 0, &tables), Err(ScanError::CountersFull));
}

#[test]
fn a_run_without_rows_reports_at_once_that_it_is_finished() {
    let run = AnalysisRun::start("empty.db", 1, &vec![table("a", 0)]).unwrap();
    let snapshot = run.first_report().unwrap();
    assert_eq!(snapshot, compute("empty.db", 0, 0, 0));
    assert_eq!(snapshot.progress, 0);
    assert!(snapshot.is_finished);
    assert_eq!(run.finish(), Ok(AnalysisResults::new()));
}

#[test]
fn a_run_without_tables_reports_at_once_that_it_is_finished() {
    let run = AnalysisRun::start("empty.db", 1, &Vec::new()).unwrap();
    assert_eq!(run.total_rows, 0);
    assert!(run.first_report().unwrap().is_finished);
}

#[test]
fn a_run_with_rows_has_no_first_report() {
    let run = AnalysisRun::start("data.db", 1, &vec![table("a", 1)]).unwrap();
    assert_eq!(run.first_report(), None);
}

#[test]
fn every_row_is_counted_once_and_the_last_is_reported() {
    let mut run = AnalysisRun::start("data.db", 1, &vec![table("a", 2), table("b", 1)]).unwrap();
    assert!(run.begin_table(false));
    assert_eq!(run.on_row(false, "a", &columns(), &row(1), 10), RowOutcome::Continue);
    assert_eq!(run.on_row(false, "a", &columns(), &row(2), 20), RowOutcome::Continue);
    assert!(run.begin_table(false));
    assert_eq!(
        run.on_row(false, "b", &columns(), &row(3), 3_000_000_000),
        RowOutcome::Report(compute("data.db", 3, 3, 3_000_000_000))
    );
    assert_eq!(run.processed_rows, 3);
    assert_eq!(run.processed_rows, run.total_rows);
    let results = run.finish().unwrap();
    assert_eq!(results.total_chars, 6);
    assert_eq!(
        results.type_distribution,
        TypeDistribution { numeric: 3, alphabets: 6, special: 0, unknown: 0 }
    );
    assert_eq!(results.column_formats.len(), 2);
}

#[test]
fn a_report_is_due_every_hundredth_row() {
    let mut run = AnalysisRun::start("data.db", 1, &vec![table("a", 250)]).unwrap();
    let mut reported = Vec::new();
    for i in 1..=250u64 {
        match run.on_row(false, "a", &columns(), &row(i as i64), i * 1_000_000) {
            RowOutcome::Continue => {}
            RowOutcome::Report(snapshot) => reported.push(snapshot),
            RowOutcome::Stop(reason) => panic!("stopped: {:?}", reason),
        }
    }
    let at: Vec<u64> = reported.iter().map(|s| s.records_processed).collect();
    assert_eq!(at, vec![100, 200, 250]);
    let finished: Vec<bool> = reported.iter().map(|s| s.is_finished).collect();
    assert_eq!(finished, vec![false, false, true]);
    assert_eq!(reported[0], compute("data.db", 100, 250, 100_000_000));
    assert_eq!(reported[0].progress, 40);
    assert_eq!(reported[0].speed_records_per_sec, 1000);
}

#[test]
fn a_table_with_more_rows_than_counted_goes_on_past_the_total() {
    let mut run = AnalysisRun::start("data.db", 1, &vec![table("a", 1)]).unwrap();
    assert!(matches!(run.on_row(false, "a", &columns(), &row(1), 1), RowOutcome::Report(_)));
    assert_eq!(run.on_row(false, "a", &columns(), &row(2), 2), RowOutcome::Continue);
    assert_eq!(run.processed_rows, 2);
    assert_eq!(run.total_rows, 1);
    assert!(run.finish().is_ok());
}

#[test]
fn a_skipped_table_leaves_the_count_below_the_total() {
    let mut run = AnalysisRun::start("data.db", 1, &vec![table("a", 2), table("gone", 5)]).unwrap();
    assert!(run.begin_table(false));
    assert_eq!(run.on_row(false, "a", &columns(), &row(1), 1), RowOutcome::Continue);
    assert_eq!(run.on_row(false, "a", &columns(), &row(2), 2), RowOutcome::Continue);
    assert!(run.begin_table(false));
    assert_eq!(run.processed_rows, 2);
    assert_eq!(run.total_rows, 7);
    assert!(run.finish().is_ok());
}

#[test]
fn a_cancelled_row_stops_the_run_and_drops_the_statistics() {
    let mut run = AnalysisRun::start("data.db", 1, &vec![table("a", 500)]).unwrap();
    assert_eq!(run.on_row(false, "a", &columns(), &row(1), 1), RowOutcome::Continue);
    assert_eq!(
        run.on_row(true, "a", &columns(), &row(2), 2),
        RowOutcome::Stop(ScanError::Cancelled)
    );
    assert_eq!(run.processed_rows, 1);
    assert_eq!(run.stopped, Some(ScanError::Cancelled));
    assert_eq!(run.finish(), Err(ScanError::Cancelled));
}

#[test]
fn a_cancelled_table_stops_the_run() {
    let mut run = AnalysisRun::start("data.db", 1, &vec![table("a", 5)]).unwrap();
    assert!(!run.begin_table(true));
    assert_eq!(run.finish(), Err(ScanError::Cancelled));
}

#[test]
fn a_stopped_run_takes_no_more_rows() {
    let mut run = AnalysisRun::start("data.db", 1, &vec![table("a", 5)]).unwrap();
    assert!(!run.begin_table(true));
    let before = run.clone();
    assert_eq!(
        run.on_row(false, "a", &columns(), &row(1), 1),
        RowOutcome::Stop(ScanError::Cancelled)
    );
    assert!(!run.begin_table(false));
    assert_eq!(run, before);
}

#[test]
fn a_run_without_cancellation_checks_ends_with_statistics() {
    let run = AnalysisRun::start("data.db", 1, &vec![table("a", 5)]).unwrap();
    assert_eq!(run.finish(), Ok(AnalysisResults::new()));
}

#[test]
fn a_full_counter_stops_the_run() {
    let mut run = AnalysisRun::start("data.db", 1, &vec![table("a", 5)]).unwrap();
    run.results.total_chars = u64::MAX - 1;
    let before = run.results.clone();
    assert_eq!(
        run.on_row(false, "a", &columns(), &row(1), 1),
        RowOutcome::Stop(ScanError::CountersFull)
    );
    assert_eq!(run.results, before);
    assert_eq!(run.processed_rows, 0);
    assert_eq!(run.finish(), Err(ScanError::CountersFull));
}

#[test]
fn a_full_row_count_stops_the_run() {
    let mut run = AnalysisRun::start("data.db", 1, &vec![table("a", 5)]).unwrap();
    run.processed_rows = u64::MAX;
    assert_eq!(
        run.on_row(false, "a", &columns(), &row(1), 1),
        RowOutcome::Stop(ScanError::CountersFull)
    );
}

#[test]
fn every_reason_has_its_words() {
    assert_eq!(ScanError::Cancelled.message(), "Analysis cancelled");
    assert_eq!(ScanError::SourceUnavailable.message(), "Database unavailable");
    assert_eq!(ScanError::CountersFull.message(), "Counters full");
}

fn scanned() -> AnalysisResults {
    let tables = vec![table("people", 2), table("files", 2)];
    let mut run = AnalysisRun::start("data.db", 1, &tables).unwrap();
    let people = vec!["id".to_string(), "contact".to_string()];
    let files = vec!["name".to_string(), "content".to_string(), "size".to_string()];
    assert!(run.begin_table(false));
    let first = vec![CellValue::Integer(1), CellValue::Text("www.a1.org".to_string())];
    let second = vec![CellValue::Real, CellValue::Text("b2@c.de".to_string())];
    assert_eq!(run.on_row(false, "people", &people, &first, 1), RowOutcome::Continue);
    assert_eq!(run.on_row(false, "people", &people, &second, 2), RowOutcome::Continue);
    assert!(run.begin_table(false));
    let third = vec![
        CellValue::Text("x¾".to_string()),
        CellValue::Blob(vec![0; 7]),
        CellValue::Null,
    ];
    let fourth = vec![
        CellValue::Text("".to_string()),
        CellValue::Blob(vec![]),
        CellValue::Integer(3),
    ];
    assert_eq!(run.on_row(false, "files", &files, &third, 3), RowOutcome::Continue);
    assert!(matches!(run.on_row(false, "files", &files, &fourth, 4), RowOutcome::Report(_)));
    assert_eq!(run.processed_rows, run.total_rows);
    run.finish().unwrap()
}

#[test]
fn the_sums_of_a_run_are_those_of_its_values() {
    let results = scanned();
    let text_chars = 10 + 7 + 2;
    let numbers = 3;
    let distribution = results.type_distribution;
    assert_eq!(
        distribution.numeric + distribution.alphabets + distribution.special,
        text_chars + numbers
    );
    assert_eq!(distribution.numeric, 2 + numbers);
    assert_eq!(distribution.unknown, 2);
    assert_eq!(results.total_chars, text_chars + 7);
}

#[test]
fn the_frequencies_of_a_run_add_up_to_its_text() {
    let results = scanned();
    let all: u64 = results.char_frequency.values().sum();
    assert_eq!(all, results.total_chars - 7);
    assert_eq!(results.char_frequency[&('.' as u32)], 3);
    assert_eq!(results.char_frequency[&('¾' as u32)], 1);
}

#[test]
fn the_formats_of_a_run_are_those_its_values_suggest() {
    let results = scanned();
    let formats: Vec<(&str, Vec<&str>)> = results
        .column_formats
        .iter()
        .map(|entry| {
            (entry.column.as_str(), entry.formats.iter().map(|label| label.as_str()).collect())
        })
        .collect();
    assert_eq!(
        formats,
        vec![("people.contact", vec!["URL", "Email"]), ("files.name", vec![])]
    );
}
