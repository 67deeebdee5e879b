use db_visualizer::catalog::TableInfo;
use db_visualizer::orchestrator::{
    finish_db_analysis, start_db_analysis, stop_db_analysis, AppState,
};
use db_visualizer::registry::Registered;
use db_visualizer::scan::{AnalysisRun, RowOutcome, ScanError};
use db_visualizer::stats::AnalysisResults;
use db_visualizer::value::CellValue;
use std::collections::HashMap;
use std::path::PathBuf;

fn state() -> AppState {
    AppState::new(PathBuf::from("/data/metadata.db"))
}

fn one_row_run(path: &str, token: u64, text: &str, cancelled: bool) -> AnalysisRun {
    let tables = vec![TableInfo { name: "t".to_string(), row_count: 1 }];
    let mut run = AnalysisRun::start(path, token, &tables).unwrap();
    let row = vec![CellValue::Text(text.to_string())];
    let outcome = run.on_row(cancelled, "t", &vec!["c".to_string()], &row, 1);
    assert_eq!(matches!(outcome, RowOutcome::Stop(_)), cancelled);
    run
}

fn store(results: &mut HashMap<String, AnalysisResults>, path: &str, persist: Option<AnalysisResults>) {
    if let Some(found) = persist {
        results.insert(path.to_string(), found);
    }
}

#[test]
fn a_new_state_keeps_its_path_and_has_no_runs() {
    let state = state();
    assert_eq!(state.metadata_db_path, PathBuf::from("/data/metadata.db"));
    assert!(state.analysis_tasks.entries.is_empty());
}

#[test]
fn start_registers_the_run() {
    let mut state = state();
    assert_eq!(
        start_db_analysis(&mut state, "a.db"),
        Some(Registered { token: 0, superseded: None })
    );
    assert_eq!(state.analysis_tasks.current("a.db"), Some(0));
    assert_eq!(state.metadata_db_path, PathBuf::from("/data/metadata.db"));
}

#[test]
fn a_second_start_names_the_first_run_for_signalling() {
    let mut state = state();
    let first = start_db_analysis(&mut state, "a.db").unwrap();
    let second = start_db_analysis(&mut state, "a.db").unwrap();
    assert_eq!(second.superseded, Some(first.token));
    assert_ne!(first.token, second.token);
    assert_eq!(state.analysis_tasks.current("a.db"), Some(second.token));
}

#[test]
fn stop_names_the_run_for_signalling_and_removes_it() {
    let mut state = state();
    let run = start_db_analysis(&mut state, "a.db").unwrap();
    assert_eq!(stop_db_analysis(&mut state, "a.db"), Some(run.token));
    assert_eq!(state.analysis_tasks.current("a.db"), None);
}

#[test]
fn stop_without_a_run_is_no_error() {
    let mut state = state();
    assert_eq!(stop_db_analysis(&mut state, "a.db"), None);
    assert!(state.analysis_tasks.entries.is_empty());
}

#[test]
fn a_finished_run_is_stored_and_unregistered() {
    let mut state = state();
    let started = start_db_analysis(&mut state, "a.db").unwrap();
    let run = one_row_run("a.db", started.token, "abc", false);
    let expected = run.results.clone();
    let persist = finish_db_analysis(&mut state, "a.db", started.token, run.finish());
    assert_eq!(persist, Some(expected));
    assert_eq!(state.analysis_tasks.current("a.db"), None);
}

#[test]
fn a_cancelled_run_leaves_the_stored_result_untouched() {
    let mut results = HashMap::new();
    let mut state = state();
    let first = start_db_analysis(&mut state, "a.db").unwrap();
    let done = one_row_run("a.db", first.token, "abc", false);
    let persist = finish_db_analysis(&mut state, "a.db", first.token, done.finish());
    store(&mut results, "a.db", persist);
    let stored = results.clone();

    let second = start_db_analysis(&mut state, "a.db").unwrap();
    assert_eq!(stop_db_analysis(&mut state, "a.db"), Some(second.token));
    let cancelled = one_row_run("a.db", second.token, "other text", true);
    let persist = finish_db_analysis(&mut state, "a.db", second.token, cancelled.finish());
    assert_eq!(persist, None);
    store(&mut results, "a.db", persist);
    assert_eq!(results, stored);
}

#[test]
fn a_cancelled_run_stores_nothing_where_nothing_was_stored() {
    let mut results: HashMap<String, AnalysisResults> = HashMap::new();
    let mut state = state();
    let started = start_db_analysis(&mut state, "a.db").unwrap();
    let run = one_row_run("a.db", started.token, "abc", true);
    let persist = finish_db_analysis(&mut state, "a.db", started.token, run.finish());
    store(&mut results, "a.db", persist);
    assert!(results.is_empty());
}

#[test]
fn a_failed_run_stores_nothing() {
    let mut state = state();
    let started = start_db_analysis(&mut state, "a.db").unwrap();
    let persist =
        finish_db_analysis(&mut state, "a.db", started.token, Err(ScanError::SourceUnavailable));
    assert_eq!(persist, None);
    assert_eq!(state.analysis_tasks.current("a.db"), None);
}

#[test]
fn of_two_runs_the_later_one_is_stored() {
    for first_ends_first in [true, false] {
        let mut results = HashMap::new();
        let mut state = state();
        let first = start_db_analysis(&mut state, "a.db").unwrap();
        let second = start_db_analysis(&mut state, "a.db").unwrap();
        let stale = one_row_run("a.db", first.token, "first", second.superseded == Some(first.token));
        let fresh = one_row_run("a.db", second.token, "second run", false);
        let expected = fresh.results.clone();
        if first_ends_first {
            let persist = finish_db_analysis(&mut state, "a.db", first.token, stale.finish());
            store(&mut results, "a.db", persist);
            assert_eq!(state.analysis_tasks.current("a.db"), Some(second.token));
            let persist = finish_db_analysis(&mut state, "a.db", second.token, fresh.finish());
            store(&mut results, "a.db", persist);
        } else {
            let persist = finish_db_analysis(&mut state, "a.db", second.token, fresh.finish());
            store(&mut results, "a.db", persist);
            let persist = finish_db_analysis(&mut state, "a.db", first.token, stale.finish());
            store(&mut results, "a.db", persist);
        }
        assert_eq!(results.len(), 1);
        assert_eq!(results["a.db"], expected);
        assert_eq!(results["a.db"].total_chars, 10);
        assert_eq!(state.analysis_tasks.current("a.db"), None);
    }
}

#[test]
fn the_end_of_a_superseded_run_keeps_its_successor_registered() {
    let mut state = state();
    let first = start_db_analysis(&mut state, "a.db").unwrap();
    let second = start_db_analysis(&mut state, "a.db").unwrap();
    finish_db_analysis(&mut state, "a.db", first.token, Err(ScanError::Cancelled));
    assert_eq!(state.analysis_tasks.current("a.db"), Some(second.token));
}
