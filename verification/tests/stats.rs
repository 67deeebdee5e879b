use db_visualizer::stats::{AnalysisResults, ColumnFormats, TypeDistribution};
use db_visualizer::value::CellValue;

fn strings(items: &[&str]) -> Vec<String> {
    items.iter().map(|s| s.to_string()).collect()
}

fn frequency(results: &AnalysisResults, c: char) -> u64 {
    results.char_frequency.get(&(c as u32)).copied().unwrap_or(0)
}

#[test]
fn new_results_are_empty() {
    let results = AnalysisResults::new();
    assert_eq!(results.total_chars, 0);
    assert_eq!(
        results.type_distribution,
        TypeDistribution { numeric: 0, alphabets: 0, special: 0, unknown: 0 }
    );
    assert!(results.char_frequency.is_empty());
    assert!(results.column_formats.is_empty());
    assert_eq!(results, AnalysisResults::default());
    assert_eq!(TypeDistribution::default().numeric, 0);
}

#[test]
fn observe_text_counts_each_character_once() {
    let mut results = AnalysisResults::new();
    results.observe_text("people", "note", "ab 12!");
    assert_eq!(results.total_chars, 6);
    assert_eq!(
        results.type_distribution,
        TypeDistribution { numeric: 2, alphabets: 2, special: 2, unknown: 0 }
    );
    let d = results.type_distribution;
    assert_eq!(d.numeric + d.alphabets + d.special, 6);
}

#[test]
fn observe_text_counts_only_decimal_digits_as_numeric() {
    let mut results = AnalysisResults::new();
    results.observe_text("t", "c", "a1¾");
    assert_eq!(results.total_chars, 3);
    assert_eq!(
        results.type_distribution,
        TypeDistribution { numeric: 1, alphabets: 1, special: 1, unknown: 0 }
    );
}

#[test]
fn observe_text_counts_characters_not_bytes() {
    let mut results = AnalysisResults::new();
    results.observe_text("t", "c", "héé");
    assert_eq!(results.total_chars, 3);
    assert_eq!(results.type_distribution.alphabets, 3);
    assert_eq!(frequency(&results, 'é'), 2);
}

#[test]
fn char_frequency_is_the_number_of_occurrences() {
    let mut results = AnalysisResults::new();
    results.observe_text("t", "a", "banana");
    results.observe_text("t", "b", "an");
    results.observe_numeric();
    results.observe_binary(10);
    assert_eq!(frequency(&results, 'a'), 4);
    assert_eq!(frequency(&results, 'n'), 3);
    assert_eq!(frequency(&results, 'b'), 1);
    assert_eq!(frequency(&results, 'z'), 0);
    assert_eq!(results.char_frequency.len(), 3);
}

#[test]
fn observe_numeric_counts_one_per_value() {
    let mut results = AnalysisResults::new();
    results.observe_numeric();
    results.observe_numeric();
    assert_eq!(results.type_distribution.numeric, 2);
    assert_eq!(results.total_chars, 0);
    assert!(results.char_frequency.is_empty());
}

#[test]
fn observe_binary_adds_length_and_one_unknown() {
    let mut results = AnalysisResults::new();
    results.observe_binary(10);
    results.observe_binary(0);
    assert_eq!(results.total_chars, 10);
    assert_eq!(
        results.type_distribution,
        TypeDistribution { numeric: 0, alphabets: 0, special: 0, unknown: 2 }
    );
}

#[test]
fn observe_null_changes_nothing() {
    let mut results = AnalysisResults::new();
    results.observe_text("t", "c", "x1");
    let before = results.clone();
    results.observe_null();
    assert_eq!(results, before);
}

#[test]
fn formats_are_kept_by_table_and_column() {
    let mut results = AnalysisResults::new();
    results.observe_text("people", "mail", "user@example.com");
    results.observe_text("people", "site", "www.example.com");
    results.observe_text("firms", "mail", "plain");
    assert_eq!(
        results.column_formats,
        vec![
            ColumnFormats { column: "people.mail".to_string(), formats: strings(&["Email"]) },
            ColumnFormats { column: "people.site".to_string(), formats: strings(&["URL"]) },
            ColumnFormats { column: "firms.mail".to_string(), formats: strings(&[]) },
        ]
    );
    assert_eq!(results.find_column(&"people.site".to_string()), Some(1));
    assert_eq!(results.find_column(&"people".to_string()), None);
}

#[test]
fn a_format_is_listed_once_however_often_it_is_seen() {
    let mut results = AnalysisResults::new();
    results.observe_text("people", "contact", "a@b.c");
    results.observe_text("people", "contact", "d@e.f");
    results.observe_text("people", "contact", "http://g.h");
    results.observe_text("people", "contact", "www.i.j");
    results.observe_text("people", "contact", "k@l.m");
    assert_eq!(results.column_formats.len(), 1);
    assert_eq!(results.column_formats[0].formats, strings(&["Email", "URL"]));
}

#[test]
fn formats_keep_the_order_of_detection() {
    let mut results = AnalysisResults::new();
    results.observe_text("t", "c", "www.example.com");
    results.observe_text("t", "c", "user@example.com");
    assert_eq!(results.column_formats[0].formats, strings(&["URL", "Email"]));
}

#[test]
fn observe_dispatches_on_the_kind_of_value() {
    let mut results = AnalysisResults::new();
    results.observe("t", "a", &CellValue::Null);
    results.observe("t", "b", &CellValue::Integer(12345));
    results.observe("t", "c", &CellValue::Real);
    results.observe("t", "d", &CellValue::Text("x9".to_string()));
    results.observe("t", "e", &CellValue::Blob(vec![1, 2, 3]));
    assert_eq!(results.total_chars, 5);
    assert_eq!(
        results.type_distribution,
        TypeDistribution { numeric: 3, alphabets: 1, special: 0, unknown: 1 }
    );
    assert_eq!(results.column_formats.len(), 1);
    assert_eq!(results.column_formats[0].column, "t.d");
}

#[test]
fn observe_row_takes_one_value_per_column() {
    let mut results = AnalysisResults::new();
    let columns = strings(&["id", "mail", "photo"]);
    let row = vec![
        CellValue::Integer(1),
        CellValue::Text("a@b.c".to_string()),
        CellValue::Blob(vec![0; 4]),
    ];
    results.observe_row("people", &columns, &row);
    assert_eq!(results.total_chars, 9);
    assert_eq!(
        results.type_distribution,
        TypeDistribution { numeric: 1, alphabets: 3, special: 2, unknown: 1 }
    );
    assert_eq!(
        results.column_formats,
        vec![ColumnFormats { column: "people.mail".to_string(), formats: strings(&["Email"]) }]
    );
}

#[test]
fn observe_row_reads_a_short_row_as_missing_values() {
    let mut results = AnalysisResults::new();
    let columns = strings(&["a", "b", "c"]);
    results.observe_row("t", &columns, &vec![CellValue::Integer(1)]);
    assert_eq!(results.type_distribution.numeric, 1);
    let mut longer = AnalysisResults::new();
    longer.observe_row(
        "t",
        &strings(&["a"]),
        &vec![CellValue::Integer(1), CellValue::Integer(2)],
    );
    assert_eq!(longer.type_distribution.numeric, 1);
}

#[test]
fn can_observe_row_tells_when_a_counter_is_full() {
    let columns = strings(&["a", "b"]);
    let row = vec![CellValue::Text("abc".to_string()), CellValue::Integer(1)];
    let mut results = AnalysisResults::new();
    assert!(results.can_observe_row("t", &columns, &row));
    results.total_chars = u64::MAX - 3;
    assert!(results.can_observe_row("t", &columns, &row));
    results.total_chars = u64::MAX - 2;
    assert!(!results.can_observe_row("t", &columns, &row));
    results.total_chars = 0;
    results.type_distribution.alphabets = u64::MAX - 2;
    assert!(!results.can_observe_row("t", &columns, &row));
    results.type_distribution.alphabets = 0;
    results.type_distribution.numeric = u64::MAX;
    assert!(!results.can_observe_row("t", &columns, &row));
    results.type_distribution.numeric = u64::MAX - 1;
    assert!(results.can_observe_row("t", &columns, &row));
    results.type_distribution.unknown = u64::MAX;
    assert!(results.can_observe_row("t", &columns, &row));
    assert!(!results.can_observe_row("t", &columns, &vec![CellValue::Blob(vec![])]));
}
