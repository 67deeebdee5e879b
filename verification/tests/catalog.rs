use db_visualizer::browse::{
    blob_label, columns_query, count_query, decimal, filtered_count_query, page_offset,
    page_query, quote, rows_query, search_clause, signed_decimal, total_pages,
};
use db_visualizer::catalog::{lacks_results_column, DatabaseMetadata, DbStats, TableInfo};
use db_visualizer::version::versionno;

fn table(name: &str, row_count: i64) -> TableInfo {
    TableInfo { name: name.to_string(), row_count }
}

fn strings(items: &[&str]) -> Vec<String> {
    items.iter().map(|s| s.to_string()).collect()
}

#[test]
fn a_table_that_could_not_be_counted_has_no_rows() {
    assert_eq!(TableInfo::counted("a".to_string(), Some(12)), table("a", 12));
    assert_eq!(TableInfo::counted("a".to_string(), None), table("a", 0));
}

#[test]
fn stats_sum_the_rows_and_give_the_size_in_kilobytes() {
    let tables = vec![table("a", 3), table("b", 0), table("c", 40)];
    assert_eq!(
        DbStats::summarize(&tables, 10_000),
        Some(DbStats { total_tables: 3, total_records: 43, file_size_kb: 9 })
    );
    assert_eq!(
        DbStats::summarize(&Vec::new(), 1023),
        Some(DbStats { total_tables: 0, total_records: 0, file_size_kb: 0 })
    );
    assert_eq!(DbStats::summarize(&Vec::new(), 1024).unwrap().file_size_kb, 1);
}

#[test]
fn stats_are_none_when_the_rows_are_beyond_64_bits() {
    let tables = vec![table("a", i64::MAX), table("b", 1)];
    assert_eq!(DbStats::summarize(&tables, 0), None);
    let tables = vec![table("a", i64::MAX), table("b", 1), table("c", -1)];
    assert_eq!(DbStats::summarize(&tables, 0).unwrap().total_records, i64::MAX);
    let tables = vec![table("a", i64::MIN), table("b", -1)];
    assert_eq!(DbStats::summarize(&tables, 0), None);
}

#[test]
fn metadata_holds_what_is_stored_of_a_database() {
    let entry = DatabaseMetadata {
        id: 1,
        name: "Sales".to_string(),
        path: "/data/sales.db".to_string(),
        created_at: "2024-01-01 00:00:00".to_string(),
        last_accessed: "2024-01-02 00:00:00".to_string(),
        analysis_results: None,
    };
    assert_eq!(entry.clone(), entry);
    assert_eq!(entry.analysis_results, None);
}

#[test]
fn the_results_column_is_added_where_it_is_missing() {
    assert!(lacks_results_column(&strings(&["id", "name", "path"])));
    assert!(!lacks_results_column(&strings(&["id", "analysis_results"])));
    assert!(lacks_results_column(&strings(&["analysis_result"])));
    assert!(lacks_results_column(&strings(&[])));
}

#[test]
fn pages_are_rounded_up() {
    assert_eq!(total_pages(0, 10), 0);
    assert_eq!(total_pages(1, 10), 1);
    assert_eq!(total_pages(10, 10), 1);
    assert_eq!(total_pages(11, 10), 2);
    assert_eq!(total_pages(95, 10), 10);
    assert_eq!(total_pages(5, 1), 5);
}

#[test]
fn there_are_no_pages_without_a_page_size() {
    assert_eq!(total_pages(100, 0), 0);
    assert_eq!(total_pages(100, -3), 0);
}

#[test]
fn pages_at_the_limits() {
    assert_eq!(total_pages(i64::MAX, i64::MAX), 1);
    assert_eq!(total_pages(i64::MAX, 1), i64::MAX);
    assert_eq!(total_pages(i64::MAX, 2), i64::MAX / 2 + 1);
    assert_eq!(total_pages(-25, 10), -1);
    assert_eq!(total_pages(-5, 10), 0);
    assert_eq!(total_pages(i64::MIN, 1), i64::MIN);
}

#[test]
fn a_page_begins_after_the_pages_before_it() {
    assert_eq!(page_offset(1, 50), Some(0));
    assert_eq!(page_offset(3, 50), Some(100));
    assert_eq!(page_offset(0, 50), Some(-50));
    assert_eq!(page_offset(i64::MAX, 2), None);
    assert_eq!(page_offset(i64::MIN, 1), None);
    assert_eq!(page_offset(i64::MIN + 1, 1), Some(i64::MIN));
}

#[test]
fn quote_doubles_single_quotes() {
    assert_eq!(quote("O'Brien"), "O''Brien");
    assert_eq!(quote("''"), "''''");
    assert_eq!(quote("plain \"text\""), "plain \"text\"");
    assert_eq!(quote(""), "");
}

#[test]
fn no_search_gives_no_clause() {
    let columns = strings(&["id", "name"]);
    assert_eq!(search_clause(&columns, None), "");
    assert_eq!(search_clause(&columns, Some("")), "");
}

#[test]
fn a_search_looks_in_every_column() {
    assert_eq!(
        search_clause(&strings(&["id", "name"]), Some("ann")),
        " WHERE \"id\" LIKE '%ann%' OR \"name\" LIKE '%ann%'"
    );
    assert_eq!(search_clause(&strings(&["name"]), Some("O'B")), " WHERE \"name\" LIKE '%O''B%'");
    assert_eq!(search_clause(&strings(&[]), Some("x")), " WHERE ");
}

#[test]
fn the_version_is_given_with_or_without_prefix() {
    assert_eq!(versionno(None), "1.0.1");
    assert_eq!(versionno(Some(false)), "1.0.1");
    assert_eq!(versionno(Some(true)), "v1.0.1");
}

#[test]
fn numbers_are_written_in_decimal_digits() {
    assert_eq!(decimal(0), "0");
    assert_eq!(decimal(7), "7");
    assert_eq!(decimal(10), "10");
    assert_eq!(decimal(1234567890), "1234567890");
    assert_eq!(decimal(u64::MAX), "18446744073709551615");
    assert_eq!(signed_decimal(0), "0");
    assert_eq!(signed_decimal(-1), "-1");
    assert_eq!(signed_decimal(42), "42");
    assert_eq!(signed_decimal(i64::MAX), "9223372036854775807");
    assert_eq!(signed_decimal(i64::MIN), "-9223372036854775808");
}

#[test]
fn a_binary_value_is_shown_by_its_length() {
    assert_eq!(blob_label(0), "<0 bytes>");
    assert_eq!(blob_label(2048), "<2048 bytes>");
}

#[test]
fn queries_name_the_table_in_double_quotes() {
    assert_eq!(columns_query("people"), "PRAGMA table_info(\"people\")");
    assert_eq!(rows_query("people"), "SELECT * FROM \"people\"");
    assert_eq!(count_query("people"), "SELECT COUNT(*) FROM \"people\"");
    assert_eq!(filtered_count_query("people", ""), "SELECT COUNT(*) FROM \"people\" ");
    assert_eq!(
        filtered_count_query("people", " WHERE \"name\" LIKE '%ann%'"),
        "SELECT COUNT(*) FROM \"people\"  WHERE \"name\" LIKE '%ann%'"
    );
}

#[test]
fn a_page_query_limits_and_skips() {
    assert_eq!(
        page_query("people", "", 50, 100),
        "SELECT * FROM \"people\"  LIMIT 50 OFFSET 100"
    );
    assert_eq!(
        page_query("people", " WHERE \"name\" LIKE '%ann%'", 10, -10),
        "SELECT * FROM \"people\"  WHERE \"name\" LIKE '%ann%' LIMIT 10 OFFSET -10"
    );
}
