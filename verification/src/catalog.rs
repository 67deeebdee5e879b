//! What is known of a database before its content is analysed: its entry in
//! the list of databases, its tables with their row counts, and its size.

use vstd::prelude::*;
use vstd::string::StringExecFns;
use crate::text::{contains_text, texts};

verus! {

/// The entry of a database in the list of databases.
#[derive(Clone, Debug, PartialEq, Eq)]
pub struct DatabaseMetadata {
    pub id: i32,
    pub name: String,
    pub path: String,
    pub created_at: String,
    pub last_accessed: String,
    /// The statistics of the last run that completed, in serialised form.
    pub analysis_results: Option<String>,
}

/// A table and the number of its rows.
#[derive(Clone, Debug, PartialEq, Eq)]
pub struct TableInfo {
    pub name: String,
    pub row_count: i64,
}

/// The size of a database.
#[derive(Clone, Copy, Debug, PartialEq, Eq, Structural)]
pub struct DbStats {
    pub total_tables: usize,
    pub total_records: i64,
    pub file_size_kb: u64,
}

/// The row count of a table whose rows were counted as `counted`; a count
/// that could not be had stands for no rows.
pub open spec fn count_or_zero(counted: Option<i64>) -> i64 {
    match counted {
        Some(rows) => rows,
        None => 0,
    }
}

/// The sum of the row counts of the first `n` tables.
pub open spec fn records_in(tables: Seq<TableInfo>, n: nat) -> int
    decreases n,
{
    if n == 0 {
        0
    } else {
        records_in(tables, (n - 1) as nat) + tables[n - 1].row_count
    }
}

impl TableInfo {
    /// The entry of the table `name`, whose rows were counted as `counted`.
    pub fn counted(name: String, counted: Option<i64>) -> (table: TableInfo)
        ensures
            table.name == name,
            table.row_count == count_or_zero(counted),
    {
        let row_count = match counted {
            Some(rows) => rows,
            None => 0,
        };
        TableInfo { name, row_count }
    }
}

impl DbStats {
    /// The size of a database with the tables `tables` in a file of
    /// `file_size_bytes` bytes: the number of tables, the sum of their row
    /// counts and the size of the file in whole kilobytes. There is none
    /// where that sum is not a signed number of 64 bits.
    pub fn summarize(tables: &Vec<TableInfo>, file_size_bytes: u64) -> (stats: Option<DbStats>)
        ensures
            match stats {
                Some(stats) => {
                    &&& stats.total_tables == tables@.len()
                    &&& stats.total_records == records_in(tables@, tables@.len())
                    &&& stats.file_size_kb == file_size_bytes / 1024
                },
                None => !(i64::MIN <= records_in(tables@, tables@.len()) <= i64::MAX),
            },
    {
        let mut sum: i128 = 0;
        let mut i: usize = 0;
        while i < tables.len()
            invariant
                i <= tables@.len(),
                sum == records_in(tables@, i as nat),
                -(i * 0x8000_0000_0000_0000) <= sum <= i * 0x8000_0000_0000_0000,
            decreases tables@.len() - i,
        {
            sum = sum + tables[i].row_count as i128;
            i = i + 1;
        }
        if sum < i64::MIN as i128 || sum > i64::MAX as i128 {
            None
        } else {
            Some(
                DbStats {
                    total_tables: tables.len(),
                    total_records: sum as i64,
                    file_size_kb: file_size_bytes / 1024,
                },
            )
        }
    }
}

/// Whether the list of databases, whose table has the columns `columns`,
/// still lacks the column that holds the stored statistics and is to get it.
pub fn lacks_results_column(columns: &Vec<String>) -> (lacking: bool)
    ensures
        lacking == !texts(columns@).contains("analysis_results"@),
{
    let wanted = String::from_str("analysis_results");
    !contains_text(columns, &wanted)
}

} // verus!
