//! Content analysis for relational database files.
//!
//! The crate holds the decisions of an analysis run: how observed values
//! change the statistics, which formats a text value suggests, when and what
//! progress is reported, which run owns a database identifier, and whether a
//! finished run's statistics are stored. Reading the database, signalling
//! across threads and delivering events are left to the caller, which feeds
//! plain values in and carries the answers out.

pub mod assoc;
pub mod browse;
pub mod catalog;
pub mod formats;
pub mod orchestrator;
pub mod progress;
pub mod registry;
pub mod runs;
pub mod scan;
pub mod stats;
pub mod text;
pub mod value;
pub mod version;

pub use catalog::{DatabaseMetadata, DbStats, TableInfo};
pub use orchestrator::AppState;
pub use progress::AnalysisProgress;
pub use stats::{AnalysisResults, TypeDistribution};
pub use version::versionno;
