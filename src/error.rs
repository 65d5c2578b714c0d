//! Error types of the library.

use vstd::prelude::*;

verus! {

/// Failures of dataset loading, planning and query execution.
#[derive(Debug)]
pub enum DataError {
    FileNotFound(String),
    UnsupportedFormat(String),
    ReadError(String),
    ParseError(String),
    NoData,
    InvalidSheet(String),
    /// A plan was refused for safety.
    SafetyBlock { reason: String, original_rows: usize, max_allowed: usize },
    /// A dimension has more distinct values than allowed.
    CardinalityExceeded { column: String, unique_count: usize, threshold: usize },
    /// The estimated memory use is over budget.
    MemoryBudgetExceeded { estimated_mb: usize, budget_mb: usize },
    /// A query would produce more points than allowed.
    TooManyPoints { estimated_points: usize, max_points: usize },
    /// A named column is not in the dataset; `available` lists the columns.
    ColumnNotFound { column: String, available: String },
    /// A column holds values of another type than the operation needs.
    TypeMismatch { column: String, actual_type: String, expected_type: String },
    QueryCancelled { reason: String },
    WriteError(String),
    Cancelled,
}

/// Failures of the language-model collaborator.
#[derive(Debug)]
pub enum AIError {
    RequestFailed(String),
    InvalidApiKey,
    ApiKeyNotSet,
    ParseError(String),
    RateLimitExceeded,
    ModelNotAvailable(String),
}

/// Failures of project files.
#[derive(Debug)]
pub enum ProjectError {
    FileNotFound(String),
    InvalidFormat(String),
    VersionMismatch { file_version: String, app_version: String },
    ReadError(String),
    WriteError(String),
    NoData,
    Cancelled,
}

} // verus!
