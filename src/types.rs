//! The declarative visualization request and the descriptive records around it.

use vstd::prelude::*;
use vstd::string::*;

verus! {

/// Chart families a request can ask for.
#[derive(Clone, Copy, PartialEq, Eq, Structural, Debug)]
pub enum ChartType {
    Bar,
    Line,
    Area,
    Pie,
    Scatter,
}

/// How the measure column is summarised per group.
#[derive(Clone, Copy, PartialEq, Eq, Structural, Debug)]
pub enum AggregationType {
    Sum,
    Avg,
    Count,
    Min,
    Max,
    Median,
}

/// What the result is sorted by.
#[derive(Clone, Copy, PartialEq, Eq, Structural, Debug)]
pub enum SortField {
    X,
    Y,
    /// No sorting requested.
    Unsorted,
}

#[derive(Clone, Copy, PartialEq, Eq, Structural, Debug)]
pub enum SortOrder {
    Asc,
    Desc,
    /// No order requested.
    Unordered,
}

/// Comparison of a filter.
#[derive(Clone, Copy, PartialEq, Eq, Structural, Debug)]
pub enum FilterOperator {
    Eq,
    Neq,
    Gt,
    Lt,
    Gte,
    Lte,
    Contains,
    StartsWith,
    EndsWith,
    IsNull,
    IsNotNull,
}

/// The typed literal a filter compares with.
#[derive(Debug)]
pub enum FilterValue {
    Null,
    Int(i64),
    Bool(bool),
    Text(String),
}

/// One filter predicate: `column operator value`.
#[derive(Debug)]
pub struct FilterSpec {
    pub column: String,
    pub operator: FilterOperator,
    pub value: FilterValue,
}

/// Date-binning granularities.
#[derive(Clone, Copy, PartialEq, Eq, Structural, Debug)]
pub enum DateBinGranularity {
    Year,
    Quarter,
    Month,
    Week,
    Day,
    Hour,
}

/// A declarative chart request.
#[derive(Debug)]
pub struct VisualizationSpec {
    pub chart_type: ChartType,
    pub x_field: String,
    pub y_field: String,
    pub aggregation: AggregationType,
    pub x_date_binning: Option<DateBinGranularity>,
    pub y_date_binning: Option<DateBinGranularity>,
    pub group_by: Option<String>,
    pub sort_by: SortField,
    pub sort_order: SortOrder,
    pub title: String,
    pub filters: Vec<FilterSpec>,
    /// Chart-rendering options, as JSON text, carried through untouched.
    pub chart_config: Option<String>,
}

/// A labelled figure in an answer to a data question.
#[derive(Debug)]
pub struct DataInsight {
    pub label: String,
    pub value: String,
}

/// What the language model answered to a chat request.
#[derive(Debug)]
pub enum AIChatResponse {
    /// A chart, with a short explanation.
    Visualization { spec: VisualizationSpec, explanation: String },
    /// A direct answer, with optional supporting figures.
    Answer { content: String, insights: Option<Vec<DataInsight>> },
    Error { message: String },
}

/// A chat reply as the model wrote it, before it is checked.
#[derive(Debug)]
pub struct RawChatResponse {
    pub intent: String,
    pub spec: Option<VisualizationSpec>,
    pub explanation: Option<String>,
    pub answer: Option<String>,
    pub insights: Option<Vec<DataInsight>>,
}

/// A column as described to the language model.
#[derive(Debug)]
pub struct ColumnInfo {
    pub name: String,
    pub dtype: String,
    pub nullable: bool,
}

/// A loaded file and its columns.
#[derive(Debug)]
pub struct DatasetInfo {
    pub file_name: String,
    pub file_path: String,
    pub file_size: u64,
    pub row_count: usize,
    pub columns: Vec<ColumnInfo>,
}

/// Where a project's data lives.
#[derive(Clone, Copy, PartialEq, Eq, Structural, Debug)]
pub enum DataSourceType {
    Path,
    Embedded,
}

#[derive(Debug)]
pub struct ColumnSchema {
    pub name: String,
    pub dtype: String,
    pub nullable: bool,
}

#[derive(Debug)]
pub struct DatasetSchema {
    pub columns: Vec<ColumnSchema>,
    pub row_count: usize,
}

/// The data section of a saved project.
#[derive(Debug)]
pub struct ProjectData {
    pub source_type: DataSourceType,
    pub source_path: Option<String>,
    pub schema: DatasetSchema,
}

/// User preferences.
#[derive(Debug)]
pub struct AppSettings {
    pub groq_api_key: Option<String>,
    pub groq_model: String,
    pub auto_save: bool,
    pub theme: String,
    pub max_preview_rows: usize,
}

impl Default for AppSettings {
    /// The preferences of a fresh installation.
    fn default() -> (r: AppSettings)
        ensures
            r.groq_api_key is None,
            r.groq_model@ == "meta-llama/llama-4-maverick-17b-128e-instruct"@,
            r.auto_save,
            r.theme@ == "light"@,
            r.max_preview_rows == 100,
    {
        AppSettings {
            groq_api_key: None,
            groq_model: String::from_str("meta-llama/llama-4-maverick-17b-128e-instruct"),
            auto_save: true,
            theme: String::from_str("light"),
            max_preview_rows: 100,
        }
    }
}

} // verus!
