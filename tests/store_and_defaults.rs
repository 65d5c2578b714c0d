use insyte::model::{Cell, ColumnKind, Dataset, Field};
use insyte::planner::QueryPlanner;
use insyte::safety::{InferredAggregation, InferredAggregationType, ReductionMetadata};
use insyte::state::DataState;
use insyte::types::{AppSettings, DateBinGranularity};

fn one_row(v: i64) -> Dataset {
    let mut ds = Dataset::new(vec![Field { name: "v".to_string(), kind: ColumnKind::Integer }]);
    ds.push_row(vec![Cell::Int(v)]);
    ds
}

#[test]
fn store_keeps_load_order_and_active_table() {
    let mut st = DataState::new();
    assert!(!st.has_data());
    st.add_dataframe("sales".to_string(), one_row(1));
    st.add_dataframe("costs".to_string(), one_row(2));
    st.add_dataframe("sales".to_string(), one_row(3));
    assert_eq!(st.get_tables(), vec!["sales".to_string(), "costs".to_string()]);
    assert!(st.get_active_dataframe().is_none());
    assert_eq!(st.set_active_table("nope".to_string()), Err("Table 'nope' not found".to_string()));
    assert!(st.set_active_table("sales".to_string()).is_ok());
    let active = st.get_active_dataframe().unwrap();
    assert!(matches!(active.rows[0][0], Cell::Int(3)));
    assert!(st.get_dataframe(&"costs".to_string()).is_some());
    st.set_file_path("/data/sales.csv".to_string());
    assert_eq!(st.get_file_path().map(|s| s.as_str()), Some("/data/sales.csv"));
    st.clear();
    assert!(!st.has_data());
    assert!(st.get_file_path().is_none());
    assert!(DataState::default().get_tables().is_empty());
}

#[test]
fn inferred_aggregations_describe_themselves() {
    let n = InferredAggregation::infer_for_numeric("revenue");
    assert_eq!(n.aggregation_type, InferredAggregationType::Sum);
    assert_eq!(n.description, "Sum of revenue");
    let d = InferredAggregation::infer_for_date("day", DateBinGranularity::Month);
    assert_eq!(d.description, "Count by Month");
    assert_eq!(d.group_by_field.as_deref(), Some("day"));
    let c = InferredAggregation::infer_for_categorical("city", 20);
    assert_eq!(c.description, "Top 20 city by count");
}

#[test]
fn defaults() {
    let s = AppSettings::default();
    assert_eq!(s.groq_model, "meta-llama/llama-4-maverick-17b-128e-instruct");
    assert_eq!(s.theme, "light");
    assert!(s.auto_save);
    assert_eq!(s.max_preview_rows, 100);
    let m = ReductionMetadata::default();
    assert!(!m.reduced);
    assert_eq!(m.returned_points, 0);
    let _planner = QueryPlanner::default();
    assert!(one_row(0).is_well_formed());
}

#[test]
fn ill_formed_rows_are_refused() {
    let mut ds = Dataset::new(vec![Field { name: "a".to_string(), kind: ColumnKind::Integer }]);
    assert!(!ds.push_row(vec![Cell::Int(1), Cell::Int(2)]));
    assert_eq!(ds.height(), 0);
    ds.rows.push(vec![]);
    assert!(!ds.is_well_formed());
}

#[test]
fn add_step_marks_combined_and_dtype_predicates() {
    use_step();
}

fn use_step() {
    let mut m = ReductionMetadata::no_reduction(10);
    m.add_step(insyte::safety::ReductionStep {
        step_type: insyte::safety::ReductionReason::DateBinning,
        input_rows: 10,
        output_rows: 10,
        description: "Date binned to Month".to_string(),
    });
    assert_eq!(m.reduction_reason, insyte::safety::ReductionReason::NoReduction);
    m.add_step(insyte::safety::ReductionStep {
        step_type: insyte::safety::ReductionReason::TopN,
        input_rows: 10,
        output_rows: 3,
        description: "Top-2 with Others".to_string(),
    });
    assert_eq!(m.reduction_reason, insyte::safety::ReductionReason::Combined);
    assert!(insyte::safety::is_numeric_dtype(ColumnKind::Integer));
    assert!(!insyte::safety::is_numeric_dtype(ColumnKind::Text));
    assert!(insyte::safety::is_datetime_dtype(ColumnKind::Datetime));
    assert!(!insyte::safety::is_datetime_dtype(ColumnKind::Boolean));
}
