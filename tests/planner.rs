use insyte::model::{Cell, ColumnKind, Dataset, Field};
use insyte::planner::{QueryPlanner, Transformation};
use insyte::safety::{ReductionReason, ZoomContext};
use insyte::types::{AggregationType, ChartType, FilterOperator, FilterSpec, FilterValue, SortField, SortOrder, VisualizationSpec};
use insyte::executor::PlanExecutor;

fn create_test_df() -> Dataset {
    let cats = ["A", "B", "C", "A", "B", "C", "A", "B", "C", "A"];
    let vals = [10, 20, 30, 15, 25, 35, 12, 22, 32, 18];
    let mut ds = Dataset::new(vec![
        Field { name: "category".to_string(), kind: ColumnKind::Text },
        Field { name: "value".to_string(), kind: ColumnKind::Integer },
    ]);
    for i in 0..10 {
        ds.push_row(vec![Cell::Text(cats[i].to_string()), Cell::Int(vals[i])]);
    }
    ds
}

fn spec_for(chart: ChartType, sort_by: SortField) -> VisualizationSpec {
    VisualizationSpec {
        chart_type: chart,
        x_field: "category".to_string(),
        y_field: "value".to_string(),
        aggregation: AggregationType::Sum,
        x_date_binning: None,
        y_date_binning: None,
        group_by: None,
        sort_by,
        sort_order: SortOrder::Desc,
        title: "Test Chart".to_string(),
        filters: vec![],
        chart_config: None,
    }
}

fn create_test_spec() -> VisualizationSpec {
    spec_for(ChartType::Bar, SortField::Y)
}

#[test]
fn test_planner_creates_safe_plan() {
    let df = create_test_df();
    let spec = create_test_spec();
    let planner = QueryPlanner::new();

    let plan = planner.plan(&df, &spec).unwrap();

    assert!(plan.is_safe);
    assert!(!plan.transformations.is_empty());
}

#[test]
fn test_plan_includes_aggregation_for_bar_chart() {
    let df = create_test_df();
    let spec = create_test_spec();
    let planner = QueryPlanner::new();

    let plan = planner.plan(&df, &spec).unwrap();

    let has_aggregation = plan.transformations.iter().any(|t| matches!(t, Transformation::Aggregate { .. }));

    assert!(has_aggregation, "Bar chart plan must include aggregation");
}

#[test]
fn test_plan_includes_limit() {
    let df = create_test_df();
    let spec = create_test_spec();
    let planner = QueryPlanner::new();

    let plan = planner.plan(&df, &spec).unwrap();

    let has_limit = plan.transformations.iter().any(|t| matches!(t, Transformation::Limit(_)));

    assert!(has_limit, "Plan must include safety limit");
}

#[test]
fn bar_plan_steps_in_order() {
    let plan = QueryPlanner::new().plan(&create_test_df(), &create_test_spec()).unwrap();
    let steps = format!("{:?}", plan.transformations);
    assert_eq!(
        steps,
        "[Aggregate { group_by: \"category\", measure: \"value\", aggregation: Sum }, Sort { column: \"value\", descending: true }, Limit(500)]"
    );
    assert!(!plan.reduction_metadata.reduced);
    assert_eq!(plan.reduction_metadata.reduction_reason, ReductionReason::NoReduction);
    assert_eq!(plan.reduction_metadata.reduction_steps.len(), 1);
    assert_eq!(plan.reduction_metadata.returned_points, 3);
    assert!(plan.reduction_metadata.warning_message.is_none());
}

#[test]
fn planning_twice_gives_the_same_plan() {
    let df = create_test_df();
    let spec = create_test_spec();
    let a = QueryPlanner::new().plan(&df, &spec).unwrap();
    let b = QueryPlanner::new().plan(&df, &spec).unwrap();
    assert_eq!(format!("{:?}", a), format!("{:?}", b));
}

#[test]
fn missing_field_names_the_column_and_the_available_ones() {
    let mut spec = create_test_spec();
    spec.y_field = "revenue".to_string();
    match QueryPlanner::new().plan(&create_test_df(), &spec) {
        Err(insyte::error::DataError::ColumnNotFound { column, available }) => {
            assert_eq!(column, "revenue");
            assert_eq!(available, "category, value");
        }
        other => panic!("unexpected {:?}", other),
    }
}

fn big_scatter(n: i64) -> Dataset {
    let mut ds = Dataset::new(vec![
        Field { name: "x".to_string(), kind: ColumnKind::Integer },
        Field { name: "y".to_string(), kind: ColumnKind::Integer },
    ]);
    for i in 0..n {
        ds.push_row(vec![Cell::Int(i % 7), Cell::Int(i)]);
    }
    ds
}

fn scatter_spec() -> VisualizationSpec {
    let mut s = spec_for(ChartType::Scatter, SortField::Unsorted);
    s.x_field = "x".to_string();
    s.y_field = "y".to_string();
    s
}

#[test]
fn large_scatter_plan_caps_rows_then_samples_at_zoom_budget() {
    let ds = big_scatter(20_000);
    let plan = QueryPlanner::new().plan(&ds, &scatter_spec()).unwrap();
    let steps = format!("{:?}", plan.transformations);
    assert_eq!(
        steps,
        "[TopN { column: \"x\", n: 20, include_others: true }, Sample { target_rows: 2000, seed: 42 }, Limit(10000)]"
    );
    assert_eq!(plan.reduction_metadata.reduction_reason, ReductionReason::Combined);
    assert_eq!(plan.reduction_metadata.returned_points, 2000);
    assert_eq!(
        plan.reduction_metadata.warning_message.as_deref(),
        Some("Data was showing top 20 categories, sampled 10.0% (2,000 points)")
    );
    assert_eq!(plan.reduction_metadata.reduction_steps[0].description, "Top-20 with Others (safety limit)");
    let zoomed = QueryPlanner::with_zoom(ZoomContext { zoom_permille: 1000, ..ZoomContext::default_view() })
        .plan(&ds, &scatter_spec())
        .unwrap();
    assert!(format!("{:?}", zoomed.transformations).contains("Sample { target_rows: 10000, seed: 42 }"));
    // Top-N ranks the summary column, which raw rows lack.
    assert!(matches!(
        PlanExecutor::execute(&zoomed, &ds),
        Err(insyte::error::DataError::ColumnNotFound { .. })
    ));
}

#[test]
fn small_scatter_keeps_every_row() {
    let ds = big_scatter(300);
    let plan = QueryPlanner::new().plan(&ds, &scatter_spec()).unwrap();
    assert!(!plan.reduction_metadata.reduced);
    assert_eq!(plan.reduction_metadata.reduction_reason, ReductionReason::NoReduction);
    assert!(plan.reduction_metadata.warning_message.is_none());
    let (out, meta) = PlanExecutor::execute(&plan, &ds).unwrap();
    assert_eq!(out.rows.len(), 300);
    assert_eq!(meta.returned_points, 300);
}

#[test]
fn filters_come_first_and_top_n_follows_aggregation() {
    let mut ds = Dataset::new(vec![
        Field { name: "k".to_string(), kind: ColumnKind::Text },
        Field { name: "v".to_string(), kind: ColumnKind::Integer },
    ]);
    for i in 0..600 {
        ds.push_row(vec![Cell::Text(format!("k{}", i)), Cell::Int(i)]);
    }
    let mut spec = spec_for(ChartType::Bar, SortField::Unsorted);
    spec.x_field = "k".to_string();
    spec.y_field = "v".to_string();
    spec.filters = vec![FilterSpec { column: "v".to_string(), operator: FilterOperator::Gte, value: FilterValue::Int(0) }];
    let plan = QueryPlanner::new().plan(&ds, &spec).unwrap();
    let steps = format!("{:?}", plan.transformations);
    assert!(steps.starts_with("[Filter("));
    assert!(steps.ends_with("Aggregate { group_by: \"k\", measure: \"v\", aggregation: Sum }, TopN { column: \"k\", n: 20, include_others: true }, Limit(500)]"));
    assert_eq!(plan.reduction_metadata.reduction_reason, ReductionReason::Combined);
    assert_eq!(plan.reduction_metadata.top_n_value, Some(20));
    assert_eq!(
        plan.reduction_metadata.warning_message.as_deref(),
        Some("Data was aggregated from 600 to 600 groups, showing top 20 categories")
    );
    let (out, meta) = PlanExecutor::execute(&plan, &ds).unwrap();
    assert_eq!(out.rows.len(), 21);
    assert_eq!(meta.returned_points, 21);
    assert!(matches!(&out.rows[0][0], Cell::Text(t) if t == "k599"));
    let others: i64 = (0..580).sum();
    assert!(matches!(&out.rows[20][1], Cell::Int(v) if *v == others));
}

#[test]
fn unsafe_plan_is_refused() {
    let plan = insyte::planner::ExecutionPlan::blocked("too many rows".to_string(), 10);
    match PlanExecutor::execute(&plan, &create_test_df()) {
        Err(insyte::error::DataError::SafetyBlock { reason, .. }) => assert_eq!(reason, "too many rows"),
        other => panic!("unexpected {:?}", other),
    }
}
