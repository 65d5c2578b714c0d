use insyte::aggregate::{apply_aggregation, max_i64, min_i64, Group};
use insyte::error::DataError;
use insyte::executor::{aggregate_table, apply_filters, sort_table};
use insyte::model::{Cell, ColumnKind, Dataset, Field};
use insyte::query::{
    estimate_cardinality, execute_progressive_query, execute_scatter_query, execute_table_query,
    execute_visualization_query, get_max_points_for_chart,
};
use insyte::text::format_number;
use insyte::topn::apply_top_n_with_others;
use insyte::types::{AggregationType, ChartType, FilterOperator, FilterSpec, FilterValue, SortField, SortOrder, VisualizationSpec};

fn create_test_df() -> Dataset {
    let cats = ["A", "B", "C", "A", "B", "C", "A", "B", "C", "A"];
    let vals = [10i64, 20, 30, 15, 25, 35, 12, 22, 32, 18];
    let mut ds = Dataset::new(vec![
        Field { name: "category".to_string(), kind: ColumnKind::Text },
        Field { name: "value".to_string(), kind: ColumnKind::Integer },
    ]);
    for i in 0..10 {
        ds.push_row(vec![Cell::Text(cats[i].to_string()), Cell::Int(vals[i])]);
    }
    ds
}

fn create_test_dataframe() -> Dataset {
    let cats = ["A", "B", "A", "C", "B", "A"];
    let vals = [10i64, 20, 15, 30, 25, 12];
    let dates = ["2024-01-01", "2024-01-02", "2024-01-03", "2024-01-04", "2024-01-05", "2024-01-06"];
    let mut ds = Dataset::new(vec![
        Field { name: "category".to_string(), kind: ColumnKind::Text },
        Field { name: "value".to_string(), kind: ColumnKind::Integer },
        Field { name: "date".to_string(), kind: ColumnKind::Text },
    ]);
    for i in 0..6 {
        ds.push_row(vec![Cell::Text(cats[i].to_string()), Cell::Int(vals[i]), Cell::Text(dates[i].to_string())]);
    }
    ds
}

fn s(x: &str) -> String {
    x.to_string()
}

fn bar_spec() -> VisualizationSpec {
    VisualizationSpec {
        chart_type: ChartType::Bar,
        x_field: s("category"),
        y_field: s("value"),
        aggregation: AggregationType::Sum,
        x_date_binning: None,
        y_date_binning: None,
        group_by: None,
        sort_by: SortField::Unsorted,
        sort_order: SortOrder::Unordered,
        title: s("Sales"),
        filters: vec![],
        chart_config: None,
    }
}

fn group_pairs(g: &[Group]) -> Vec<(String, Option<i64>)> {
    g.iter()
        .map(|x| match &x.label {
            Cell::Text(t) => (t.clone(), x.value),
            other => (format!("{:?}", other), x.value),
        })
        .collect()
}

#[test]
fn test_apply_aggregation() {
    let df = create_test_df();
    let result = aggregate_table(&df, &s("category"), &s("value"), AggregationType::Sum).unwrap();

    assert_eq!(result.height(), 3);
    assert!(result.column_index(&s("category")).is_some());
    assert!(result.column_index(&s("value")).is_some());
}

#[test]
fn test_top_n_with_others() {
    let df = create_test_df();
    let aggregated = apply_aggregation(&df, &s("category"), &s("value"), AggregationType::Sum).unwrap();

    let (result, has_others) = apply_top_n_with_others(&aggregated, 2, true).unwrap();

    assert_eq!(result.len(), 3);
    assert!(has_others);
}

#[test]
fn query_test_format_number() {
    assert_eq!(format_number(1000), "1,000");
    assert_eq!(format_number(1000000), "1,000,000");
    assert_eq!(format_number(123), "123");
}

#[test]
fn test_estimate_cardinality_small_dataset() {
    let df = create_test_df();
    let series: Vec<Cell> = df.rows.iter().map(|r| r[0].duplicate()).collect();
    let cardinality = estimate_cardinality(&series, 10);
    assert_eq!(cardinality, 3);
}

#[test]
fn test_get_max_points_for_chart() {
    assert_eq!(get_max_points_for_chart("bar"), 500);
    assert_eq!(get_max_points_for_chart("pie"), 20);
    assert_eq!(get_max_points_for_chart("scatter"), 10_000);
}

#[test]
fn test_sum_aggregation() {
    let df = create_test_dataframe();
    let result = apply_aggregation(&df, &s("category"), &s("value"), AggregationType::Sum).unwrap();

    assert_eq!(result.len(), 3);

    let sum: i64 = result.iter().map(|g| g.value.unwrap()).sum();
    assert_eq!(sum, 112);
}

#[test]
fn test_mean_aggregation() {
    let df = create_test_dataframe();
    let result = apply_aggregation(&df, &s("category"), &s("value"), AggregationType::Avg).unwrap();

    assert_eq!(result.len(), 3);
}

#[test]
fn test_count_aggregation() {
    let df = create_test_dataframe();
    let result = aggregate_table(&df, &s("category"), &s("value"), AggregationType::Count).unwrap();
    let only_a = vec![FilterSpec { column: s("category"), operator: FilterOperator::Eq, value: FilterValue::Text(s("A")) }];
    let filtered = apply_filters(&result, &only_a).unwrap();
    let category_a_count = &filtered.rows[0][1];

    assert!(matches!(category_a_count, Cell::Int(3)));
}

#[test]
fn test_filter_operations() {
    let df = create_test_dataframe();
    let f = vec![FilterSpec { column: s("value"), operator: FilterOperator::Gt, value: FilterValue::Int(15) }];
    let result = apply_filters(&df, &f).unwrap();

    assert_eq!(result.height(), 3);
}

#[test]
fn test_sort_operations() {
    let df = create_test_dataframe();
    let result = sort_table(&df, &s("value"), true).unwrap();

    let first_value = &result.rows[0][1];

    assert!(matches!(first_value, Cell::Int(30)));
}

#[test]
fn test_multiple_filters() {
    let df = create_test_dataframe();
    let f = vec![
        FilterSpec { column: s("value"), operator: FilterOperator::Gt, value: FilterValue::Int(10) },
        FilterSpec { column: s("category"), operator: FilterOperator::Eq, value: FilterValue::Text(s("A")) },
    ];
    let result = apply_filters(&df, &f).unwrap();

    assert_eq!(result.height(), 2);
}

#[test]
fn test_min_max_aggregation() {
    let df = create_test_dataframe();
    let values: Vec<i64> = df.rows.iter().map(|r| match &r[1] { Cell::Int(v) => *v, _ => 0 }).collect();
    let min_val = min_i64(&values);
    let max_val = max_i64(&values);

    assert_eq!(min_val, 10);
    assert_eq!(max_val, 30);
}

#[test]
fn bar_chart_of_ten_rows_gives_three_sums() {
    let cd = execute_visualization_query(&create_test_df(), &bar_spec()).unwrap();
    assert_eq!(cd.labels, vec![s("A"), s("B"), s("C")]);
    // C sums 30 + 35 + 32.
    assert_eq!(cd.datasets[0].data, vec![Some(55), Some(67), Some(97)]);
    assert_eq!(cd.datasets[0].label, "Sum of value");
    assert_eq!(cd.metadata.returned_points, 3);
    assert_eq!(cd.metadata.top_n_value, None);
    assert_eq!(cd.metadata.total_records, 10);
    // Three groups fit the 500-point cap: no reduction is reported.
    assert!(!cd.metadata.reduced);
    assert_eq!(cd.metadata.reduction_reason, "none");
    assert!(cd.metadata.warning_message.is_none());
}

#[test]
fn top_n_table_ranks_even_small_group_counts() {
    let mut ds = Dataset::new(vec![Field { name: s("k"), kind: ColumnKind::Text }, Field { name: s("value"), kind: ColumnKind::Integer }]);
    ds.push_row(vec![Cell::Text(s("p")), Cell::Int(1)]);
    ds.push_row(vec![Cell::Text(s("q")), Cell::Int(2)]);
    let out = insyte::executor::top_n_table(&ds, &s("k"), 5, true).unwrap();
    assert!(matches!(&out.rows[0][0], Cell::Text(t) if t == "q"));
    assert!(matches!(&out.rows[1][0], Cell::Text(t) if t == "p"));
    assert_eq!(out.rows.len(), 2);
}

#[test]
fn planner_rejects_unfit_filter_literals() {
    let mut spec = bar_spec();
    spec.filters = vec![FilterSpec { column: s("value"), operator: FilterOperator::Eq, value: FilterValue::Null }];
    assert!(matches!(insyte::planner::QueryPlanner::new().plan(&create_test_df(), &spec), Err(DataError::ParseError(_))));
    spec.filters = vec![FilterSpec { column: s("nope"), operator: FilterOperator::IsNull, value: FilterValue::Null }];
    assert!(matches!(execute_visualization_query(&create_test_df(), &spec), Err(DataError::ColumnNotFound { .. })));
}

#[test]
fn progressive_budget_follows_zoom() {
    let mut ds = Dataset::new(vec![Field { name: s("k"), kind: ColumnKind::Integer }, Field { name: s("v"), kind: ColumnKind::Integer }]);
    for i in 0..400i64 {
        ds.push_row(vec![Cell::Int(i), Cell::Int(1)]);
    }
    let mut spec = bar_spec();
    spec.x_field = s("k");
    spec.y_field = s("v");
    let wide = execute_progressive_query(&ds, &spec, 0, None, None).unwrap();
    assert_eq!(wide.metadata.returned_points, 100);
    let full = execute_progressive_query(&ds, &spec, 1000, None, None).unwrap();
    assert_eq!(full.metadata.returned_points, 400);
}

#[test]
fn top_two_with_others_on_three_groups() {
    let groups = apply_aggregation(&create_test_df(), &s("category"), &s("value"), AggregationType::Sum).unwrap();
    let (top, has_others) = apply_top_n_with_others(&groups, 2, true).unwrap();
    assert!(has_others);
    assert_eq!(group_pairs(&top), vec![(s("C"), Some(97)), (s("B"), Some(67)), (s("Others"), Some(55))]);
    let total: i64 = groups.iter().map(|g| g.value.unwrap()).sum();
    let kept: i64 = top.iter().map(|g| g.value.unwrap()).sum();
    assert_eq!(total, kept);
    let (plain, flag) = apply_top_n_with_others(&groups, 2, false).unwrap();
    assert!(!flag);
    assert_eq!(group_pairs(&plain), vec![(s("C"), Some(97)), (s("B"), Some(67))]);
    let (same, flag) = apply_top_n_with_others(&groups, 3, true).unwrap();
    assert!(!flag);
    assert_eq!(group_pairs(&same), vec![(s("A"), Some(55)), (s("B"), Some(67)), (s("C"), Some(97))]);
}

#[test]
fn top_n_ties_keep_input_order_and_nulls_rank_last() {
    let g = vec![
        Group { label: Cell::Text(s("p")), value: None },
        Group { label: Cell::Text(s("q")), value: Some(5) },
        Group { label: Cell::Text(s("r")), value: Some(5) },
        Group { label: Cell::Text(s("t")), value: Some(9) },
    ];
    let (top, _) = apply_top_n_with_others(&g, 3, true).unwrap();
    assert_eq!(group_pairs(&top), vec![(s("t"), Some(9)), (s("q"), Some(5)), (s("r"), Some(5)), (s("Others"), Some(0))]);
}

#[test]
fn aggregations_over_integers() {
    let df = create_test_df();
    let pairs = |a| group_pairs(&apply_aggregation(&df, &s("category"), &s("value"), a).unwrap());
    assert_eq!(pairs(AggregationType::Avg), vec![(s("A"), Some(13)), (s("B"), Some(22)), (s("C"), Some(32))]);
    assert_eq!(pairs(AggregationType::Count), vec![(s("A"), Some(4)), (s("B"), Some(3)), (s("C"), Some(3))]);
    assert_eq!(pairs(AggregationType::Min), vec![(s("A"), Some(10)), (s("B"), Some(20)), (s("C"), Some(30))]);
    assert_eq!(pairs(AggregationType::Max), vec![(s("A"), Some(18)), (s("B"), Some(25)), (s("C"), Some(35))]);
    assert_eq!(pairs(AggregationType::Median), vec![(s("A"), Some(13)), (s("B"), Some(22)), (s("C"), Some(32))]);
}

#[test]
fn mean_rounds_down_and_nulls_are_skipped() {
    let mut ds = Dataset::new(vec![
        Field { name: s("k"), kind: ColumnKind::Text },
        Field { name: s("v"), kind: ColumnKind::Integer },
    ]);
    ds.push_row(vec![Cell::Text(s("a")), Cell::Int(-3)]);
    ds.push_row(vec![Cell::Text(s("a")), Cell::Int(-4)]);
    ds.push_row(vec![Cell::Text(s("a")), Cell::Null]);
    ds.push_row(vec![Cell::Text(s("b")), Cell::Null]);
    let avg = group_pairs(&apply_aggregation(&ds, &s("k"), &s("v"), AggregationType::Avg).unwrap());
    assert_eq!(avg, vec![(s("a"), Some(-4)), (s("b"), None)]);
    let sum = group_pairs(&apply_aggregation(&ds, &s("k"), &s("v"), AggregationType::Sum).unwrap());
    assert_eq!(sum, vec![(s("a"), Some(-7)), (s("b"), Some(0))]);
    let count = group_pairs(&apply_aggregation(&ds, &s("k"), &s("v"), AggregationType::Count).unwrap());
    assert_eq!(count, vec![(s("a"), Some(2)), (s("b"), Some(0))]);
}

#[test]
fn aggregation_errors() {
    let df = create_test_dataframe();
    assert!(matches!(
        apply_aggregation(&df, &s("category"), &s("date"), AggregationType::Sum),
        Err(DataError::TypeMismatch { .. })
    ));
    assert!(matches!(
        apply_aggregation(&df, &s("nope"), &s("value"), AggregationType::Sum),
        Err(DataError::ColumnNotFound { .. })
    ));
    let mut big = Dataset::new(vec![Field { name: s("k"), kind: ColumnKind::Text }, Field { name: s("v"), kind: ColumnKind::Integer }]);
    big.push_row(vec![Cell::Text(s("a")), Cell::Int(i64::MAX)]);
    big.push_row(vec![Cell::Text(s("a")), Cell::Int(1)]);
    assert!(matches!(apply_aggregation(&big, &s("k"), &s("v"), AggregationType::Sum), Err(DataError::ParseError(_))));
    let avg = group_pairs(&apply_aggregation(&big, &s("k"), &s("v"), AggregationType::Avg).unwrap());
    assert_eq!(avg, vec![(s("a"), Some(i64::MAX / 2 + 1))]);
}

#[test]
fn filter_literal_errors_and_text_operators() {
    let df = create_test_dataframe();
    let gt_text = vec![FilterSpec { column: s("value"), operator: FilterOperator::Gt, value: FilterValue::Text(s("x")) }];
    match apply_filters(&df, &gt_text) {
        Err(DataError::ParseError(m)) => assert_eq!(m, "GT filter requires numeric value"),
        other => panic!("unexpected {:?}", other),
    }
    let eq_null = vec![FilterSpec { column: s("value"), operator: FilterOperator::Eq, value: FilterValue::Null }];
    assert!(matches!(apply_filters(&df, &eq_null), Err(DataError::ParseError(_))));
    let missing = vec![FilterSpec { column: s("zzz"), operator: FilterOperator::IsNull, value: FilterValue::Null }];
    assert!(matches!(apply_filters(&df, &missing), Err(DataError::ColumnNotFound { .. })));
    let contains = vec![FilterSpec { column: s("date"), operator: FilterOperator::Contains, value: FilterValue::Text(s("-0")) }];
    assert_eq!(apply_filters(&df, &contains).unwrap().height(), 6);
    let ends = vec![FilterSpec { column: s("date"), operator: FilterOperator::EndsWith, value: FilterValue::Text(s("5")) }];
    assert_eq!(apply_filters(&df, &ends).unwrap().height(), 1);
    let starts = vec![FilterSpec { column: s("category"), operator: FilterOperator::StartsWith, value: FilterValue::Text(s("B")) }];
    assert_eq!(apply_filters(&df, &starts).unwrap().height(), 2);
    let neq = vec![FilterSpec { column: s("category"), operator: FilterOperator::Neq, value: FilterValue::Text(s("A")) }];
    assert_eq!(apply_filters(&df, &neq).unwrap().height(), 3);
    let lte = vec![FilterSpec { column: s("value"), operator: FilterOperator::Lte, value: FilterValue::Int(12) }];
    assert_eq!(apply_filters(&df, &lte).unwrap().height(), 2);
}

#[test]
fn large_scatter_is_sampled_to_ten_thousand() {
    let mut ds = Dataset::new(vec![Field { name: s("x"), kind: ColumnKind::Integer }, Field { name: s("y"), kind: ColumnKind::Integer }]);
    for i in 0..1_000_000i64 {
        ds.push_row(vec![Cell::Int(i), Cell::Int(2 * i)]);
    }
    let mut spec = bar_spec();
    spec.chart_type = ChartType::Scatter;
    spec.x_field = s("x");
    spec.y_field = s("y");
    let cd = execute_scatter_query(&ds, &spec).unwrap();
    assert_eq!(cd.metadata.returned_points, 10_000);
    assert!(cd.metadata.reduced);
    assert_eq!(cd.metadata.reduction_reason, "sampling");
    let r = cd.metadata.sample_ratio.unwrap();
    assert!((r.num as f64 / r.den as f64 - 0.01).abs() < 1e-12);
    assert_eq!(cd.labels[0], "42");
    assert_eq!(cd.labels[1], "142");
    assert_eq!(cd.datasets[0].data[0], Some(84));
    assert_eq!(
        cd.metadata.warning_message.as_deref(),
        Some("Showing 1.0% sample (10,000 of 1,000,000 points) for performance")
    );
}

#[test]
fn small_scatter_keeps_all_points() {
    let mut ds = Dataset::new(vec![Field { name: s("x"), kind: ColumnKind::Integer }, Field { name: s("y"), kind: ColumnKind::Integer }]);
    for i in 0..5i64 {
        ds.push_row(vec![Cell::Int(-i), Cell::Null]);
    }
    let mut spec = bar_spec();
    spec.x_field = s("x");
    spec.y_field = s("y");
    let cd = execute_scatter_query(&ds, &spec).unwrap();
    assert_eq!(cd.metadata.returned_points, 5);
    assert!(!cd.metadata.reduced);
    assert_eq!(cd.labels, vec![s("0"), s("-1"), s("-2"), s("-3"), s("-4")]);
    assert_eq!(cd.datasets[0].data, vec![None; 5]);
}

#[test]
fn table_page_size_is_clamped() {
    let mut ds = Dataset::new(vec![Field { name: s("n"), kind: ColumnKind::Integer }]);
    for i in 0..2500i64 {
        ds.push_row(vec![Cell::Int(i)]);
    }
    let t = execute_table_query(&ds, &vec![], 0, 5000, &None, false, &vec![]).unwrap();
    assert_eq!(t.page_size, 1000);
    assert_eq!(t.rows.len(), 1000);
    assert_eq!(t.total_rows, 2500);
    assert_eq!(t.total_pages, 3);
    assert!(t.warning.is_none());
    let last = execute_table_query(&ds, &vec![], 2, 5000, &None, false, &vec![]).unwrap();
    assert_eq!(last.rows.len(), 500);
    assert!(matches!(last.rows[0][0], Cell::Int(2000)));
    let beyond = execute_table_query(&ds, &vec![], 300, 10, &None, false, &vec![]).unwrap();
    assert_eq!(beyond.rows.len(), 0);
    let small = execute_table_query(&ds, &vec![], 1, 7, &Some(s("n")), true, &vec![]).unwrap();
    assert_eq!(small.rows.len(), 7);
    assert!(matches!(small.rows[0][0], Cell::Int(2492)));
    let zero = execute_table_query(&ds, &vec![], 0, 0, &None, false, &vec![]).unwrap();
    assert_eq!(zero.rows.len(), 0);
    assert_eq!(zero.total_pages, 0);
}

#[test]
fn table_selects_columns_and_warns_on_large_data() {
    let df = create_test_dataframe();
    let t = execute_table_query(&df, &vec![s("value"), s("category")], 0, 2, &None, false, &vec![]).unwrap();
    assert_eq!(t.rows.len(), 2);
    assert!(matches!(&t.rows[0][1], Cell::Text(c) if c == "A"));
    assert!(matches!(t.rows[0][0], Cell::Int(10)));
    assert!(matches!(
        execute_table_query(&df, &vec![s("nope")], 0, 2, &None, false, &vec![]),
        Err(DataError::ColumnNotFound { .. })
    ));
    let mut big = Dataset::new(vec![Field { name: s("n"), kind: ColumnKind::Integer }]);
    for i in 0..100_001i64 {
        big.push_row(vec![Cell::Int(i)]);
    }
    let t = execute_table_query(&big, &vec![], 0, 10, &None, false, &vec![]).unwrap();
    assert_eq!(t.warning.as_deref(), Some("Large dataset (100,001 rows). Using pagination for performance."));
}

#[test]
fn many_categories_are_cut_to_the_bar_limit() {
    let mut ds = Dataset::new(vec![Field { name: s("k"), kind: ColumnKind::Integer }, Field { name: s("v"), kind: ColumnKind::Integer }]);
    for i in 0..3000i64 {
        ds.push_row(vec![Cell::Int(i), Cell::Int(1)]);
    }
    let mut spec = bar_spec();
    spec.x_field = s("k");
    spec.y_field = s("v");
    let cd = execute_visualization_query(&ds, &spec).unwrap();
    assert!(cd.metadata.returned_points <= 500);
    assert_eq!(cd.metadata.reduction_reason, "combined");
    assert_eq!(cd.metadata.top_n_value, Some(20));
    assert_eq!(cd.labels.len(), 21);
    assert_eq!(cd.labels[20], "Others");
    assert_eq!(cd.datasets[0].data[20], Some(2980));
}

#[test]
fn progressive_query_narrows_the_range() {
    let mut ds = Dataset::new(vec![Field { name: s("k"), kind: ColumnKind::Integer }, Field { name: s("v"), kind: ColumnKind::Integer }]);
    for i in 0..10i64 {
        ds.push_row(vec![Cell::Int(i), Cell::Int(i * 10)]);
    }
    let mut spec = bar_spec();
    spec.x_field = s("k");
    spec.y_field = s("v");
    let cd = execute_progressive_query(&ds, &spec, 500, Some(3), Some(5)).unwrap();
    assert_eq!(cd.labels, vec![s("3"), s("4"), s("5")]);
    assert_eq!(cd.datasets[0].data, vec![Some(30), Some(40), Some(50)]);
    let all = execute_progressive_query(&ds, &spec, 0, Some(3), None).unwrap();
    assert_eq!(all.labels.len(), 10);
}

#[test]
fn visualization_query_reports_missing_columns() {
    let mut spec = bar_spec();
    spec.x_field = s("region");
    match execute_visualization_query(&create_test_df(), &spec) {
        Err(DataError::ColumnNotFound { column, available }) => {
            assert_eq!(column, "region");
            assert_eq!(available, "category, value");
        }
        other => panic!("unexpected {:?}", other),
    }
}

#[test]
fn empty_dataset_gives_empty_chart() {
    let ds = Dataset::new(vec![Field { name: s("category"), kind: ColumnKind::Text }, Field { name: s("value"), kind: ColumnKind::Integer }]);
    let cd = execute_visualization_query(&ds, &bar_spec()).unwrap();
    assert_eq!(cd.metadata.returned_points, 0);
    assert!(cd.labels.is_empty());
}
