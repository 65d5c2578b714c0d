use insyte::binning::{apply_date_binning, bin_cell};
use insyte::model::{Cell, ColumnKind, Dataset, Field, Timestamp};
use insyte::ordering::cell_before;
use insyte::prompts::{build_chat_prompt, build_visualization_prompt, chat_response, extract_json, extract_sample_rows, validate_spec};
use insyte::query::cell_label;
use insyte::types::{AIChatResponse, AggregationType, ChartType, ColumnInfo, DateBinGranularity, RawChatResponse, SortField, SortOrder, VisualizationSpec};

fn day(year: i32, month: u32, d: u32) -> Timestamp {
    Timestamp { year, month, day: d, hour: 0, minute: 0, second: 0 }
}

fn col(name: &str, dtype: &str, nullable: bool) -> ColumnInfo {
    ColumnInfo { name: name.to_string(), dtype: dtype.to_string(), nullable }
}

#[test]
fn extract_json_finds_the_object() {
    assert_eq!(extract_json("  {\"a\": 1}  ").as_deref(), Some("{\"a\": 1}"));
    assert_eq!(extract_json("Here you go: {\"a\": {\"b\": 2}} thanks").as_deref(), Some("{\"a\": {\"b\": 2}}"));
    assert_eq!(extract_json("no json here"), None);
    assert_eq!(extract_json("} backwards {"), None);
    assert_eq!(extract_json("\n\t{}\n"), Some("{}".to_string()));
}

#[test]
fn visualization_prompt_holds_schema_and_question() {
    let p = build_visualization_prompt("sales by region", &vec![col("region", "String", true), col("sales", "Int64", false)], 1234);
    assert!(p.starts_with("You are a data visualization assistant."));
    assert!(p.contains("Total rows: 1234\nColumns:\n  - region (String, nullable)\n  - sales (Int64)\n\nUSER QUESTION: sales by region\n"));
    assert!(p.contains("\"chartType\": \"bar|line|area|pie|scatter\""));
    assert!(p.ends_with("median (lowercase only)"));
}

#[test]
fn chat_prompt_holds_sample_rows() {
    let cols = vec![col("a", "Int64", true), col("b", "String", false)];
    let rows = vec![vec!["1".to_string(), "x".to_string()], vec!["2".to_string(), "y".to_string()]];
    let p = build_chat_prompt("how many?", &cols, 2, &rows);
    assert!(p.contains("- Total rows: 2\n- Columns:\n  - a (Int64)\n  - b (String)\n\nSAMPLE DATA (first 2 rows):\na | b\n1 | x\n2 | y\n\nUSER REQUEST: how many?\n"));
    let empty = build_chat_prompt("q", &cols, 0, &vec![]);
    assert!(empty.contains("SAMPLE DATA (first 0 rows):\nNo sample data available.\n"));
}

#[test]
fn spec_validation_names_the_unknown_column() {
    let spec = VisualizationSpec {
        chart_type: ChartType::Pie,
        x_field: "region".to_string(),
        y_field: "profit".to_string(),
        aggregation: AggregationType::Sum,
        x_date_binning: None,
        y_date_binning: None,
        group_by: None,
        sort_by: SortField::Unsorted,
        sort_order: SortOrder::Unordered,
        title: "t".to_string(),
        filters: vec![],
        chart_config: None,
    };
    let cols = vec![col("region", "String", true), col("sales", "Int64", false)];
    match validate_spec(&spec, &cols) {
        Err(insyte::error::AIError::RequestFailed(m)) => assert_eq!(m, "Column 'profit' not found in dataset"),
        other => panic!("unexpected {:?}", other),
    }
    let cols2 = vec![col("region", "String", true), col("profit", "Int64", false)];
    assert!(validate_spec(&spec, &cols2).is_ok());
}

#[test]
fn date_bins() {
    let t = Cell::Stamp(Timestamp { year: 2024, month: 3, day: 15, hour: 13, minute: 5, second: 0 });
    assert!(matches!(bin_cell(&t, DateBinGranularity::Year), Cell::Int(2024)));
    assert!(matches!(bin_cell(&t, DateBinGranularity::Quarter), Cell::Int(1)));
    assert!(matches!(bin_cell(&t, DateBinGranularity::Month), Cell::Text(s) if s == "2024-03"));
    assert!(matches!(bin_cell(&t, DateBinGranularity::Hour), Cell::Int(13)));
    assert!(matches!(bin_cell(&t, DateBinGranularity::Day), Cell::Stamp(d) if d == day(2024, 3, 15)));
    assert!(matches!(bin_cell(&t, DateBinGranularity::Week), Cell::Int(11)));
    assert!(matches!(bin_cell(&Cell::Stamp(day(2021, 1, 3)), DateBinGranularity::Week), Cell::Int(53)));
    assert!(matches!(bin_cell(&Cell::Stamp(day(2023, 2, 30)), DateBinGranularity::Week), Cell::Null));
    assert!(matches!(bin_cell(&Cell::Stamp(day(987, 11, 1)), DateBinGranularity::Month), Cell::Text(s) if s == "0987-11"));
    assert!(matches!(bin_cell(&Cell::Null, DateBinGranularity::Year), Cell::Null));
}

#[test]
fn date_binning_a_dataset() {
    let mut ds = Dataset::new(vec![Field { name: "when".to_string(), kind: ColumnKind::Date }, Field { name: "n".to_string(), kind: ColumnKind::Integer }]);
    ds.push_row(vec![Cell::Stamp(day(2024, 1, 31)), Cell::Int(1)]);
    ds.push_row(vec![Cell::Stamp(day(2024, 2, 1)), Cell::Int(2)]);
    let out = apply_date_binning(&ds, &"when".to_string(), DateBinGranularity::Month).unwrap();
    assert_eq!(out.fields[0].kind, ColumnKind::Text);
    assert!(matches!(&out.rows[1][0], Cell::Text(s) if s == "2024-02"));
    assert!(matches!(
        apply_date_binning(&ds, &"n".to_string(), DateBinGranularity::Month),
        Err(insyte::error::DataError::TypeMismatch { .. })
    ));
}

#[test]
fn cell_order_and_labels() {
    assert!(cell_before(&Cell::Null, &Cell::Int(-5)));
    assert!(cell_before(&Cell::Int(-5), &Cell::Int(3)));
    assert!(cell_before(&Cell::Text("apple".to_string()), &Cell::Text("apples".to_string())));
    assert!(!cell_before(&Cell::Text("b".to_string()), &Cell::Text("a".to_string())));
    assert!(cell_before(&Cell::Stamp(day(2024, 1, 2)), &Cell::Stamp(day(2024, 1, 10))));
    assert!(cell_before(&Cell::Bool(false), &Cell::Bool(true)));
    assert_eq!(cell_label(&Cell::Int(i64::MIN)), "-9223372036854775808");
    assert_eq!(cell_label(&Cell::Bool(true)), "true");
    assert_eq!(cell_label(&Cell::Null), "");
    assert_eq!(cell_label(&Cell::Stamp(day(2024, 3, 5))), "2024-03-05");
    assert_eq!(
        cell_label(&Cell::Stamp(Timestamp { year: 2024, month: 3, day: 5, hour: 7, minute: 8, second: 9 })),
        "2024-03-05 07:08:09"
    );
}

fn chart_spec(x: &str, y: &str) -> VisualizationSpec {
    VisualizationSpec {
        chart_type: ChartType::Bar,
        x_field: x.to_string(),
        y_field: y.to_string(),
        aggregation: AggregationType::Sum,
        x_date_binning: None,
        y_date_binning: None,
        group_by: None,
        sort_by: SortField::Y,
        sort_order: SortOrder::Desc,
        title: "Revenue".to_string(),
        filters: vec![],
        chart_config: None,
    }
}

#[test]
fn chat_replies_are_checked() {
    let cols = vec![col("region", "String", true), col("sales", "Int64", false)];
    let raw = |intent: &str, spec: Option<VisualizationSpec>, answer: Option<&str>| RawChatResponse {
        intent: intent.to_string(),
        spec,
        explanation: None,
        answer: answer.map(|a| a.to_string()),
        insights: None,
    };
    match chat_response(raw("visualization", Some(chart_spec("region", "sales")), None), &cols) {
        Ok(AIChatResponse::Visualization { explanation, .. }) => assert_eq!(explanation, "Revenue showing sales by region."),
        other => panic!("unexpected {:?}", other),
    }
    assert!(matches!(
        chat_response(raw("visualization", None, None), &cols),
        Err(insyte::error::AIError::ParseError(m)) if m == "Missing visualization spec in response"
    ));
    assert!(matches!(
        chat_response(raw("visualization", Some(chart_spec("city", "sales")), None), &cols),
        Err(insyte::error::AIError::RequestFailed(_))
    ));
    assert!(matches!(
        chat_response(raw("question", None, Some("42")), &cols),
        Ok(AIChatResponse::Answer { content, .. }) if content == "42"
    ));
    assert!(matches!(chat_response(raw("question", None, None), &cols), Err(insyte::error::AIError::ParseError(_))));
    assert!(matches!(
        chat_response(raw("poem", None, None), &cols),
        Ok(AIChatResponse::Error { message }) if message == "Unknown intent: poem"
    ));
}

#[test]
fn sample_rows_for_prompts() {
    let mut ds = Dataset::new(vec![Field { name: "city".to_string(), kind: ColumnKind::Text }, Field { name: "n".to_string(), kind: ColumnKind::Integer }]);
    for i in 0..8i64 {
        ds.push_row(vec![Cell::Text(format!("c{}", i)), Cell::Int(i)]);
    }
    let (cols, count, rows) = extract_sample_rows(&ds, 5);
    assert_eq!(count, 8);
    assert_eq!(cols[0].dtype, "String");
    assert_eq!(cols[1].dtype, "Int64");
    assert_eq!(rows.len(), 5);
    assert_eq!(rows[4], vec!["c4".to_string(), "4".to_string()]);
}
