use insyte::safety::{ChartSafetyConfig, MemorySafetyCheck, Ratio, ReductionMetadata, ReductionReason, ZoomContext};
use insyte::text::format_number;

#[test]
fn safety_test_format_number() {
    assert_eq!(format_number(1000), "1,000");
    assert_eq!(format_number(1000000), "1,000,000");
    assert_eq!(format_number(123), "123");
}

#[test]
fn test_chart_safety_config() {
    let bar = ChartSafetyConfig::bar();
    assert!(bar.requires_aggregation);
    assert!(!bar.allows_sampling);

    let scatter = ChartSafetyConfig::scatter();
    assert!(!scatter.requires_aggregation);
    assert!(scatter.allows_sampling);
}

#[test]
fn test_reduction_metadata() {
    let meta = ReductionMetadata::sampled(1_000_000, 10_000, Ratio { num: 10_000, den: 1_000_000 });
    assert!(meta.reduced);
    let r = meta.sample_ratio.unwrap();
    assert_eq!(r.num as f64 / r.den as f64, 0.01);
}

#[test]
fn test_zoom_context_point_limit() {
    let full_zoom = ZoomContext { zoom_permille: 1000, ..ZoomContext::default_view() };
    let no_zoom = ZoomContext::default_view();

    assert_eq!(full_zoom.calculate_point_limit(1000), 1000);
    assert_eq!(no_zoom.calculate_point_limit(1000), 200);
}

#[test]
fn test_memory_safety_check() {
    let safe = MemorySafetyCheck::estimate(10_000, 10);
    assert!(safe.is_safe);

    let unsafe_check = MemorySafetyCheck::estimate(10_000_000, 100);
    assert!(!unsafe_check.is_safe);
}

#[test]
fn format_number_edge_values() {
    assert_eq!(format_number(0), "0");
    assert_eq!(format_number(999), "999");
    assert_eq!(format_number(1001), "1,001");
    assert_eq!(format_number(12_345_678), "12,345,678");
}

#[test]
fn memory_estimate_exact_bytes_and_message() {
    let c = MemorySafetyCheck::estimate(10_000, 10);
    assert_eq!(c.estimated_bytes, 25_600_000);
    assert_eq!(c.recommendation, "Query is within memory budget");
    let big = MemorySafetyCheck::estimate(1_000_000, 10);
    assert_eq!(big.estimated_bytes, 2_560_000_000);
    assert_eq!(big.recommendation, "Query would use ~2441MB, exceeding 100MB budget. Apply aggregation or sampling.");
}

#[test]
fn zoom_limit_midway_and_clamped() {
    let half = ZoomContext { zoom_permille: 500, ..ZoomContext::default_view() };
    assert_eq!(half.calculate_point_limit(1000), 600);
    let over = ZoomContext { zoom_permille: 5000, ..ZoomContext::default_view() };
    assert_eq!(over.calculate_point_limit(1000), 1000);
    assert_eq!(ZoomContext::default_view().calculate_point_limit(501), 101);
}

#[test]
fn chart_type_lookup_ignores_case_and_defaults_to_bar() {
    let s = ChartSafetyConfig::for_chart_type("SCATTER");
    assert_eq!(s.max_points, 10_000);
    assert!(s.allows_sampling);
    let p = ChartSafetyConfig::for_chart_type("Pie");
    assert_eq!(p.max_points, 20);
    let unknown = ChartSafetyConfig::for_chart_type("sunburst");
    assert_eq!(unknown.chart_type_name, "Bar chart");
    assert_eq!(unknown.max_points, 500);
    let t = ChartSafetyConfig::for_chart_type("table");
    assert!(t.supports_pagination);
}

#[test]
fn metadata_constructors_messages() {
    let a = ReductionMetadata::aggregated(1_000_000, 842);
    assert_eq!(a.warning_message.as_deref(), Some("Data was automatically aggregated from 1,000,000 to 842 groups"));
    assert_eq!(a.reduction_reason, ReductionReason::AutoAggregation);
    let s = ReductionMetadata::sampled(1_000_000, 10_000, Ratio { num: 10_000, den: 1_000_000 });
    assert_eq!(s.warning_message.as_deref(), Some("Showing 1.0% sample (10,000 of 1,000,000 rows) for performance"));
    assert_eq!(s.reduction_steps[0].description, "Deterministic sampling at 1.0% ratio");
    let t = ReductionMetadata::top_n(5000, 20, true);
    assert_eq!(t.returned_points, 21);
    assert_eq!(t.warning_message.as_deref(), Some("Showing top 20 categories (+ Others) from 5,000 unique values"));
    let n = ReductionMetadata::no_reduction(7);
    assert!(!n.reduced);
    assert_eq!(n.returned_points, 7);
}

#[test]
fn add_step_and_merge_combine() {
    let mut m = ReductionMetadata::aggregated(100, 10);
    let other = ReductionMetadata::top_n(10, 3, true);
    m.merge(other);
    assert!(m.reduced);
    assert_eq!(m.reduction_steps.len(), 2);
    assert_eq!(m.reduction_reason, ReductionReason::Combined);
    assert_eq!(m.top_n_value, Some(3));
    let mut n = ReductionMetadata::no_reduction(5);
    n.merge(ReductionMetadata::no_reduction(5));
    assert_eq!(n.reduction_steps.len(), 0);
    assert_eq!(n.reduction_reason, ReductionReason::NoReduction);
}

#[test]
fn ten_distinct_values_are_medium() {
    use_levels();
}

fn use_levels() {
    let field = insyte::model::Field { name: "c".to_string(), kind: insyte::model::ColumnKind::Text };
    let ten: Vec<insyte::model::Cell> = (0..10).map(|i| insyte::model::Cell::Text(format!("v{}", i))).collect();
    let info = insyte::safety::CardinalityInfo::estimate(&field, &ten, 10);
    assert_eq!(info.cardinality_level, insyte::safety::CardinalityLevel::Medium);
    let nine: Vec<insyte::model::Cell> = (0..9).map(|i| insyte::model::Cell::Text(format!("v{}", i))).collect();
    let info = insyte::safety::CardinalityInfo::estimate(&field, &nine, 9);
    assert_eq!(info.cardinality_level, insyte::safety::CardinalityLevel::Low);
}
