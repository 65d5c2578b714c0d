use insyte::model::{Cell, ColumnKind, Dataset, Field};
use insyte::samplers::{
    auto_sample, HashSampler, ReservoirSampler, SamplingConfig, SamplingMethod, StratifiedSampler,
    SystematicSampler,
};
use insyte::sampling::{hash_rows, reservoir_rows, systematic_rows};

fn create_test_df(n: usize) -> Dataset {
    let mut ds = Dataset::new(vec![
        Field { name: "category".to_string(), kind: ColumnKind::Text },
        Field { name: "value".to_string(), kind: ColumnKind::Integer },
    ]);
    for i in 0..n {
        let c = if i % 3 == 0 { "A" } else if i % 3 == 1 { "B" } else { "C" };
        assert!(ds.push_row(vec![Cell::Text(c.to_string()), Cell::Int(i as i64)]));
    }
    ds
}

fn values(ds: &Dataset) -> Vec<i64> {
    ds.rows.iter().map(|r| match &r[1] { Cell::Int(v) => *v, _ => panic!("not an integer") }).collect()
}

#[test]
fn test_reservoir_sampling_deterministic() {
    let df = create_test_df(1000);
    let config = SamplingConfig::default().with_target(100);

    let sampler = ReservoirSampler::new(config);
    let result1 = sampler.sample(&df, 1000).unwrap();
    let result2 = sampler.sample(&df, 1000).unwrap();

    assert_eq!(result1.sampled_rows, result2.sampled_rows);
}

#[test]
fn test_reservoir_sampling_respects_target() {
    let df = create_test_df(10000);
    let config = SamplingConfig::default().with_target(500);

    let sampler = ReservoirSampler::new(config);
    let result = sampler.sample(&df, 10000).unwrap();

    assert_eq!(result.sampled_rows, 500);
    assert!((result.sample_ratio.num as f64 / result.sample_ratio.den as f64) < 0.1);
}

#[test]
fn test_stratified_sampling_preserves_proportions() {
    let df = create_test_df(900);
    let config = SamplingConfig::default().with_target(90).with_stratification("category".to_string());

    let sampler = StratifiedSampler::new(config);
    let result = sampler.sample(&df).unwrap();

    assert!(result.strata_stats.is_some());
    let stats = result.strata_stats.unwrap();
    assert_eq!(stats.len(), 3);

    for stat in &stats {
        assert!(stat.sampled_count >= 10);
        assert!(stat.sampled_count <= 50);
    }
}

#[test]
fn test_systematic_sampling_even_distribution() {
    let df = create_test_df(1000);
    let config = SamplingConfig::default().with_target(100);

    let sampler = SystematicSampler::new(config);
    let result = sampler.sample(&df, 1000).unwrap();

    assert_eq!(result.sampled_rows, 100);
    assert_eq!(result.method as u8, SamplingMethod::Systematic as u8);
}

#[test]
fn test_no_sampling_when_under_target() {
    let df = create_test_df(50);
    let config = SamplingConfig::default().with_target(100);

    let sampler = ReservoirSampler::new(config);
    let result = sampler.sample(&df, 50).unwrap();

    assert_eq!(result.sampled_rows, 50);
    assert_eq!(result.sample_ratio.num as f64 / result.sample_ratio.den as f64, 1.0);
}

#[test]
fn test_auto_sample_selects_appropriate_method() {
    let df = create_test_df(1000);

    let result1 = auto_sample(&df, 100, None).unwrap();
    assert!(matches!(result1.method, SamplingMethod::Reservoir));

    let result2 = auto_sample(&df, 100, Some("category".to_string())).unwrap();
    assert!(matches!(result2.method, SamplingMethod::Stratified));
}

#[test]
fn reservoir_picks_lowest_scores_in_row_order() {
    // seed 1: score(i) = i, so the lowest scores are the first rows.
    assert_eq!(reservoir_rows(10, 3, 1), vec![0, 1, 2]);
    // seed 0: every score is 0 and ties go by position.
    assert_eq!(reservoir_rows(10, 4, 0), vec![0, 1, 2, 3]);
    // seed 42 over 5 rows: scores 0, 42, 84, 126, 168.
    assert_eq!(reservoir_rows(5, 2, 42), vec![0, 1]);
    assert_eq!(reservoir_rows(3, 5, 42), vec![0, 1, 2]);
}

#[test]
fn reservoir_sample_is_identical_on_repeat() {
    let df = create_test_df(1000);
    let sampler = ReservoirSampler::new(SamplingConfig::default().with_target(100).with_seed(7));
    let a = sampler.sample(&df, 1000).unwrap();
    let b = sampler.sample(&df, 1000).unwrap();
    assert_eq!(values(&a.data), values(&b.data));
    assert_eq!(a.sampled_rows, 100);
    let v = values(&a.data);
    assert!(v.windows(2).all(|w| w[0] < w[1]));
}

#[test]
fn systematic_interval_and_offset() {
    // k = ceil(10 / 3) = 4, offset 42 mod 4 = 2.
    assert_eq!(systematic_rows(10, 10, 3, 42), vec![2, 6]);
    // k = 10, offset 42 mod 10 = 2.
    assert_eq!(systematic_rows(100, 100, 10, 42), vec![2, 12, 22, 32, 42, 52, 62, 72, 82, 92]);
    assert_eq!(systematic_rows(5, 5, 10, 42), vec![0, 1, 2, 3, 4]);
    assert_eq!(systematic_rows(5, 5, 0, 42), Vec::<usize>::new());
}

#[test]
fn hash_modulo_selection() {
    // modulo = ceil(10 / 5) = 2; (i * 2654435761 + 42) is even exactly when i is even.
    assert_eq!(hash_rows(10, 5, 42), vec![0, 2, 4, 6, 8]);
    assert_eq!(hash_rows(4, 10, 42), vec![0, 1, 2, 3]);
    let df = create_test_df(10);
    let s = HashSampler::new(SamplingConfig::default().with_target(5), vec![]).sample(&df).unwrap();
    assert_eq!(values(&s.data), vec![0, 2, 4, 6, 8]);
    assert!(!s.distribution_preserved);
    assert!(matches!(s.method, SamplingMethod::Hash));
}

#[test]
fn stratified_shares_and_missing_column() {
    let df = create_test_df(900);
    let r = StratifiedSampler::new(SamplingConfig::default().with_target(90).with_stratification("category".to_string()))
        .sample(&df)
        .unwrap();
    assert_eq!(r.sampled_rows, 90);
    let stats = r.strata_stats.unwrap();
    assert!(stats.iter().all(|s| s.sampled_count == 30 && s.original_count == 300));
    assert!(stats.iter().all(|s| s.sample_ratio.num == 30 && s.sample_ratio.den == 300));
    assert_eq!(r.sample_ratio.num, 90);
    assert_eq!(r.sample_ratio.den, 900);
    assert!(matches!(&stats[0].stratum_value, Cell::Text(t) if t == "A"));
    let e = StratifiedSampler::new(SamplingConfig::default().with_target(90).with_stratification("nope".to_string()))
        .sample(&df);
    assert!(matches!(e, Err(insyte::error::DataError::ColumnNotFound { .. })));
}

#[test]
fn stratified_minimum_per_stratum() {
    // 100 rows: 97 "big", 3 "small"; target 10 gives the small stratum ceil(3 * 10 / 100) = 1,
    // raised to the floor of 10, capped at its size 3.
    let mut ds = Dataset::new(vec![Field { name: "g".to_string(), kind: ColumnKind::Text }]);
    for i in 0..100 {
        let g = if i < 97 { "big" } else { "small" };
        ds.push_row(vec![Cell::Text(g.to_string())]);
    }
    let r = StratifiedSampler::new(SamplingConfig::default().with_target(10).with_stratification("g".to_string()))
        .sample(&ds)
        .unwrap();
    let stats = r.strata_stats.unwrap();
    assert_eq!(stats[0].sampled_count, 10);
    assert_eq!(stats[1].sampled_count, 3);
}
