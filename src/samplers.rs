//! Sampling strategies over datasets, with their configuration and results.

use vstd::prelude::*;
use crate::aggregate::column_cells;
use crate::error::DataError;
use crate::executor::take_rows;
use crate::filter::{first_index, has_column, locate};
use crate::model::{Cell, CellView, Dataset, cells_view};
use crate::aggregate::distinct_values;
use crate::sampling::{stratum_pick, stratum_size, stratum_target};
use crate::safety::{Ratio, SAMPLING_SEED};
use crate::sampling::{
    as_positions, hash_pick, hash_rows, reservoir_pick, reservoir_rows, stratified_pick,
    stratified_rows, systematic_pick, systematic_rows, lemma_hash_in_range, lemma_reservoir_in_range,
    lemma_systematic_in_range,
};

verus! {

/// Settings of a sampling run.
#[derive(Debug)]
pub struct SamplingConfig {
    /// Rows wanted.
    pub target_size: usize,
    /// Seed of the deterministic selection.
    pub seed: u64,
    pub preserve_distribution: bool,
    /// Column whose values form the strata, if any.
    pub stratify_by: Option<String>,
    /// Fewest rows kept per stratum (when the stratum has them).
    pub min_samples_per_stratum: usize,
}

impl Default for SamplingConfig {
    fn default() -> (r: SamplingConfig)
        ensures
            r.target_size == 10_000,
            r.seed == SAMPLING_SEED,
            r.preserve_distribution,
            r.stratify_by is None,
            r.min_samples_per_stratum == 10,
    {
        SamplingConfig {
            target_size: 10_000,
            seed: SAMPLING_SEED,
            preserve_distribution: true,
            stratify_by: None,
            min_samples_per_stratum: 10,
        }
    }
}

impl SamplingConfig {
    pub fn with_target(self, target: usize) -> (r: SamplingConfig)
        ensures
            r.target_size == target,
            r.seed == self.seed,
            r.preserve_distribution == self.preserve_distribution,
            r.stratify_by == self.stratify_by,
            r.min_samples_per_stratum == self.min_samples_per_stratum,
    {
        let mut c = self;
        c.target_size = target;
        c
    }

    pub fn with_seed(self, seed: u64) -> (r: SamplingConfig)
        ensures
            r.target_size == self.target_size,
            r.seed == seed,
            r.preserve_distribution == self.preserve_distribution,
            r.stratify_by == self.stratify_by,
            r.min_samples_per_stratum == self.min_samples_per_stratum,
    {
        let mut c = self;
        c.seed = seed;
        c
    }

    /// Stratifies by `column`, which also asks for the distribution to be preserved.
    pub fn with_stratification(self, column: String) -> (r: SamplingConfig)
        ensures
            r.target_size == self.target_size,
            r.seed == self.seed,
            r.preserve_distribution,
            r.stratify_by == Some(column),
            r.min_samples_per_stratum == self.min_samples_per_stratum,
    {
        let mut c = self;
        c.stratify_by = Some(column);
        c.preserve_distribution = true;
        c
    }

    fn duplicate(&self) -> (r: SamplingConfig)
        ensures
            r.target_size == self.target_size,
            r.seed == self.seed,
            r.preserve_distribution == self.preserve_distribution,
            r.stratify_by == self.stratify_by,
            r.min_samples_per_stratum == self.min_samples_per_stratum,
    {
        SamplingConfig {
            target_size: self.target_size,
            seed: self.seed,
            preserve_distribution: self.preserve_distribution,
            stratify_by: match &self.stratify_by {
                Some(s) => Some(s.clone()),
                None => None,
            },
            min_samples_per_stratum: self.min_samples_per_stratum,
        }
    }
}

/// The strategy a sample was drawn with.
#[derive(Clone, Copy, PartialEq, Eq, Structural, Debug)]
pub enum SamplingMethod {
    Reservoir,
    Stratified,
    Systematic,
    Hash,
}

/// One stratum of a stratified sample.
#[derive(Debug)]
pub struct StratumStats {
    pub stratum_value: Cell,
    pub original_count: usize,
    pub sampled_count: usize,
    pub sample_ratio: Ratio,
}

/// A sample and how it was drawn.
#[derive(Debug)]
pub struct SamplingResult {
    pub data: Dataset,
    pub original_rows: usize,
    pub sampled_rows: usize,
    pub sample_ratio: Ratio,
    pub distribution_preserved: bool,
    pub method: SamplingMethod,
    pub strata_stats: Option<Vec<StratumStats>>,
}

/// `r` holds the rows of `ds` at positions `pick`, in that order.
pub open spec fn holds_rows(r: SamplingResult, ds: &Dataset, pick: Seq<int>) -> bool {
    &&& r.data.wf()
    &&& r.data.names() == ds.names()
    &&& r.data.rows_view() == pick.map_values(|i: int| ds.rows_view()[i])
    &&& r.sampled_rows == r.data.rows@.len()
    &&& r.sampled_rows == pick.len()
}

fn sample_of(ds: &Dataset, idx: &Vec<usize>, original: usize, ratio: Ratio, preserved: bool, method: SamplingMethod) -> (r: SamplingResult)
    requires
        ds.wf(),
        forall|k: int| 0 <= k < idx@.len() ==> #[trigger] idx@[k] < ds.rows@.len(),
    ensures
        holds_rows(r, ds, as_positions(idx@)),
        r.original_rows == original,
        r.sample_ratio == ratio,
        r.distribution_preserved == preserved,
        r.method == method,
        r.strata_stats is None,
{
    let data = take_rows(ds, idx);
    let n = data.rows.len();
    SamplingResult {
        data,
        original_rows: original,
        sampled_rows: n,
        sample_ratio: ratio,
        distribution_preserved: preserved,
        method,
        strata_stats: None,
    }
}

proof fn lemma_in_range(idx: Seq<usize>, pick: Seq<int>, n: int)
    requires
        as_positions(idx) == pick,
        forall|k: int| 0 <= k < pick.len() ==> 0 <= #[trigger] pick[k] < n,
    ensures
        forall|k: int| 0 <= k < idx.len() ==> #[trigger] idx[k] < n,
{
    assert forall|k: int| 0 <= k < idx.len() implies #[trigger] idx[k] < n by {
        assert(as_positions(idx)[k] == idx[k] as int);
    }
}

/// Reservoir (rank-hash) sampling.
#[derive(Debug)]
pub struct ReservoirSampler {
    config: SamplingConfig,
}

impl ReservoirSampler {
    pub fn new(config: SamplingConfig) -> (r: ReservoirSampler)
        ensures
            r.target() == config.target_size,
            r.seed() == config.seed,
    {
        ReservoirSampler { config }
    }

    pub closed spec fn target(&self) -> usize {
        self.config.target_size
    }

    pub closed spec fn seed(&self) -> u64 {
        self.config.seed
    }

    /// Samples a dataset said to hold `total_rows` rows.
    ///
    /// With no more rows than the target every row is kept at ratio 1. Otherwise the rows
    /// of lowest score are kept in row order (`reservoir_pick`) at ratio
    /// `target / total_rows`.
    pub fn sample(&self, ds: &Dataset, total_rows: usize) -> (r: Result<SamplingResult, DataError>)
        requires
            ds.wf(),
        ensures
            r matches Ok(s) && s.method == SamplingMethod::Reservoir && s.original_rows == total_rows
                && s.distribution_preserved && s.strata_stats is None && if total_rows <= self.target() {
                holds_rows(s, ds, crate::sampling::all_rows(ds.rows@.len() as int)) && s.sample_ratio == (Ratio { num: 1, den: 1 })
            } else {
                holds_rows(s, ds, reservoir_pick(ds.rows@.len() as int, self.target() as int, self.seed() as int))
                    && s.sample_ratio == (Ratio { num: self.target(), den: total_rows })
            },
    {
        let n = ds.rows.len();
        if total_rows <= self.config.target_size {
            let idx = crate::sampling::every_row(n);
            proof {
                lemma_reservoir_in_range(n as int, n as int, 0);
                lemma_in_range(idx@, reservoir_pick(n as int, n as int, 0), n as int);
            }
            return Ok(sample_of(ds, &idx, total_rows, Ratio { num: 1, den: 1 }, true, SamplingMethod::Reservoir));
        }
        let idx = reservoir_rows(n, self.config.target_size, self.config.seed);
        proof {
            lemma_reservoir_in_range(n as int, self.config.target_size as int, self.config.seed as int);
            lemma_in_range(idx@, reservoir_pick(n as int, self.config.target_size as int, self.config.seed as int), n as int);
        }
        Ok(
            sample_of(
                ds,
                &idx,
                total_rows,
                Ratio { num: self.config.target_size, den: total_rows },
                true,
                SamplingMethod::Reservoir,
            ),
        )
    }
}

/// Systematic sampling: every k-th row from a seeded offset.
#[derive(Debug)]
pub struct SystematicSampler {
    config: SamplingConfig,
}

impl SystematicSampler {
    pub fn new(config: SamplingConfig) -> (r: SystematicSampler)
        ensures
            r.target() == config.target_size,
            r.seed() == config.seed,
    {
        SystematicSampler { config }
    }

    pub closed spec fn target(&self) -> usize {
        self.config.target_size
    }

    pub closed spec fn seed(&self) -> u64 {
        self.config.seed
    }

    /// Samples a dataset said to hold `total_rows` rows: `systematic_pick`, at ratio
    /// `sampled / total_rows` (1 when nothing is sampled).
    pub fn sample(&self, ds: &Dataset, total_rows: usize) -> (r: Result<SamplingResult, DataError>)
        requires
            ds.wf(),
        ensures
            r matches Ok(s) && s.method == SamplingMethod::Systematic && s.original_rows == total_rows
                && s.distribution_preserved && s.strata_stats is None
                && holds_rows(s, ds, systematic_pick(ds.rows@.len() as int, total_rows as int, self.target() as int, self.seed() as int))
                && s.sample_ratio == if total_rows <= self.target() {
                    Ratio { num: 1, den: 1 }
                } else {
                    Ratio { num: s.sampled_rows, den: total_rows }
                },
    {
        let n = ds.rows.len();
        let idx = systematic_rows(n, total_rows, self.config.target_size, self.config.seed);
        proof {
            lemma_systematic_in_range(n as int, total_rows as int, self.config.target_size as int, self.config.seed as int);
            lemma_in_range(
                idx@,
                systematic_pick(n as int, total_rows as int, self.config.target_size as int, self.config.seed as int),
                n as int,
            );
        }
        let ratio = if total_rows <= self.config.target_size {
            Ratio { num: 1, den: 1 }
        } else {
            Ratio { num: idx.len(), den: total_rows }
        };
        Ok(sample_of(ds, &idx, total_rows, ratio, true, SamplingMethod::Systematic))
    }
}

/// Hash-modulo sampling: rows whose hash is divisible by the sampling interval.
#[derive(Debug)]
pub struct HashSampler {
    config: SamplingConfig,
    key_columns: Vec<String>,
}

impl HashSampler {
    pub fn new(config: SamplingConfig, key_columns: Vec<String>) -> (r: HashSampler)
        ensures
            r.target() == config.target_size,
            r.seed() == config.seed,
    {
        HashSampler { config, key_columns }
    }

    pub closed spec fn target(&self) -> usize {
        self.config.target_size
    }

    pub closed spec fn seed(&self) -> u64 {
        self.config.seed
    }

    /// Samples a dataset: `hash_pick`, at ratio `sampled / rows` (1 when nothing is
    /// sampled). The count may fall short of the target and the distribution is not
    /// promised to hold.
    pub fn sample(&self, ds: &Dataset) -> (r: Result<SamplingResult, DataError>)
        requires
            ds.wf(),
        ensures
            r matches Ok(s) && s.method == SamplingMethod::Hash && s.original_rows == ds.rows@.len()
                && s.strata_stats is None
                && holds_rows(s, ds, hash_pick(ds.rows@.len() as int, self.target() as int, self.seed() as int))
                && if ds.rows@.len() <= self.target() {
                    s.sample_ratio == (Ratio { num: 1, den: 1 }) && s.distribution_preserved
                } else {
                    s.sample_ratio == (Ratio { num: s.sampled_rows, den: ds.rows@.len() as usize }) && !s.distribution_preserved
                },
    {
        let n = ds.rows.len();
        let idx = hash_rows(n, self.config.target_size, self.config.seed);
        proof {
            lemma_hash_in_range(n as int, self.config.target_size as int, self.config.seed as int);
            lemma_in_range(idx@, hash_pick(n as int, self.config.target_size as int, self.config.seed as int), n as int);
        }
        if n <= self.config.target_size {
            return Ok(sample_of(ds, &idx, n, Ratio { num: 1, den: 1 }, true, SamplingMethod::Hash));
        }
        let ratio = Ratio { num: idx.len(), den: n };
        Ok(sample_of(ds, &idx, n, ratio, false, SamplingMethod::Hash))
    }
}

/// The ratio kept in a stratum of `size` rows with share `share`: 1 when it keeps them all.
pub open spec fn stratum_ratio(size: int, share: int) -> Ratio {
    if size <= share || size == 0 {
        Ratio { num: 1, den: 1 }
    } else {
        Ratio { num: share as usize, den: size as usize }
    }
}

/// One statistic per stratum of `col`, in stratum order: its value, its size, how many of
/// its rows were kept and at what ratio.
pub open spec fn strata_stats_ok(st: Seq<StratumStats>, col: Seq<CellView>, target: int, min_per: int, seed: int) -> bool {
    &&& st.len() == distinct_values(col).len()
    &&& forall|j: int| #![trigger st[j]] 0 <= j < st.len() ==> {
        &&& st[j].stratum_value@ == distinct_values(col)[j]
        &&& st[j].original_count == stratum_size(col, j)
        &&& st[j].sampled_count == stratum_pick(col, j, target, min_per, seed).len()
        &&& st[j].sample_ratio == stratum_ratio(stratum_size(col, j), stratum_target(col, j, target, min_per))
    }
}

/// Stratified sampling: each value of the stratum column sampled in proportion.
#[derive(Debug)]
pub struct StratifiedSampler {
    config: SamplingConfig,
}

impl StratifiedSampler {
    pub fn new(config: SamplingConfig) -> (r: StratifiedSampler)
        ensures
            r.target() == config.target_size,
            r.seed() == config.seed,
            r.min_per() == config.min_samples_per_stratum,
            r.stratify_by() == config.stratify_by,
    {
        StratifiedSampler { config }
    }

    pub closed spec fn target(&self) -> usize {
        self.config.target_size
    }

    pub closed spec fn seed(&self) -> u64 {
        self.config.seed
    }

    pub closed spec fn min_per(&self) -> usize {
        self.config.min_samples_per_stratum
    }

    pub closed spec fn stratify_by(&self) -> Option<String> {
        self.config.stratify_by
    }

    /// Samples a dataset by strata.
    ///
    /// With no more rows than the target every row is kept. Without a stratum column this
    /// is reservoir sampling. Otherwise the column must exist (else `ColumnNotFound`) and
    /// the rows are `stratified_pick` of it, with one count per stratum.
    pub fn sample(&self, ds: &Dataset) -> (r: Result<SamplingResult, DataError>)
        requires
            ds.wf(),
        ensures
            ds.rows@.len() <= self.target() ==> (r matches Ok(s) && s.method == SamplingMethod::Stratified
                && holds_rows(s, ds, crate::sampling::all_rows(ds.rows@.len() as int)) && s.strata_stats is None
                && s.sample_ratio == (Ratio { num: 1, den: 1 }) && s.original_rows == ds.rows@.len()
                && s.distribution_preserved),
            ds.rows@.len() > self.target() && self.stratify_by() is None ==> (r matches Ok(s) && s.method
                == SamplingMethod::Reservoir && holds_rows(
                s,
                ds,
                reservoir_pick(ds.rows@.len() as int, self.target() as int, self.seed() as int),
            ) && s.sample_ratio == (Ratio { num: self.target(), den: ds.rows@.len() as usize })
                && s.original_rows == ds.rows@.len() && s.distribution_preserved && s.strata_stats is None),
            self.stratify_by() matches Some(c) ==> (ds.rows@.len() > self.target() ==> (if has_column(ds, c@) {
                (r matches Ok(s) && s.method == SamplingMethod::Stratified && holds_rows(
                    s,
                    ds,
                    stratified_pick(
                        ds.column_view(first_index(ds, c@)),
                        self.target() as int,
                        self.min_per() as int,
                        self.seed() as int,
                    ),
                ) && s.original_rows == ds.rows@.len() && s.distribution_preserved
                    && s.sample_ratio == (Ratio { num: s.sampled_rows, den: ds.rows@.len() as usize })
                    && (s.strata_stats matches Some(st) && strata_stats_ok(
                    st@,
                    ds.column_view(first_index(ds, c@)),
                    self.target() as int,
                    self.min_per() as int,
                    self.seed() as int,
                )))
            } else {
                (r matches Err(DataError::ColumnNotFound { column, .. }) && column@ == c@)
            })),
    {
        let n = ds.rows.len();
        if n <= self.config.target_size {
            let idx = crate::sampling::every_row(n);
            proof {
                lemma_reservoir_in_range(n as int, n as int, 0);
                lemma_in_range(idx@, reservoir_pick(n as int, n as int, 0), n as int);
            }
            return Ok(sample_of(ds, &idx, n, Ratio { num: 1, den: 1 }, true, SamplingMethod::Stratified));
        }
        let column = match &self.config.stratify_by {
            Some(c) => c,
            None => {
                let reservoir = ReservoirSampler::new(self.config.duplicate());
                return reservoir.sample(ds, n);
            },
        };
        let c = match locate(ds, column) {
            Ok(c) => c,
            Err(e) => return Err(e),
        };
        let cells = column_cells(ds, c);
        let (idx, counts) = stratified_rows(
            &cells,
            self.config.target_size,
            self.config.min_samples_per_stratum,
            self.config.seed,
        );
        let mut stats: Vec<StratumStats> = Vec::new();
        let mut j: usize = 0;
        let ghost cv = cells_view(cells@);
        while j < counts.len()
            invariant
                j <= counts@.len(),
                stats@.len() == j,
                cv == cells_view(cells@),
                counts@.len() == distinct_values(cv).len(),
                forall|q: int| #![trigger counts@[q]] 0 <= q < counts@.len() ==> {
                    &&& counts@[q].value@ == distinct_values(cv)[q]
                    &&& counts@[q].size == stratum_size(cv, q)
                    &&& counts@[q].share == stratum_target(cv, q, self.config.target_size as int, self.config.min_samples_per_stratum as int)
                    &&& counts@[q].picked == stratum_pick(cv, q, self.config.target_size as int, self.config.min_samples_per_stratum as int, self.config.seed as int).len()
                },
                forall|q: int| #![trigger stats@[q]] 0 <= q < j ==> {
                    &&& stats@[q].stratum_value@ == distinct_values(cv)[q]
                    &&& stats@[q].original_count == stratum_size(cv, q)
                    &&& stats@[q].sampled_count == stratum_pick(cv, q, self.config.target_size as int, self.config.min_samples_per_stratum as int, self.config.seed as int).len()
                    &&& stats@[q].sample_ratio == stratum_ratio(stratum_size(cv, q), stratum_target(cv, q, self.config.target_size as int, self.config.min_samples_per_stratum as int))
                },
            decreases counts@.len() - j,
        {
            let k = &counts[j];
            let ratio = if k.size <= k.share || k.size == 0 {
                Ratio { num: 1, den: 1 }
            } else {
                Ratio { num: k.share, den: k.size }
            };
            let ghost sbefore = stats@;
            stats.push(
                StratumStats {
                    stratum_value: k.value.duplicate(),
                    original_count: k.size,
                    sampled_count: k.picked,
                    sample_ratio: ratio,
                },
            );
            assert(forall|q: int| 0 <= q < j ==> stats@[q] == sbefore[q]);
            j = j + 1;
        }
        let data = take_rows(ds, &idx);
        let m = data.rows.len();
        Ok(
            SamplingResult {
                data,
                original_rows: n,
                sampled_rows: m,
                sample_ratio: Ratio { num: m, den: n },
                distribution_preserved: true,
                method: SamplingMethod::Stratified,
                strata_stats: Some(stats),
            },
        )
    }
}

/// Samples by strata of `stratify_by` when given, else by reservoir; seed 42, at least 10
/// rows per stratum.
pub fn auto_sample(ds: &Dataset, target_size: usize, stratify_by: Option<String>) -> (r: Result<SamplingResult, DataError>)
    requires
        ds.wf(),
    ensures
        stratify_by is None ==> (r matches Ok(s) && s.method == SamplingMethod::Reservoir && if ds.rows@.len() <= target_size {
            holds_rows(s, ds, crate::sampling::all_rows(ds.rows@.len() as int))
        } else {
            holds_rows(s, ds, reservoir_pick(ds.rows@.len() as int, target_size as int, SAMPLING_SEED as int))
        }),
        stratify_by matches Some(c) ==> (ds.rows@.len() > target_size && has_column(ds, c@) ==> (r matches Ok(s)
            && s.method == SamplingMethod::Stratified && holds_rows(
            s,
            ds,
            stratified_pick(ds.column_view(first_index(ds, c@)), target_size as int, 10, SAMPLING_SEED as int),
        ))),
        stratify_by is Some && ds.rows@.len() <= target_size ==> (r matches Ok(s) && s.method
            == SamplingMethod::Stratified && holds_rows(s, ds, crate::sampling::all_rows(ds.rows@.len() as int))),
{
    let preserve = stratify_by.is_some();
    let config = SamplingConfig {
        target_size,
        seed: SAMPLING_SEED,
        preserve_distribution: preserve,
        stratify_by,
        min_samples_per_stratum: 10,
    };
    if config.stratify_by.is_some() {
        StratifiedSampler::new(config).sample(ds)
    } else {
        let n = ds.rows.len();
        ReservoirSampler::new(config).sample(ds, n)
    }
}

/// Systematic sample for scatter plots, seed 42.
pub fn scatter_sample(ds: &Dataset, total_rows: usize, target_size: usize) -> (r: Result<SamplingResult, DataError>)
    requires
        ds.wf(),
    ensures
        r matches Ok(s) && s.method == SamplingMethod::Systematic && holds_rows(
            s,
            ds,
            systematic_pick(ds.rows@.len() as int, total_rows as int, target_size as int, SAMPLING_SEED as int),
        ) && s.original_rows == total_rows && s.distribution_preserved && s.strata_stats is None
            && s.sample_ratio == if total_rows <= target_size {
            Ratio { num: 1, den: 1 }
        } else {
            Ratio { num: s.sampled_rows, den: total_rows }
        },
{
    let config = SamplingConfig::default().with_target(target_size);
    SystematicSampler::new(config).sample(ds, total_rows)
}

/// Sampling is deterministic: two samples of the same rows by the same strategy, target
/// and seed hold the same rows in the same order.
pub proof fn sampling_is_deterministic(a: SamplingResult, b: SamplingResult, ds: &Dataset, pick: Seq<int>)
    requires
        holds_rows(a, ds, pick),
        holds_rows(b, ds, pick),
    ensures
        a.data.rows_view() == b.data.rows_view(),
        a.sampled_rows == b.sampled_rows,
{
}

} // verus!
