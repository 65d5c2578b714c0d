//! Safety policies, cardinality analysis and the reduction audit trail.

use vstd::prelude::*;
use vstd::string::*;
use crate::aggregate::{distinct_cells, distinct_values};
use crate::model::{Cell, CellView, ColumnKind, Field, cells_view};
use crate::text::{decimal, digit_char, format_number, grouped, to_decimal};
use crate::types::{ChartType, DateBinGranularity};

verus! {

/// Points any one visualization may render.
pub const MAX_VISUAL_POINTS: usize = 50_000;

/// Point limit of bar, line and area charts.
pub const DEFAULT_BAR_LINE_LIMIT: usize = 500;

/// Point limit of scatter plots.
pub const DEFAULT_SCATTER_LIMIT: usize = 10_000;

/// Rows per table page by default.
pub const DEFAULT_TABLE_PAGE_SIZE: usize = 100;

/// Distinct values above which a dimension counts as very high cardinality.
pub const HIGH_CARDINALITY_THRESHOLD: usize = 1_000;

/// Distinct values above which a categorical dimension is aggregated.
pub const CATEGORICAL_CARDINALITY_THRESHOLD: usize = 100;

/// Categories kept by a Top-N reduction unless told otherwise.
pub const DEFAULT_TOP_N: usize = 20;

/// Seed of the deterministic sampling.
pub const SAMPLING_SEED: u64 = 42;

/// Estimated bytes per cell.
pub const ESTIMATED_BYTES_PER_ROW: usize = 256;

/// Memory budget of one query, in bytes (100 MB).
pub const MAX_MEMORY_BUDGET: usize = 104_857_600;

/// Rows read to estimate cardinality.
pub const CARDINALITY_SAMPLE_SIZE: usize = 10_000;

/// The most bins a numeric binning recommends.
pub const MAX_NUMERIC_BINS: usize = 100;

/// A non-negative fraction `num / den`.
#[derive(Clone, Copy, PartialEq, Eq, Structural, Debug)]
pub struct Ratio {
    pub num: usize,
    pub den: usize,
}

/// `num / den` in tenths of a percent, rounded half up.
pub open spec fn permille_of(num: int, den: int) -> int {
    (num * 2000 + den) / (2 * den)
}

/// `num / den` as a percentage with one decimal (`"1.2"`).
pub open spec fn percent_text(num: int, den: int) -> Seq<char> {
    let t = permille_of(num, den);
    decimal((t / 10) as nat) + seq!['.', digit_char((t % 10) as nat)]
}

/// Formats `num / den` as a percentage with one decimal, without the sign.
pub fn percent(r: Ratio) -> (s: String)
    requires
        r.den > 0,
    ensures
        s@ == percent_text(r.num as int, r.den as int),
{
    assert((r.num as int) * 2000 + r.den <= 0xffff_ffff_ffff_ffff * 2001) by (nonlinear_arith)
        requires
            0 <= r.num <= 0xffff_ffff_ffff_ffff,
            0 <= r.den <= 0xffff_ffff_ffff_ffff,
    ;
    let t = ((r.num as u128) * 2000 + (r.den as u128)) / (2 * (r.den as u128));
    assert(t <= (r.num as int) * 2000 + r.den) by {
        vstd::arithmetic::div_mod::lemma_div_is_ordered_by_denominator(
            (r.num as int) * 2000 + r.den,
            1,
            2 * (r.den as int),
        );
    }
    let mut s = to_decimal(t / 10);
    s.append(".");
    let d = crate::text::digit_str(t % 10);
    s.append(d);
    proof {
        reveal_strlit(".");
        assert(s@ =~= percent_text(r.num as int, r.den as int));
    }
    s
}

/// Why data was reduced.
#[derive(Clone, Copy, PartialEq, Eq, Structural, Debug)]
pub enum ReductionReason {
    /// Grouped and summarised.
    AutoAggregation,
    /// Sampled to fewer points.
    Sampling,
    /// A high-cardinality dimension cut to Top-N plus Others.
    TopN,
    /// Dates grouped into bins.
    DateBinning,
    /// More than one reduction.
    Combined,
    /// Nothing was reduced.
    NoReduction,
}

/// One reduction of the audit trail.
#[derive(Debug)]
pub struct ReductionStep {
    pub step_type: ReductionReason,
    pub input_rows: usize,
    pub output_rows: usize,
    pub description: String,
}

/// The audit trail returned with every result: what was reduced, how and why.
#[derive(Debug)]
pub struct ReductionMetadata {
    pub reduced: bool,
    pub reduction_reason: ReductionReason,
    pub original_row_estimate: usize,
    pub returned_points: usize,
    pub sample_ratio: Option<Ratio>,
    pub top_n_value: Option<usize>,
    pub date_bin_granularity: Option<DateBinGranularity>,
    pub distribution_preserved: bool,
    pub warning_message: Option<String>,
    pub reduction_steps: Vec<ReductionStep>,
}

pub open spec fn aggregated_warning(original: nat, returned: nat) -> Seq<char> {
    "Data was automatically aggregated from "@ + grouped(original) + " to "@ + grouped(returned)
        + " groups"@
}

pub open spec fn sampled_warning(original: nat, returned: nat, ratio: Ratio) -> Seq<char> {
    "Showing "@ + percent_text(ratio.num as int, ratio.den as int) + "% sample ("@ + grouped(returned)
        + " of "@ + grouped(original) + " rows) for performance"@
}

pub open spec fn sampled_description(ratio: Ratio) -> Seq<char> {
    "Deterministic sampling at "@ + percent_text(ratio.num as int, ratio.den as int) + "% ratio"@
}

pub open spec fn top_n_warning(original: nat, n: nat, has_others: bool) -> Seq<char> {
    "Showing top "@ + decimal(n) + " categories"@ + (if has_others {
        " (+ Others)"@
    } else {
        Seq::empty()
    }) + " from "@ + grouped(original) + " unique values"@
}

pub open spec fn top_n_description(n: nat) -> Seq<char> {
    "Top-"@ + decimal(n) + " with Others bucket"@
}

impl ReductionMetadata {
    /// Nothing was reduced: every one of `row_count` rows is returned.
    pub fn no_reduction(row_count: usize) -> (r: ReductionMetadata)
        ensures
            !r.reduced,
            r.reduction_reason == ReductionReason::NoReduction,
            r.original_row_estimate == row_count,
            r.returned_points == row_count,
            r.sample_ratio is None,
            r.top_n_value is None,
            r.date_bin_granularity is None,
            r.distribution_preserved,
            r.warning_message is None,
            r.reduction_steps@.len() == 0,
    {
        ReductionMetadata {
            reduced: false,
            reduction_reason: ReductionReason::NoReduction,
            original_row_estimate: row_count,
            returned_points: row_count,
            sample_ratio: None,
            top_n_value: None,
            date_bin_granularity: None,
            distribution_preserved: true,
            warning_message: None,
            reduction_steps: Vec::new(),
        }
    }

    /// `original` rows were aggregated into `returned` groups.
    pub fn aggregated(original: usize, returned: usize) -> (r: ReductionMetadata)
        ensures
            r.reduced,
            r.reduction_reason == ReductionReason::AutoAggregation,
            r.original_row_estimate == original,
            r.returned_points == returned,
            r.sample_ratio is None,
            r.top_n_value is None,
            r.date_bin_granularity is None,
            r.distribution_preserved,
            r.warning_message matches Some(w) && w@ == aggregated_warning(original as nat, returned as nat),
            r.reduction_steps@.len() == 1,
            r.reduction_steps@[0].step_type == ReductionReason::AutoAggregation,
            r.reduction_steps@[0].input_rows == original,
            r.reduction_steps@[0].output_rows == returned,
            r.reduction_steps@[0].description@ == "Auto-aggregation applied"@,
    {
        let mut w = String::from_str("Data was automatically aggregated from ");
        w.append(format_number(original).as_str());
        w.append(" to ");
        w.append(format_number(returned).as_str());
        w.append(" groups");
        let mut steps: Vec<ReductionStep> = Vec::new();
        steps.push(
            ReductionStep {
                step_type: ReductionReason::AutoAggregation,
                input_rows: original,
                output_rows: returned,
                description: String::from_str("Auto-aggregation applied"),
            },
        );
        proof {
            reveal_strlit("Data was automatically aggregated from ");
            reveal_strlit(" to ");
            reveal_strlit(" groups");
            reveal_strlit("Auto-aggregation applied");
            assert(w@ =~= aggregated_warning(original as nat, returned as nat));
        }
        ReductionMetadata {
            reduced: true,
            reduction_reason: ReductionReason::AutoAggregation,
            original_row_estimate: original,
            returned_points: returned,
            sample_ratio: None,
            top_n_value: None,
            date_bin_granularity: None,
            distribution_preserved: true,
            warning_message: Some(w),
            reduction_steps: steps,
        }
    }

    /// `returned` of `original` rows were kept by sampling at `ratio`.
    pub fn sampled(original: usize, returned: usize, ratio: Ratio) -> (r: ReductionMetadata)
        requires
            ratio.den > 0,
        ensures
            r.reduced,
            r.reduction_reason == ReductionReason::Sampling,
            r.original_row_estimate == original,
            r.returned_points == returned,
            r.sample_ratio == Some(ratio),
            r.top_n_value is None,
            r.date_bin_granularity is None,
            r.distribution_preserved,
            r.warning_message matches Some(w) && w@ == sampled_warning(original as nat, returned as nat, ratio),
            r.reduction_steps@.len() == 1,
            r.reduction_steps@[0].step_type == ReductionReason::Sampling,
            r.reduction_steps@[0].input_rows == original,
            r.reduction_steps@[0].output_rows == returned,
            r.reduction_steps@[0].description@ == sampled_description(ratio),
    {
        let pct = percent(ratio);
        let mut w = String::from_str("Showing ");
        w.append(pct.as_str());
        w.append("% sample (");
        w.append(format_number(returned).as_str());
        w.append(" of ");
        w.append(format_number(original).as_str());
        w.append(" rows) for performance");
        let mut d = String::from_str("Deterministic sampling at ");
        d.append(pct.as_str());
        d.append("% ratio");
        proof {
            reveal_strlit("Showing ");
            reveal_strlit("% sample (");
            reveal_strlit(" of ");
            reveal_strlit(" rows) for performance");
            reveal_strlit("Deterministic sampling at ");
            reveal_strlit("% ratio");
            assert(w@ =~= sampled_warning(original as nat, returned as nat, ratio));
            assert(d@ =~= sampled_description(ratio));
        }
        let mut steps: Vec<ReductionStep> = Vec::new();
        steps.push(
            ReductionStep {
                step_type: ReductionReason::Sampling,
                input_rows: original,
                output_rows: returned,
                description: d,
            },
        );
        ReductionMetadata {
            reduced: true,
            reduction_reason: ReductionReason::Sampling,
            original_row_estimate: original,
            returned_points: returned,
            sample_ratio: Some(ratio),
            top_n_value: None,
            date_bin_granularity: None,
            distribution_preserved: true,
            warning_message: Some(w),
            reduction_steps: steps,
        }
    }

    /// `original` categories were cut to the top `n`, plus an Others bucket when `has_others`.
    pub fn top_n(original: usize, n: usize, has_others: bool) -> (r: ReductionMetadata)
        requires
            n < usize::MAX,
        ensures
            r.reduced,
            r.reduction_reason == ReductionReason::TopN,
            r.original_row_estimate == original,
            r.returned_points == if has_others { n + 1 } else { n as int },
            r.sample_ratio is None,
            r.top_n_value == Some(n),
            r.date_bin_granularity is None,
            r.distribution_preserved,
            r.warning_message matches Some(w) && w@ == top_n_warning(original as nat, n as nat, has_others),
            r.reduction_steps@.len() == 1,
            r.reduction_steps@[0].step_type == ReductionReason::TopN,
            r.reduction_steps@[0].input_rows == original,
            r.reduction_steps@[0].output_rows == r.returned_points,
            r.reduction_steps@[0].description@ == top_n_description(n as nat),
    {
        let returned = if has_others { n + 1 } else { n };
        let mut w = String::from_str("Showing top ");
        w.append(to_decimal(n as u128).as_str());
        w.append(" categories");
        if has_others {
            w.append(" (+ Others)");
        }
        w.append(" from ");
        w.append(format_number(original).as_str());
        w.append(" unique values");
        let mut d = String::from_str("Top-");
        d.append(to_decimal(n as u128).as_str());
        d.append(" with Others bucket");
        proof {
            reveal_strlit("Showing top ");
            reveal_strlit(" categories");
            reveal_strlit(" (+ Others)");
            reveal_strlit(" from ");
            reveal_strlit(" unique values");
            reveal_strlit("Top-");
            reveal_strlit(" with Others bucket");
            assert(w@ =~= top_n_warning(original as nat, n as nat, has_others));
            assert(d@ =~= top_n_description(n as nat));
        }
        let mut steps: Vec<ReductionStep> = Vec::new();
        steps.push(
            ReductionStep {
                step_type: ReductionReason::TopN,
                input_rows: original,
                output_rows: returned,
                description: d,
            },
        );
        ReductionMetadata {
            reduced: true,
            reduction_reason: ReductionReason::TopN,
            original_row_estimate: original,
            returned_points: returned,
            sample_ratio: None,
            top_n_value: Some(n),
            date_bin_granularity: None,
            distribution_preserved: true,
            warning_message: Some(w),
            reduction_steps: steps,
        }
    }

    /// Appends a step; with more than one step the reason becomes `Combined`.
    pub fn add_step(&mut self, step: ReductionStep)
        ensures
            final(self).reduction_steps@ == old(self).reduction_steps@.push(step),
            final(self).reduction_reason == if final(self).reduction_steps@.len() > 1 {
                ReductionReason::Combined
            } else {
                old(self).reduction_reason
            },
            final(self).reduced == old(self).reduced,
            final(self).original_row_estimate == old(self).original_row_estimate,
            final(self).returned_points == old(self).returned_points,
            final(self).sample_ratio == old(self).sample_ratio,
            final(self).top_n_value == old(self).top_n_value,
            final(self).date_bin_granularity == old(self).date_bin_granularity,
            final(self).distribution_preserved == old(self).distribution_preserved,
            final(self).warning_message == old(self).warning_message,
    {
        self.reduction_steps.push(step);
        if self.reduction_steps.len() > 1 {
            self.reduction_reason = ReductionReason::Combined;
        }
    }

    /// Folds in the reductions of `other`, if it reduced anything: its steps follow ours,
    /// its ratio, Top-N value and granularity replace ours where it has them.
    pub fn merge(&mut self, other: ReductionMetadata)
        ensures
            !other.reduced ==> *final(self) == *old(self),
            other.reduced ==> ({
                let s = *final(self);
                &&& s.reduced
                &&& s.reduction_steps@ == old(self).reduction_steps@ + other.reduction_steps@
                &&& s.sample_ratio == if other.sample_ratio is Some {
                    other.sample_ratio
                } else {
                    old(self).sample_ratio
                }
                &&& s.top_n_value == if other.top_n_value is Some {
                    other.top_n_value
                } else {
                    old(self).top_n_value
                }
                &&& s.date_bin_granularity == if other.date_bin_granularity is Some {
                    other.date_bin_granularity
                } else {
                    old(self).date_bin_granularity
                }
                &&& s.reduction_reason == if s.reduction_steps@.len() > 1 {
                    ReductionReason::Combined
                } else {
                    old(self).reduction_reason
                }
                &&& s.original_row_estimate == old(self).original_row_estimate
                &&& s.returned_points == old(self).returned_points
                &&& s.distribution_preserved == old(self).distribution_preserved
                &&& s.warning_message == old(self).warning_message
            }),
    {
        if other.reduced {
            self.reduced = true;
            let mut steps = other.reduction_steps;
            self.reduction_steps.append(&mut steps);
            if let Some(ratio) = other.sample_ratio {
                self.sample_ratio = Some(ratio);
            }
            if let Some(n) = other.top_n_value {
                self.top_n_value = Some(n);
            }
            if let Some(g) = other.date_bin_granularity {
                self.date_bin_granularity = Some(g);
            }
            if self.reduction_steps.len() > 1 {
                self.reduction_reason = ReductionReason::Combined;
            }
        }
    }
}

/// Chart metadata together with the reductions applied.
#[derive(Debug)]
pub struct ExtendedChartMetadata {
    pub title: String,
    pub x_label: String,
    pub y_label: String,
    pub total_records: usize,
    pub reduction: ReductionMetadata,
    /// Whether data was reduced, as in `reduction`.
    pub data_reduced: bool,
    /// The warning of `reduction`.
    pub warning: Option<String>,
}

impl ExtendedChartMetadata {
    pub fn new(
        title: String,
        x_label: String,
        y_label: String,
        total_records: usize,
        reduction: ReductionMetadata,
    ) -> (r: ExtendedChartMetadata)
        ensures
            r.title == title,
            r.x_label == x_label,
            r.y_label == y_label,
            r.total_records == total_records,
            r.data_reduced == reduction.reduced,
            r.warning == reduction.warning_message,
            r.reduction == reduction,
    {
        let data_reduced = reduction.reduced;
        let warning = match &reduction.warning_message {
            Some(w) => Some(w.clone()),
            None => None,
        };
        ExtendedChartMetadata { title, x_label, y_label, total_records, reduction, data_reduced, warning }
    }
}

/// How many distinct values a field has, in tiers.
#[derive(Clone, Copy, PartialEq, Eq, Structural, Debug)]
pub enum CardinalityLevel {
    /// Under ten distinct values.
    Low,
    /// Ten up to a hundred.
    Medium,
    /// Up to a thousand.
    High,
    /// More than a thousand.
    VeryHigh,
    /// A numeric, non-calendar field.
    Continuous,
}

/// What a field's cardinality calls for.
#[derive(Debug)]
pub enum CardinalityAction {
    NoAction,
    ApplyTopN(usize),
    ApplyBinning(usize),
    ApplyDateBinning(DateBinGranularity),
    ApplySampling(Ratio),
    BlockWithWarning(String),
}

/// The cardinality analysis of one field.
#[derive(Debug)]
pub struct CardinalityInfo {
    pub column_name: String,
    /// Distinct values, estimated for large fields.
    pub unique_count: usize,
    pub total_count: usize,
    pub cardinality_level: CardinalityLevel,
    pub is_numeric: bool,
    pub is_datetime: bool,
    /// Nulls among the values read.
    pub null_count: usize,
    pub recommended_action: CardinalityAction,
}

/// The tier of a field with `unique` distinct values.
pub open spec fn level_for(unique: int, is_numeric: bool, is_datetime: bool) -> CardinalityLevel {
    if is_numeric && !is_datetime {
        CardinalityLevel::Continuous
    } else if unique < 10 {
        CardinalityLevel::Low
    } else if unique <= 100 {
        CardinalityLevel::Medium
    } else if unique <= HIGH_CARDINALITY_THRESHOLD {
        CardinalityLevel::High
    } else {
        CardinalityLevel::VeryHigh
    }
}

/// The recommendation for a tier. Continuous fields above the point ceiling get
/// `ceil(sqrt(total_rows))` bins capped at 100, which is always the cap there.
pub open spec fn action_for(level: CardinalityLevel, is_datetime: bool, unique: int, total_rows: int) -> CardinalityAction {
    match level {
        CardinalityLevel::Low | CardinalityLevel::Medium => CardinalityAction::NoAction,
        CardinalityLevel::High => if is_datetime {
            CardinalityAction::ApplyDateBinning(DateBinGranularity::Month)
        } else {
            CardinalityAction::ApplyTopN(DEFAULT_TOP_N)
        },
        CardinalityLevel::VeryHigh => if is_datetime {
            CardinalityAction::ApplyDateBinning(
                if unique > 10_000 {
                    DateBinGranularity::Year
                } else if unique > 1_000 {
                    DateBinGranularity::Month
                } else {
                    DateBinGranularity::Day
                },
            )
        } else {
            CardinalityAction::ApplyTopN(DEFAULT_TOP_N)
        },
        CardinalityLevel::Continuous => if is_datetime {
            CardinalityAction::ApplyDateBinning(DateBinGranularity::Month)
        } else if total_rows > MAX_VISUAL_POINTS {
            CardinalityAction::ApplyBinning(MAX_NUMERIC_BINS)
        } else {
            CardinalityAction::NoAction
        },
    }
}

/// `floor(log2(q))`, zero below two.
pub open spec fn log2_floor(q: nat) -> nat
    decreases q,
{
    if q < 2 {
        0
    } else {
        1 + log2_floor(q / 2)
    }
}

/// The extrapolation factor, in thousandths: `ln(total / sample)` approximated by
/// `ln 2 * floor(log2(total / sample))`, and never under one.
pub open spec fn growth_permille(total_rows: nat) -> nat {
    let f = 693 * log2_floor(total_rows / (CARDINALITY_SAMPLE_SIZE as nat));
    if f < 1000 { 1000 } else { f }
}

/// The values read to estimate cardinality: the first 10,000 when there are more rows.
pub open spec fn sampled_values(vals: Seq<CellView>, total_rows: int) -> Seq<CellView> {
    if total_rows > CARDINALITY_SAMPLE_SIZE && vals.len() > CARDINALITY_SAMPLE_SIZE {
        vals.take(CARDINALITY_SAMPLE_SIZE as int)
    } else {
        vals
    }
}

/// Nulls among `vals`.
pub open spec fn null_count(vals: Seq<CellView>) -> nat
    decreases vals.len(),
{
    if vals.len() == 0 {
        0
    } else {
        null_count(vals.drop_last()) + if vals.last() is Null { 1nat } else { 0nat }
    }
}

/// The estimated distinct count: exact up to 10,000 rows, otherwise the sample's distinct
/// count scaled by the growth factor and rounded up.
pub open spec fn estimated_unique(vals: Seq<CellView>, total_rows: int) -> int {
    let u = distinct_values(sampled_values(vals, total_rows)).len() as int;
    if total_rows > CARDINALITY_SAMPLE_SIZE {
        (u * growth_permille(total_rows as nat) + 999) / 1000
    } else {
        u
    }
}

fn log2_floor_exec(q: usize) -> (r: usize)
    ensures
        r == log2_floor(q as nat),
        r < 64,
    decreases q,
{
    proof {
        reveal_with_fuel(pow2, 65);
        assert(pow2(64) == 0x1_0000_0000_0000_0000);
        lemma_log2_bound(q as nat, 64);
    }
    if q < 2 {
        0
    } else {
        let r = log2_floor_exec(q / 2);
        1 + r
    }
}

proof fn lemma_log2_bound(q: nat, k: nat)
    requires
        q < pow2(k),
    ensures
        log2_floor(q) < k || q < 2 && k == 0,
    decreases q,
{
    reveal_with_fuel(pow2, 2);
    if q >= 2 {
        if k >= 1 {
            lemma_log2_bound(q / 2, (k - 1) as nat);
        }
    } else if k >= 1 {
    }
}

pub open spec fn pow2(k: nat) -> nat
    decreases k,
{
    if k == 0 {
        1
    } else {
        2 * pow2((k - 1) as nat)
    }
}

impl CardinalityInfo {
    /// Analyses a field whose values are `vals` in a dataset of `total_rows` rows.
    pub fn estimate(field: &Field, vals: &Vec<Cell>, total_rows: usize) -> (r: CardinalityInfo)
        ensures
            r.column_name@ == field.name@,
            r.unique_count == estimated_unique(cells_view(vals@), total_rows as int),
            r.total_count == total_rows,
            r.is_numeric == field.kind.spec_is_numeric(),
            r.is_datetime == field.kind.spec_is_datetime(),
            r.null_count == null_count(sampled_values(cells_view(vals@), total_rows as int)),
            r.cardinality_level == level_for(r.unique_count as int, r.is_numeric, r.is_datetime),
            r.recommended_action == action_for(r.cardinality_level, r.is_datetime, r.unique_count as int, total_rows as int),
    {
        let is_numeric = field.kind.is_numeric();
        let is_datetime = field.kind.is_datetime();
        let ghost vv = cells_view(vals@);
        let mut head: Vec<Cell> = Vec::new();
        let limit: usize = if total_rows > CARDINALITY_SAMPLE_SIZE && vals.len() > CARDINALITY_SAMPLE_SIZE {
            CARDINALITY_SAMPLE_SIZE
        } else {
            vals.len()
        };
        let mut i: usize = 0;
        while i < limit
            invariant
                limit <= vals@.len(),
                i <= limit,
                head@.len() == i,
                forall|k: int| 0 <= k < i ==> #[trigger] head@[k]@ == vals@[k]@,
            decreases limit - i,
        {
            head.push(vals[i].duplicate());
            i = i + 1;
        }
        assert(cells_view(head@) =~= sampled_values(vv, total_rows as int));
        let keys = distinct_cells(&head);
        let u = keys.len();
        assert(u <= head@.len()) by {
            lemma_distinct_len(cells_view(head@));
        }
        let ghost hv = cells_view(head@);
        let mut nulls: usize = 0;
        let mut k: usize = 0;
        while k < head.len()
            invariant
                k <= head@.len(),
                nulls <= k,
                hv == cells_view(head@),
                nulls == null_count(hv.take(k as int)),
            decreases head@.len() - k,
        {
            assert(hv.take(k + 1).drop_last() =~= hv.take(k as int));
            assert(hv.take(k + 1).last() == head@[k as int]@);
            if head[k].is_null() {
                nulls = nulls + 1;
            }
            k = k + 1;
        }
        assert(hv.take(head@.len() as int) =~= hv);
        let unique = if total_rows > CARDINALITY_SAMPLE_SIZE {
            assert(u <= 10_000);
            let l = log2_floor_exec(total_rows / CARDINALITY_SAMPLE_SIZE);
            let f = if 693 * l < 1000 { 1000 } else { 693 * l };
            assert(u * f <= 10_000 * 43_659) by (nonlinear_arith)
                requires
                    u <= 10_000,
                    f <= 43_659,
            ;
            (u * f + 999) / 1000
        } else {
            u
        };
        let level = if is_numeric && !is_datetime {
            CardinalityLevel::Continuous
        } else if unique < 10 {
            CardinalityLevel::Low
        } else if unique <= 100 {
            CardinalityLevel::Medium
        } else if unique <= HIGH_CARDINALITY_THRESHOLD {
            CardinalityLevel::High
        } else {
            CardinalityLevel::VeryHigh
        };
        let action = Self::determine_action(level, is_numeric, is_datetime, unique, total_rows);
        CardinalityInfo {
            column_name: field.name.clone(),
            unique_count: unique,
            total_count: total_rows,
            cardinality_level: level,
            is_numeric,
            is_datetime,
            null_count: nulls,
            recommended_action: action,
        }
    }

    /// The recommendation for a tier: see `action_for`.
    pub fn determine_action(
        level: CardinalityLevel,
        is_numeric: bool,
        is_datetime: bool,
        unique_count: usize,
        total_rows: usize,
    ) -> (r: CardinalityAction)
        ensures
            r == action_for(level, is_datetime, unique_count as int, total_rows as int),
    {
        match level {
            CardinalityLevel::Low | CardinalityLevel::Medium => CardinalityAction::NoAction,
            CardinalityLevel::High => {
                if is_datetime {
                    CardinalityAction::ApplyDateBinning(DateBinGranularity::Month)
                } else {
                    CardinalityAction::ApplyTopN(DEFAULT_TOP_N)
                }
            },
            CardinalityLevel::VeryHigh => {
                if is_datetime {
                    let g = if unique_count > 10_000 {
                        DateBinGranularity::Year
                    } else if unique_count > 1_000 {
                        DateBinGranularity::Month
                    } else {
                        DateBinGranularity::Day
                    };
                    CardinalityAction::ApplyDateBinning(g)
                } else {
                    CardinalityAction::ApplyTopN(DEFAULT_TOP_N)
                }
            },
            CardinalityLevel::Continuous => {
                if is_datetime {
                    CardinalityAction::ApplyDateBinning(DateBinGranularity::Month)
                } else if total_rows > MAX_VISUAL_POINTS {
                    CardinalityAction::ApplyBinning(MAX_NUMERIC_BINS)
                } else {
                    CardinalityAction::NoAction
                }
            },
        }
    }
}

/// A sequence has at most as many distinct values as entries.
pub proof fn lemma_distinct_len(s: Seq<CellView>)
    ensures
        distinct_values(s).len() <= s.len(),
    decreases s.len(),
{
    if s.len() > 0 {
        lemma_distinct_len(s.drop_last());
    }
}

/// The safety policy of a chart family.
#[derive(Debug)]
pub struct ChartSafetyConfig {
    /// Points the chart may render.
    pub max_points: usize,
    /// Raw rows are never shown: the data must be aggregated.
    pub requires_aggregation: bool,
    /// Sampling may reduce raw rows.
    pub allows_sampling: bool,
    pub supports_pagination: bool,
    pub max_bins: usize,
    /// The family's name in messages.
    pub chart_type_name: String,
}

/// `c` is the policy with these settings.
pub open spec fn is_policy(
    c: ChartSafetyConfig,
    max_points: usize,
    requires_aggregation: bool,
    allows_sampling: bool,
    supports_pagination: bool,
    max_bins: usize,
    name: Seq<char>,
) -> bool {
    &&& c.max_points == max_points
    &&& c.requires_aggregation == requires_aggregation
    &&& c.allows_sampling == allows_sampling
    &&& c.supports_pagination == supports_pagination
    &&& c.max_bins == max_bins
    &&& c.chart_type_name@ == name
}

pub open spec fn is_bar_policy(c: ChartSafetyConfig) -> bool {
    is_policy(c, DEFAULT_BAR_LINE_LIMIT, true, false, false, 500, "Bar chart"@)
}

pub open spec fn is_line_policy(c: ChartSafetyConfig) -> bool {
    is_policy(c, DEFAULT_BAR_LINE_LIMIT, true, false, false, 1000, "Line chart"@)
}

pub open spec fn is_area_policy(c: ChartSafetyConfig) -> bool {
    is_policy(c, DEFAULT_BAR_LINE_LIMIT, true, false, false, 500, "Area chart"@)
}

pub open spec fn is_pie_policy(c: ChartSafetyConfig) -> bool {
    is_policy(c, 20, true, false, false, 20, "Pie chart"@)
}

pub open spec fn is_scatter_policy(c: ChartSafetyConfig) -> bool {
    is_policy(c, DEFAULT_SCATTER_LIMIT, false, true, false, 0, "Scatter plot"@)
}

pub open spec fn is_heatmap_policy(c: ChartSafetyConfig) -> bool {
    is_policy(c, 10_000, true, false, false, 100, "Heatmap"@)
}

pub open spec fn is_table_policy(c: ChartSafetyConfig) -> bool {
    is_policy(c, DEFAULT_TABLE_PAGE_SIZE, false, false, true, 0, "Table"@)
}

/// The policy of a requested chart family.
pub open spec fn is_policy_for(c: ChartSafetyConfig, ct: ChartType) -> bool {
    match ct {
        ChartType::Bar => is_bar_policy(c),
        ChartType::Line => is_line_policy(c),
        ChartType::Area => is_area_policy(c),
        ChartType::Pie => is_pie_policy(c),
        ChartType::Scatter => is_scatter_policy(c),
    }
}

/// The policy for a lower-case family name; unknown names get the bar policy.
pub open spec fn is_policy_named(c: ChartSafetyConfig, name: Seq<char>) -> bool {
    if name == "line"@ {
        is_line_policy(c)
    } else if name == "area"@ {
        is_area_policy(c)
    } else if name == "pie"@ {
        is_pie_policy(c)
    } else if name == "scatter"@ {
        is_scatter_policy(c)
    } else if name == "heatmap"@ {
        is_heatmap_policy(c)
    } else if name == "table"@ {
        is_table_policy(c)
    } else {
        is_bar_policy(c)
    }
}

/// What `str::to_lowercase` gives for a string.
pub uninterp spec fn lowercase_of(s: Seq<char>) -> Seq<char>;

/// Relies on `str::to_lowercase`: its result depends on the characters alone.
#[verifier::external_body]
fn lowercase(s: &str) -> (r: String)
    ensures
        r@ == lowercase_of(s@),
{
    s.to_lowercase()
}

impl ChartSafetyConfig {
    /// Bar charts: always aggregated, never sampled, 500 points.
    pub fn bar() -> (r: ChartSafetyConfig)
        ensures
            is_bar_policy(r),
    {
        proof {
            reveal_strlit("Bar chart");
        }
        ChartSafetyConfig {
            max_points: DEFAULT_BAR_LINE_LIMIT,
            requires_aggregation: true,
            allows_sampling: false,
            supports_pagination: false,
            max_bins: 500,
            chart_type_name: String::from_str("Bar chart"),
        }
    }

    /// Line charts: always aggregated, 500 points.
    pub fn line() -> (r: ChartSafetyConfig)
        ensures
            is_line_policy(r),
    {
        proof {
            reveal_strlit("Line chart");
        }
        ChartSafetyConfig {
            max_points: DEFAULT_BAR_LINE_LIMIT,
            requires_aggregation: true,
            allows_sampling: false,
            supports_pagination: false,
            max_bins: 1000,
            chart_type_name: String::from_str("Line chart"),
        }
    }

    /// Area charts: always aggregated, 500 points.
    pub fn area() -> (r: ChartSafetyConfig)
        ensures
            is_area_policy(r),
    {
        proof {
            reveal_strlit("Area chart");
        }
        ChartSafetyConfig {
            max_points: DEFAULT_BAR_LINE_LIMIT,
            requires_aggregation: true,
            allows_sampling: false,
            supports_pagination: false,
            max_bins: 500,
            chart_type_name: String::from_str("Area chart"),
        }
    }

    /// Pie charts: always aggregated, 20 slices.
    pub fn pie() -> (r: ChartSafetyConfig)
        ensures
            is_pie_policy(r),
    {
        proof {
            reveal_strlit("Pie chart");
        }
        ChartSafetyConfig {
            max_points: 20,
            requires_aggregation: true,
            allows_sampling: false,
            supports_pagination: false,
            max_bins: 20,
            chart_type_name: String::from_str("Pie chart"),
        }
    }

    /// Scatter plots: raw points, sampled to 10,000.
    pub fn scatter() -> (r: ChartSafetyConfig)
        ensures
            is_scatter_policy(r),
    {
        proof {
            reveal_strlit("Scatter plot");
        }
        ChartSafetyConfig {
            max_points: DEFAULT_SCATTER_LIMIT,
            requires_aggregation: false,
            allows_sampling: true,
            supports_pagination: false,
            max_bins: 0,
            chart_type_name: String::from_str("Scatter plot"),
        }
    }

    /// Heatmaps: binned on both axes, a 100 by 100 grid at most.
    pub fn heatmap() -> (r: ChartSafetyConfig)
        ensures
            is_heatmap_policy(r),
    {
        proof {
            reveal_strlit("Heatmap");
        }
        ChartSafetyConfig {
            max_points: 10_000,
            requires_aggregation: true,
            allows_sampling: false,
            supports_pagination: false,
            max_bins: 100,
            chart_type_name: String::from_str("Heatmap"),
        }
    }

    /// Tables: paginated, 100 rows a page.
    pub fn table() -> (r: ChartSafetyConfig)
        ensures
            is_table_policy(r),
    {
        proof {
            reveal_strlit("Table");
        }
        ChartSafetyConfig {
            max_points: DEFAULT_TABLE_PAGE_SIZE,
            requires_aggregation: false,
            allows_sampling: false,
            supports_pagination: true,
            max_bins: 0,
            chart_type_name: String::from_str("Table"),
        }
    }

    /// The policy of a requested chart family.
    pub fn for_chart(ct: ChartType) -> (r: ChartSafetyConfig)
        ensures
            is_policy_for(r, ct),
    {
        match ct {
            ChartType::Bar => Self::bar(),
            ChartType::Line => Self::line(),
            ChartType::Area => Self::area(),
            ChartType::Pie => Self::pie(),
            ChartType::Scatter => Self::scatter(),
        }
    }

    /// The policy for an already lower-cased family name; unknown names get the bar
    /// policy, the safest.
    pub fn for_lowercase_name(name: &String) -> (r: ChartSafetyConfig)
        ensures
            is_policy_named(r, name@),
    {
        proof {
            reveal_strlit("line");
            reveal_strlit("area");
            reveal_strlit("pie");
            reveal_strlit("scatter");
            reveal_strlit("heatmap");
            reveal_strlit("table");
        }
        if *name == String::from_str("line") {
            Self::line()
        } else if *name == String::from_str("area") {
            Self::area()
        } else if *name == String::from_str("pie") {
            Self::pie()
        } else if *name == String::from_str("scatter") {
            Self::scatter()
        } else if *name == String::from_str("heatmap") {
            Self::heatmap()
        } else if *name == String::from_str("table") {
            Self::table()
        } else {
            Self::bar()
        }
    }

    /// The policy for a family name in any letter case.
    pub fn for_chart_type(chart_type: &str) -> (r: ChartSafetyConfig)
        ensures
            is_policy_named(r, lowercase_of(chart_type@)),
    {
        let lower = lowercase(chart_type);
        Self::for_lowercase_name(&lower)
    }
}

/// The memory estimate of a query.
#[derive(Debug)]
pub struct MemorySafetyCheck {
    pub estimated_bytes: usize,
    pub is_safe: bool,
    pub recommendation: String,
}

/// Bytes of `rows` by `columns` cells, saturating at the largest `usize`.
pub open spec fn estimated_bytes(rows: int, columns: int) -> int {
    let b = rows * columns * ESTIMATED_BYTES_PER_ROW;
    if b > usize::MAX { usize::MAX as int } else { b }
}

pub open spec fn over_budget_message(bytes: int) -> Seq<char> {
    "Query would use ~"@ + decimal((bytes / 1_048_576) as nat)
        + "MB, exceeding 100MB budget. Apply aggregation or sampling."@
}

impl MemorySafetyCheck {
    /// Estimates the memory of `row_count` rows of `column_count` columns. Informational:
    /// within the 100 MB budget or not.
    pub fn estimate(row_count: usize, column_count: usize) -> (r: MemorySafetyCheck)
        ensures
            r.estimated_bytes == estimated_bytes(row_count as int, column_count as int),
            r.is_safe == (r.estimated_bytes < MAX_MEMORY_BUDGET),
            r.is_safe ==> r.recommendation@ == "Query is within memory budget"@,
            !r.is_safe ==> r.recommendation@ == over_budget_message(r.estimated_bytes as int),
    {
        assert((row_count as int) * (column_count as int) <= 0xffff_ffff_ffff_ffff * 0xffff_ffff_ffff_ffff) by (nonlinear_arith)
            requires
                0 <= row_count <= 0xffff_ffff_ffff_ffff,
                0 <= column_count <= 0xffff_ffff_ffff_ffff,
        ;
        let cells = (row_count as u128) * (column_count as u128);
        let bytes: usize = if cells > (usize::MAX as u128) / 256 {
            usize::MAX
        } else {
            (cells * 256) as usize
        };
        let is_safe = bytes < MAX_MEMORY_BUDGET;
        proof {
            reveal_strlit("Query is within memory budget");
            reveal_strlit("Query would use ~");
            reveal_strlit("MB, exceeding 100MB budget. Apply aggregation or sampling.");
        }
        let recommendation = if is_safe {
            String::from_str("Query is within memory budget")
        } else {
            let mut m = String::from_str("Query would use ~");
            m.append(to_decimal((bytes / 1_048_576) as u128).as_str());
            m.append("MB, exceeding 100MB budget. Apply aggregation or sampling.");
            m
        };
        MemorySafetyCheck { estimated_bytes: bytes, is_safe, recommendation }
    }
}

/// Progressive-disclosure state of a zoomable chart.
#[derive(Debug)]
pub struct ZoomContext {
    /// Zoom in thousandths: 0 is the full view, 1000 the most detail (above 1000 counts as 1000).
    pub zoom_permille: u32,
    /// Start of the visible range.
    pub range_start: Option<i64>,
    /// End of the visible range.
    pub range_end: Option<i64>,
    pub selected_categories: Option<Vec<String>>,
}

/// The zoom level, clamped to 1000.
pub open spec fn clamped_zoom(z: int) -> int {
    if z > 1000 { 1000 } else { z }
}

/// The point budget at zoom `z`: 20% of `base` at zoom 0 growing linearly to all of it at
/// zoom 1000, rounded up.
pub open spec fn zoom_limit(base: int, z: int) -> int {
    ceil_div_spec(base * (1000 + 4 * clamped_zoom(z)), 5000)
}

pub open spec fn ceil_div_spec(a: int, b: int) -> int {
    (a + b - 1) / b
}

impl ZoomContext {
    /// The point budget at this zoom: see `zoom_limit`.
    pub fn calculate_point_limit(&self, base_limit: usize) -> (r: usize)
        ensures
            r == zoom_limit(base_limit as int, self.zoom_permille as int),
            r <= base_limit,
    {
        let z: u128 = if self.zoom_permille > 1000 { 1000 } else { self.zoom_permille as u128 };
        assert((base_limit as int) * (1000 + 4 * z) <= 0xffff_ffff_ffff_ffff * 5000) by (nonlinear_arith)
            requires
                0 <= base_limit <= 0xffff_ffff_ffff_ffff,
                0 <= z <= 1000,
        ;
        let num = (base_limit as u128) * (1000 + 4 * z);
        let r = (num + 4999) / 5000;
        assert(r <= base_limit) by {
            assert(num <= (base_limit as int) * 5000) by (nonlinear_arith)
                requires
                    num == (base_limit as int) * (1000 + 4 * z),
                    z <= 1000,
                    base_limit >= 0,
            ;
            vstd::arithmetic::div_mod::lemma_div_is_ordered((num + 4999) as int, (base_limit * 5000 + 4999) as int, 5000);
            vstd::arithmetic::div_mod::lemma_fundamental_div_mod_converse((base_limit * 5000 + 4999) as int, 5000, base_limit as int, 4999);
        }
        r as usize
    }

    /// The full view: zoom 0, no range, no selection.
    pub fn default_view() -> (r: ZoomContext)
        ensures
            r.zoom_permille == 0,
            r.range_start is None,
            r.range_end is None,
            r.selected_categories is None,
    {
        ZoomContext { zoom_permille: 0, range_start: None, range_end: None, selected_categories: None }
    }
}

/// Whether a column type is numeric.
pub fn is_numeric_dtype(dtype: ColumnKind) -> (r: bool)
    ensures
        r == dtype.spec_is_numeric(),
{
    dtype.is_numeric()
}

/// Whether a column type is a calendar type.
pub fn is_datetime_dtype(dtype: ColumnKind) -> (r: bool)
    ensures
        r == dtype.spec_is_datetime(),
{
    dtype.is_datetime()
}

/// Summaries the engine can infer for a field.
#[derive(Clone, Copy, PartialEq, Eq, Structural, Debug)]
pub enum InferredAggregationType {
    Sum,
    Average,
    Count,
    Min,
    Max,
    CountDistinct,
}

/// An inferred summary of a field, with a description for the user.
#[derive(Debug)]
pub struct InferredAggregation {
    pub aggregation_type: InferredAggregationType,
    pub group_by_field: Option<String>,
    pub measure_field: String,
    pub description: String,
}

impl InferredAggregation {
    /// A numeric measure is summed.
    pub fn infer_for_numeric(field_name: &str) -> (r: InferredAggregation)
        ensures
            r.aggregation_type == InferredAggregationType::Sum,
            r.group_by_field is None,
            r.measure_field@ == field_name@,
            r.description@ == "Sum of "@ + field_name@,
    {
        proof {
            reveal_strlit("Sum of ");
        }
        let mut d = String::from_str("Sum of ");
        d.append(field_name);
        InferredAggregation {
            aggregation_type: InferredAggregationType::Sum,
            group_by_field: None,
            measure_field: String::from_str(field_name),
            description: d,
        }
    }

    /// A date field is counted per date bin.
    pub fn infer_for_date(field_name: &str, granularity: DateBinGranularity) -> (r: InferredAggregation)
        ensures
            r.aggregation_type == InferredAggregationType::Count,
            r.group_by_field matches Some(g) && g@ == field_name@,
            r.measure_field@ == field_name@,
            r.description@ == "Count by "@ + crate::planner::granularity_name(granularity),
    {
        proof {
            reveal_strlit("Count by ");
        }
        let mut d = String::from_str("Count by ");
        d.append(crate::planner::granularity_text(granularity).as_str());
        InferredAggregation {
            aggregation_type: InferredAggregationType::Count,
            group_by_field: Some(String::from_str(field_name)),
            measure_field: String::from_str(field_name),
            description: d,
        }
    }

    /// A high-cardinality categorical field is counted, keeping its top `top_n` values.
    pub fn infer_for_categorical(field_name: &str, top_n: usize) -> (r: InferredAggregation)
        ensures
            r.aggregation_type == InferredAggregationType::Count,
            r.group_by_field matches Some(g) && g@ == field_name@,
            r.measure_field@ == field_name@,
            r.description@ == "Top "@ + decimal(top_n as nat) + " "@ + field_name@ + " by count"@,
    {
        proof {
            reveal_strlit("Top ");
            reveal_strlit(" ");
            reveal_strlit(" by count");
        }
        let mut d = String::from_str("Top ");
        d.append(to_decimal(top_n as u128).as_str());
        d.append(" ");
        d.append(field_name);
        d.append(" by count");
        InferredAggregation {
            aggregation_type: InferredAggregationType::Count,
            group_by_field: Some(String::from_str(field_name)),
            measure_field: String::from_str(field_name),
            description: d,
        }
    }
}

impl Default for ReductionMetadata {
    /// Nothing reduced, nothing counted.
    fn default() -> (r: ReductionMetadata)
        ensures
            !r.reduced,
            r.reduction_reason == ReductionReason::NoReduction,
            r.original_row_estimate == 0,
            r.returned_points == 0,
            r.reduction_steps@.len() == 0,
            r.warning_message is None,
    {
        ReductionMetadata::no_reduction(0)
    }
}

} // verus!
