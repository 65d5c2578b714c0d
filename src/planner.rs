//! The query planner: from a dataset and a request to an ordered, explained plan.

use vstd::prelude::*;
use vstd::string::*;
use crate::aggregate::column_cells;
use crate::error::DataError;
use crate::filter::{first_index, has_column, literal_cell, locate};
use crate::model::{CellView, Dataset};
use crate::safety::{
    action_for, estimated_unique, is_policy_for, level_for, percent_text, sampled_description,
    zoom_limit, CardinalityAction, CardinalityInfo, ChartSafetyConfig, Ratio, ReductionMetadata,
    ReductionReason, ReductionStep, ZoomContext, DEFAULT_TOP_N, MAX_VISUAL_POINTS, SAMPLING_SEED,
    percent,
};
use crate::text::{decimal, grouped, joined, format_number, to_decimal};
use crate::types::{
    AggregationType, DateBinGranularity, FilterOperator, FilterSpec, FilterValue, SortField,
    SortOrder, VisualizationSpec,
};

verus! {

/// One step of a plan. The list order is the execution order.
#[derive(Debug)]
pub enum Transformation {
    /// Keep the rows that pass every filter.
    Filter(Vec<FilterSpec>),
    /// Replace a calendar column by its bin.
    DateBin { column: String, granularity: DateBinGranularity },
    /// Replace a numeric column by its bin.
    NumericBin { column: String, bin_count: usize },
    /// Group by one column and summarise another into `value`.
    Aggregate { group_by: String, measure: String, aggregation: AggregationType },
    /// Keep the `n` largest groups, the rest summed into "Others" when asked.
    TopN { column: String, n: usize, include_others: bool },
    /// Deterministic sampling to a target row count.
    Sample { target_rows: usize, seed: u64 },
    /// Keep the first rows only.
    Limit(usize),
    /// Sort by a column.
    Sort { column: String, descending: bool },
}

/// A filter as values.
pub struct FilterView {
    pub column: Seq<char>,
    pub operator: FilterOperator,
    pub value: CellView,
}

pub open spec fn filter_view(f: FilterSpec) -> FilterView {
    FilterView { column: f.column@, operator: f.operator, value: literal_cell(f.value) }
}

pub open spec fn filters_view(fs: Seq<FilterSpec>) -> Seq<FilterView> {
    fs.map_values(|f: FilterSpec| filter_view(f))
}

/// A plan step as values.
pub enum StepView {
    Filter(Seq<FilterView>),
    DateBin(Seq<char>, DateBinGranularity),
    NumericBin(Seq<char>, nat),
    Aggregate(Seq<char>, Seq<char>, AggregationType),
    TopN(Seq<char>, nat, bool),
    Sample(nat, u64),
    Limit(nat),
    Sort(Seq<char>, bool),
}

impl View for Transformation {
    type V = StepView;

    open spec fn view(&self) -> StepView {
        match self {
            Transformation::Filter(fs) => StepView::Filter(filters_view(fs@)),
            Transformation::DateBin { column, granularity } => StepView::DateBin(column@, *granularity),
            Transformation::NumericBin { column, bin_count } => StepView::NumericBin(column@, *bin_count as nat),
            Transformation::Aggregate { group_by, measure, aggregation } => StepView::Aggregate(
                group_by@,
                measure@,
                *aggregation,
            ),
            Transformation::TopN { column, n, include_others } => StepView::TopN(column@, *n as nat, *include_others),
            Transformation::Sample { target_rows, seed } => StepView::Sample(*target_rows as nat, *seed),
            Transformation::Limit(n) => StepView::Limit(*n as nat),
            Transformation::Sort { column, descending } => StepView::Sort(column@, *descending),
        }
    }
}

pub open spec fn steps_view(ts: Seq<Transformation>) -> Seq<StepView> {
    ts.map_values(|t: Transformation| t@)
}

/// A reduction step as values.
pub struct RecordView {
    pub step_type: ReductionReason,
    pub input_rows: nat,
    pub output_rows: nat,
    pub description: Seq<char>,
}

pub open spec fn record_view(s: ReductionStep) -> RecordView {
    RecordView {
        step_type: s.step_type,
        input_rows: s.input_rows as nat,
        output_rows: s.output_rows as nat,
        description: s.description@,
    }
}

pub open spec fn records_view(s: Seq<ReductionStep>) -> Seq<RecordView> {
    s.map_values(|r: ReductionStep| record_view(r))
}

/// The planner's output: the ordered steps, the policy applied and the expected reductions.
#[derive(Debug)]
pub struct ExecutionPlan {
    pub original_row_count: usize,
    pub safety_config: ChartSafetyConfig,
    pub transformations: Vec<Transformation>,
    pub reduction_metadata: ReductionMetadata,
    /// A plan that is not safe has no steps and must not run.
    pub is_safe: bool,
    pub blocking_reason: Option<String>,
    /// Cardinality of the X field, then of the Y field.
    pub cardinality_info: Vec<CardinalityInfo>,
}

impl ExecutionPlan {
    /// An unsafe plan, refused for `reason`.
    pub fn blocked(reason: String, row_count: usize) -> (r: ExecutionPlan)
        ensures
            !r.is_safe,
            r.blocking_reason matches Some(b) && b@ == reason@,
            r.transformations@.len() == 0,
            r.original_row_count == row_count,
            r.reduction_metadata.returned_points == row_count,
            !r.reduction_metadata.reduced,
    {
        ExecutionPlan {
            original_row_count: row_count,
            safety_config: ChartSafetyConfig::bar(),
            transformations: Vec::new(),
            reduction_metadata: ReductionMetadata::no_reduction(row_count),
            is_safe: false,
            blocking_reason: Some(reason),
            cardinality_info: Vec::new(),
        }
    }

    /// A plan has no steps unless it is safe.
    pub open spec fn wf(&self) -> bool {
        !self.is_safe ==> self.transformations@.len() == 0
    }
}

/// The planner, with the zoom that scales sampling budgets.
#[derive(Debug)]
pub struct QueryPlanner {
    zoom_context: ZoomContext,
}

/// The facts a plan is decided from.
pub struct PlanFacts {
    /// Rows of the dataset.
    pub rows: nat,
    /// Estimated distinct values of the X field.
    pub x_unique: nat,
    pub x_is_datetime: bool,
    pub x_action: CardinalityAction,
    pub max_points: nat,
    pub requires_aggregation: bool,
    pub allows_sampling: bool,
    /// The zoom-scaled sampling target.
    pub zoom_target: nat,
}

pub open spec fn needs_aggregation(f: PlanFacts) -> bool {
    f.requires_aggregation || f.x_unique > f.max_points
}

/// Rows or groups before Top-N: groups when aggregating, rows otherwise.
pub open spec fn effective_cardinality(f: PlanFacts) -> nat {
    if needs_aggregation(f) { f.x_unique } else { f.rows }
}

pub open spec fn applies_top_n(f: PlanFacts) -> bool {
    effective_cardinality(f) > f.max_points
}

/// Groups kept by Top-N: the recommended N (20 when none is recommended), capped at the
/// policy's points.
pub open spec fn top_n_size(f: PlanFacts) -> nat {
    let k: nat = match f.x_action {
        CardinalityAction::ApplyTopN(k) => k as nat,
        _ => DEFAULT_TOP_N as nat,
    };
    if k < f.max_points { k } else { f.max_points }
}

pub open spec fn applies_sampling(f: PlanFacts) -> bool {
    f.allows_sampling && !needs_aggregation(f) && f.rows > f.max_points
}

pub open spec fn date_bin_of(f: PlanFacts) -> Option<DateBinGranularity> {
    if f.x_is_datetime {
        match f.x_action {
            CardinalityAction::ApplyDateBinning(g) => Some(g),
            _ => None,
        }
    } else {
        None
    }
}

/// The groups the aggregation is expected to give.
pub open spec fn estimated_groups(f: PlanFacts) -> nat {
    if f.x_unique < f.rows { f.x_unique } else { f.rows }
}

/// The final cap: the policy's points, never above the global ceiling.
pub open spec fn final_limit(f: PlanFacts) -> nat {
    if f.max_points < MAX_VISUAL_POINTS { f.max_points } else { MAX_VISUAL_POINTS as nat }
}

pub open spec fn if_step<A>(b: bool, a: A) -> Seq<A> {
    if b { seq![a] } else { Seq::empty() }
}

pub open spec fn sort_column(spec: VisualizationSpec) -> Seq<char> {
    if spec.sort_by is X { spec.x_field@ } else { "value"@ }
}

/// The steps of the plan, in order: filters first, then date binning, aggregation, Top-N,
/// sampling and sorting as they apply, and always the final cap last.
pub open spec fn planned_steps(f: PlanFacts, spec: VisualizationSpec) -> Seq<StepView> {
    if_step(spec.filters@.len() > 0, StepView::Filter(filters_view(spec.filters@)))
        + if_step(date_bin_of(f) is Some, StepView::DateBin(spec.x_field@, date_bin_of(f)->Some_0))
        + if_step(needs_aggregation(f), StepView::Aggregate(spec.x_field@, spec.y_field@, spec.aggregation))
        + if_step(applies_top_n(f), StepView::TopN(spec.x_field@, top_n_size(f), true))
        + if_step(applies_sampling(f), StepView::Sample(f.zoom_target, SAMPLING_SEED))
        + if_step(!(spec.sort_by is Unsorted), StepView::Sort(sort_column(spec), spec.sort_order is Desc))
        + seq![StepView::Limit(final_limit(f))]
}

pub open spec fn granularity_name(g: DateBinGranularity) -> Seq<char> {
    match g {
        DateBinGranularity::Year => "Year"@,
        DateBinGranularity::Quarter => "Quarter"@,
        DateBinGranularity::Month => "Month"@,
        DateBinGranularity::Week => "Week"@,
        DateBinGranularity::Day => "Day"@,
        DateBinGranularity::Hour => "Hour"@,
    }
}

pub open spec fn granularity_lower(g: DateBinGranularity) -> Seq<char> {
    match g {
        DateBinGranularity::Year => "year"@,
        DateBinGranularity::Quarter => "quarter"@,
        DateBinGranularity::Month => "month"@,
        DateBinGranularity::Week => "week"@,
        DateBinGranularity::Day => "day"@,
        DateBinGranularity::Hour => "hour"@,
    }
}

pub open spec fn sample_ratio_of(f: PlanFacts) -> Ratio {
    Ratio { num: f.zoom_target as usize, den: f.rows as usize }
}

/// The reductions the plan records, in order.
pub open spec fn planned_records(f: PlanFacts) -> Seq<RecordView> {
    if_step(
        date_bin_of(f) is Some,
        RecordView {
            step_type: ReductionReason::DateBinning,
            input_rows: f.rows,
            output_rows: f.rows,
            description: "Date binned to "@ + granularity_name(date_bin_of(f)->Some_0),
        },
    ) + if_step(
        needs_aggregation(f),
        RecordView {
            step_type: ReductionReason::AutoAggregation,
            input_rows: f.rows,
            output_rows: estimated_groups(f),
            description: "Auto-aggregation applied"@,
        },
    ) + if_step(
        applies_top_n(f),
        RecordView {
            step_type: ReductionReason::TopN,
            input_rows: effective_cardinality(f),
            output_rows: top_n_size(f) + 1,
            description: "Top-"@ + decimal(top_n_size(f)) + if f.x_action is ApplyTopN {
                " with Others"@
            } else {
                " with Others (safety limit)"@
            },
        },
    ) + if_step(
        applies_sampling(f),
        RecordView {
            step_type: ReductionReason::Sampling,
            input_rows: f.rows,
            output_rows: f.zoom_target,
            description: sampled_description(sample_ratio_of(f)),
        },
    )
}

/// The part of the warning that one recorded reduction contributes.
pub open spec fn warning_part(
    r: RecordView,
    ratio: Option<Ratio>,
    top_n: Option<usize>,
    gran: Option<DateBinGranularity>,
) -> Seq<Seq<char>> {
    match r.step_type {
        ReductionReason::AutoAggregation => seq![
            "aggregated from "@ + grouped(r.input_rows) + " to "@ + grouped(r.output_rows) + " groups"@,
        ],
        ReductionReason::Sampling => match ratio {
            Some(q) => seq![
                "sampled "@ + percent_text(q.num as int, q.den as int) + "% ("@ + grouped(r.output_rows)
                    + " points)"@,
            ],
            None => Seq::empty(),
        },
        ReductionReason::TopN => match top_n {
            Some(n) => seq!["showing top "@ + decimal(n as nat) + " categories"@],
            None => Seq::empty(),
        },
        ReductionReason::DateBinning => match gran {
            Some(g) => seq!["dates binned by "@ + granularity_lower(g)],
            None => Seq::empty(),
        },
        _ => Seq::empty(),
    }
}

pub open spec fn warning_parts(
    rs: Seq<RecordView>,
    ratio: Option<Ratio>,
    top_n: Option<usize>,
    gran: Option<DateBinGranularity>,
) -> Seq<Seq<char>>
    decreases rs.len(),
{
    if rs.len() == 0 {
        Seq::empty()
    } else {
        warning_parts(rs.drop_last(), ratio, top_n, gran) + warning_part(rs.last(), ratio, top_n, gran)
    }
}

/// The warning summarising recorded reductions.
pub open spec fn warning_text(
    rs: Seq<RecordView>,
    ratio: Option<Ratio>,
    top_n: Option<usize>,
    gran: Option<DateBinGranularity>,
) -> Seq<char> {
    let parts = warning_parts(rs, ratio, top_n, gran);
    if parts.len() == 0 {
        "Data was reduced for performance"@
    } else {
        "Data was "@ + joined(parts)
    }
}

/// Whether the plan reduces what is shown: some reduction is recorded, and it is not a lone
/// aggregation into no more groups than the policy's points.
pub open spec fn reduces(f: PlanFacts) -> bool {
    let rs = planned_records(f);
    rs.len() > 0 && !(rs.len() == 1 && needs_aggregation(f) && estimated_groups(f) <= f.max_points)
}

/// The plan's metadata is what the facts call for.
pub open spec fn planned_metadata(m: ReductionMetadata, f: PlanFacts) -> bool {
    let rs = planned_records(f);
    let ratio = if applies_sampling(f) { Some(sample_ratio_of(f)) } else { None };
    let top_n = if applies_top_n(f) { Some(top_n_size(f) as usize) } else { None };
    let gran = date_bin_of(f);
    &&& records_view(m.reduction_steps@) == rs
    &&& m.reduced == reduces(f)
    &&& m.reduction_reason == if rs.len() > 1 {
        ReductionReason::Combined
    } else if reduces(f) {
        rs[0].step_type
    } else {
        ReductionReason::NoReduction
    }
    &&& m.original_row_estimate == f.rows
    &&& m.returned_points == if applies_sampling(f) {
        f.zoom_target
    } else if needs_aggregation(f) {
        estimated_groups(f)
    } else {
        f.rows
    }
    &&& m.sample_ratio == ratio
    &&& m.top_n_value == top_n
    &&& m.date_bin_granularity == gran
    &&& m.distribution_preserved
    &&& if reduces(f) {
        m.warning_message matches Some(w) && w@ == warning_text(rs, ratio, top_n, gran)
    } else {
        m.warning_message is None
    }
}

/// The points of a chart family.
pub open spec fn chart_max_points(ct: crate::types::ChartType) -> nat {
    match ct {
        crate::types::ChartType::Pie => 20,
        crate::types::ChartType::Scatter => 10_000,
        _ => 500,
    }
}

/// The facts the planner reads from a dataset and a request.
pub open spec fn facts_of(ds: &Dataset, spec: VisualizationSpec, zoom: int) -> PlanFacts {
    let n = ds.rows@.len();
    let xc = first_index(ds, spec.x_field@);
    let kind = ds.fields@[xc].kind;
    let u = estimated_unique(ds.column_view(xc), n as int);
    let is_dt = kind.spec_is_datetime();
    let mp = chart_max_points(spec.chart_type);
    PlanFacts {
        rows: n,
        x_unique: u as nat,
        x_is_datetime: is_dt,
        x_action: action_for(level_for(u, kind.spec_is_numeric(), is_dt), is_dt, u, n as int),
        max_points: mp,
        requires_aggregation: !(spec.chart_type is Scatter),
        allows_sampling: spec.chart_type is Scatter,
        zoom_target: zoom_limit(mp as int, zoom) as nat,
    }
}

pub fn granularity_text(g: DateBinGranularity) -> (r: String)
    ensures
        r@ == granularity_name(g),
{
    proof {
        reveal_strlit("Year");
        reveal_strlit("Quarter");
        reveal_strlit("Month");
        reveal_strlit("Week");
        reveal_strlit("Day");
        reveal_strlit("Hour");
    }
    String::from_str(
        match g {
            DateBinGranularity::Year => "Year",
            DateBinGranularity::Quarter => "Quarter",
            DateBinGranularity::Month => "Month",
            DateBinGranularity::Week => "Week",
            DateBinGranularity::Day => "Day",
            DateBinGranularity::Hour => "Hour",
        },
    )
}

fn granularity_lower_text(g: DateBinGranularity) -> (r: String)
    ensures
        r@ == granularity_lower(g),
{
    proof {
        reveal_strlit("year");
        reveal_strlit("quarter");
        reveal_strlit("month");
        reveal_strlit("week");
        reveal_strlit("day");
        reveal_strlit("hour");
    }
    String::from_str(
        match g {
            DateBinGranularity::Year => "year",
            DateBinGranularity::Quarter => "quarter",
            DateBinGranularity::Month => "month",
            DateBinGranularity::Week => "week",
            DateBinGranularity::Day => "day",
            DateBinGranularity::Hour => "hour",
        },
    )
}

/// A copy of a filter list.
pub fn copy_filters(fs: &Vec<FilterSpec>) -> (r: Vec<FilterSpec>)
    ensures
        filters_view(r@) == filters_view(fs@),
        r@.len() == fs@.len(),
{
    let mut r: Vec<FilterSpec> = Vec::new();
    let mut i: usize = 0;
    while i < fs.len()
        invariant
            i <= fs@.len(),
            r@.len() == i,
            forall|k: int| 0 <= k < i ==> #[trigger] filter_view(r@[k]) == filter_view(fs@[k]),
        decreases fs@.len() - i,
    {
        let f = &fs[i];
        let value = match &f.value {
            FilterValue::Null => FilterValue::Null,
            FilterValue::Int(v) => FilterValue::Int(*v),
            FilterValue::Bool(b) => FilterValue::Bool(*b),
            FilterValue::Text(t) => FilterValue::Text(t.clone()),
        };
        r.push(FilterSpec { column: f.column.clone(), operator: f.operator, value });
        i = i + 1;
    }
    assert(filters_view(r@) =~= filters_view(fs@));
    r
}

fn warning_piece(
    r: &ReductionStep,
    ratio: Option<Ratio>,
    top_n: Option<usize>,
    gran: Option<DateBinGranularity>,
) -> (p: Option<String>)
    requires
        ratio matches Some(q) ==> q.den > 0,
    ensures
        warning_part(record_view(*r), ratio, top_n, gran) == match p {
            Some(s) => seq![s@],
            None => Seq::<Seq<char>>::empty(),
        },
{
    proof {
        reveal_strlit("aggregated from ");
        reveal_strlit(" to ");
        reveal_strlit(" groups");
        reveal_strlit("sampled ");
        reveal_strlit("% (");
        reveal_strlit(" points)");
        reveal_strlit("showing top ");
        reveal_strlit(" categories");
        reveal_strlit("dates binned by ");
    }
    match r.step_type {
        ReductionReason::AutoAggregation => {
            let mut s = String::from_str("aggregated from ");
            s.append(format_number(r.input_rows).as_str());
            s.append(" to ");
            s.append(format_number(r.output_rows).as_str());
            s.append(" groups");
            Some(s)
        },
        ReductionReason::Sampling => match ratio {
            Some(q) => {
                let mut s = String::from_str("sampled ");
                s.append(percent(q).as_str());
                s.append("% (");
                s.append(format_number(r.output_rows).as_str());
                s.append(" points)");
                Some(s)
            },
            None => None,
        },
        ReductionReason::TopN => match top_n {
            Some(n) => {
                let mut s = String::from_str("showing top ");
                s.append(to_decimal(n as u128).as_str());
                s.append(" categories");
                Some(s)
            },
            None => None,
        },
        ReductionReason::DateBinning => match gran {
            Some(g) => {
                let mut s = String::from_str("dates binned by ");
                s.append(granularity_lower_text(g).as_str());
                Some(s)
            },
            None => None,
        },
        _ => None,
    }
}

/// `info` is the cardinality analysis of the column named `name` of `ds`.
pub open spec fn card_ok(info: CardinalityInfo, ds: &Dataset, name: Seq<char>) -> bool {
    let c = first_index(ds, name);
    let n = ds.rows@.len() as int;
    let vals = ds.column_view(c);
    let kind = ds.fields@[c].kind;
    &&& info.column_name@ == name
    &&& info.unique_count == estimated_unique(vals, n)
    &&& info.total_count == n
    &&& info.is_numeric == kind.spec_is_numeric()
    &&& info.is_datetime == kind.spec_is_datetime()
    &&& info.null_count == crate::safety::null_count(crate::safety::sampled_values(vals, n))
    &&& info.cardinality_level == level_for(info.unique_count as int, info.is_numeric, info.is_datetime)
    &&& info.recommended_action == action_for(info.cardinality_level, info.is_datetime, info.unique_count as int, n)
}

/// `p` is the plan of `spec` over `ds` at zoom `zoom`.
pub open spec fn plan_ok(p: ExecutionPlan, ds: &Dataset, spec: VisualizationSpec, zoom: int) -> bool {
    &&& p.wf()
    &&& p.is_safe
    &&& p.blocking_reason is None
    &&& p.original_row_count == ds.rows@.len()
    &&& is_policy_for(p.safety_config, spec.chart_type)
    &&& steps_view(p.transformations@) == planned_steps(facts_of(ds, spec, zoom), spec)
    &&& planned_metadata(p.reduction_metadata, facts_of(ds, spec, zoom))
    &&& p.cardinality_info@.len() == 2
    &&& card_ok(p.cardinality_info@[0], ds, spec.x_field@)
    &&& card_ok(p.cardinality_info@[1], ds, spec.y_field@)
}

/// The exec values of the plan decisions agree with the facts.
pub open spec fn decisions_match(
    f: PlanFacts,
    gran: Option<DateBinGranularity>,
    needs_agg: bool,
    eff: usize,
    top: bool,
    k: usize,
    sampling: bool,
    target: usize,
    est: usize,
    limit: usize,
) -> bool {
    &&& gran == date_bin_of(f)
    &&& needs_agg == needs_aggregation(f)
    &&& eff == effective_cardinality(f)
    &&& top == applies_top_n(f)
    &&& k == top_n_size(f)
    &&& k <= 10_000
    &&& sampling == applies_sampling(f)
    &&& target == f.zoom_target
    &&& est == estimated_groups(f)
    &&& limit == final_limit(f)
}

fn push_when(ts: &mut Vec<Transformation>, b: bool, t: Transformation)
    ensures
        steps_view(final(ts)@) == steps_view(old(ts)@) + if_step(b, t@),
{
    let ghost before = ts@;
    if b {
        ts.push(t);
        assert(steps_view(ts@) =~= steps_view(before) + if_step(b, t@));
    } else {
        assert(steps_view(ts@) =~= steps_view(before) + if_step(b, t@));
    }
}

fn build_steps(
    spec: &VisualizationSpec,
    Ghost(f): Ghost<PlanFacts>,
    gran: Option<DateBinGranularity>,
    needs_agg: bool,
    top: bool,
    k: usize,
    sampling: bool,
    target: usize,
    limit: usize,
) -> (ts: Vec<Transformation>)
    requires
        gran == date_bin_of(f),
        needs_agg == needs_aggregation(f),
        top == applies_top_n(f),
        k == top_n_size(f),
        sampling == applies_sampling(f),
        target == f.zoom_target,
        limit == final_limit(f),
    ensures
        steps_view(ts@) == planned_steps(f, *spec),
{
    proof {
        reveal_strlit("value");
    }
    let mut ts: Vec<Transformation> = Vec::new();
    assert(steps_view(ts@) =~= Seq::<StepView>::empty());
    push_when(&mut ts, spec.filters.len() > 0, Transformation::Filter(copy_filters(&spec.filters)));
    let g = match gran {
        Some(g) => g,
        None => DateBinGranularity::Day,
    };
    push_when(&mut ts, gran.is_some(), Transformation::DateBin { column: spec.x_field.clone(), granularity: g });
    push_when(
        &mut ts,
        needs_agg,
        Transformation::Aggregate {
            group_by: spec.x_field.clone(),
            measure: spec.y_field.clone(),
            aggregation: spec.aggregation,
        },
    );
    push_when(&mut ts, top, Transformation::TopN { column: spec.x_field.clone(), n: k, include_others: true });
    push_when(&mut ts, sampling, Transformation::Sample { target_rows: target, seed: SAMPLING_SEED });
    let descending = matches!(spec.sort_order, SortOrder::Desc);
    let column = match spec.sort_by {
        SortField::X => spec.x_field.clone(),
        _ => String::from_str("value"),
    };
    push_when(&mut ts, !matches!(spec.sort_by, SortField::Unsorted), Transformation::Sort { column, descending });
    let ghost before = ts@;
    ts.push(Transformation::Limit(limit));
    assert(steps_view(ts@) =~= steps_view(before) + seq![StepView::Limit(final_limit(f))]);
    assert(Seq::<StepView>::empty() + if_step(spec.filters@.len() > 0, StepView::Filter(filters_view(spec.filters@)))
        =~= if_step(spec.filters@.len() > 0, StepView::Filter(filters_view(spec.filters@))));
    ts
}

fn build_records(
    Ghost(f): Ghost<PlanFacts>,
    n: usize,
    gran: Option<DateBinGranularity>,
    needs_agg: bool,
    eff: usize,
    top: bool,
    k: usize,
    suffix_default: bool,
    sampling: bool,
    target: usize,
    est: usize,
) -> (rs: Vec<ReductionStep>)
    requires
        n == f.rows,
        gran == date_bin_of(f),
        needs_agg == needs_aggregation(f),
        eff == effective_cardinality(f),
        top == applies_top_n(f),
        k == top_n_size(f),
        k <= 10_000,
        suffix_default == !(f.x_action is ApplyTopN),
        sampling == applies_sampling(f),
        sampling ==> n > 0,
        target == f.zoom_target,
        est == estimated_groups(f),
    ensures
        records_view(rs@) == planned_records(f),
{
    proof {
        reveal_strlit("Date binned to ");
        reveal_strlit("Auto-aggregation applied");
        reveal_strlit("Top-");
        reveal_strlit(" with Others");
        reveal_strlit(" with Others (safety limit)");
        reveal_strlit("Deterministic sampling at ");
        reveal_strlit("% ratio");
    }
    let mut rs: Vec<ReductionStep> = Vec::new();
    if let Some(g) = gran {
        let mut d = String::from_str("Date binned to ");
        d.append(granularity_text(g).as_str());
        rs.push(ReductionStep { step_type: ReductionReason::DateBinning, input_rows: n, output_rows: n, description: d });
    }
    let ghost r1 = rs@;
    if needs_agg {
        rs.push(
            ReductionStep {
                step_type: ReductionReason::AutoAggregation,
                input_rows: n,
                output_rows: est,
                description: String::from_str("Auto-aggregation applied"),
            },
        );
    }
    let ghost r2 = rs@;
    if top {
        let mut d = String::from_str("Top-");
        d.append(to_decimal(k as u128).as_str());
        if suffix_default {
            d.append(" with Others (safety limit)");
        } else {
            d.append(" with Others");
        }
        rs.push(ReductionStep { step_type: ReductionReason::TopN, input_rows: eff, output_rows: k + 1, description: d });
    }
    let ghost r3 = rs@;
    if sampling {
        let ratio = Ratio { num: target, den: n };
        let mut d = String::from_str("Deterministic sampling at ");
        d.append(percent(ratio).as_str());
        d.append("% ratio");
        rs.push(ReductionStep { step_type: ReductionReason::Sampling, input_rows: n, output_rows: target, description: d });
    }
    assert(records_view(rs@) =~= planned_records(f));
    rs
}

impl Default for QueryPlanner {
    fn default() -> (r: QueryPlanner)
        ensures
            r.zoom() == 0,
    {
        QueryPlanner::new()
    }
}

impl QueryPlanner {
    /// A planner for the full view.
    pub fn new() -> (r: QueryPlanner)
        ensures
            r.zoom() == 0,
    {
        QueryPlanner { zoom_context: ZoomContext::default_view() }
    }

    /// A planner whose sampling budget follows `zoom_context`.
    pub fn with_zoom(zoom_context: ZoomContext) -> (r: QueryPlanner)
        ensures
            r.zoom() == zoom_context.zoom_permille,
    {
        QueryPlanner { zoom_context }
    }

    pub closed spec fn zoom(&self) -> int {
        self.zoom_context.zoom_permille as int
    }

    /// Plans a request against a dataset, without touching the data.
    ///
    /// Fails with `ColumnNotFound` when the X or the Y field is missing. Otherwise the plan
    /// is safe; its steps are `planned_steps` and its expected reductions
    /// `planned_metadata`, both of the facts read from the dataset (`facts_of`).
    pub fn plan(&self, ds: &Dataset, spec: &VisualizationSpec) -> (r: Result<ExecutionPlan, DataError>)
        requires
            ds.wf(),
        ensures
            !has_column(ds, spec.x_field@) ==> (r matches Err(DataError::ColumnNotFound { column, available })
                && column@ == spec.x_field@ && available@ == joined(ds.names())),
            has_column(ds, spec.x_field@) && !has_column(ds, spec.y_field@) ==> (r matches Err(
                DataError::ColumnNotFound { column, available },
            ) && column@ == spec.y_field@ && available@ == joined(ds.names())),
            has_column(ds, spec.x_field@) && has_column(ds, spec.y_field@) && crate::executor::filter_all(
                crate::executor::table_of(ds),
                filters_view(spec.filters@),
            ) is None ==> (r matches Err(e) && (e is ColumnNotFound || e is ParseError)),
            has_column(ds, spec.x_field@) && has_column(ds, spec.y_field@) && crate::executor::filter_all(
                crate::executor::table_of(ds),
                filters_view(spec.filters@),
            ) is Some ==> (r matches Ok(p) && plan_ok(p, ds, *spec, self.zoom())),
    {
        let n = ds.height();
        let config = ChartSafetyConfig::for_chart(spec.chart_type);
        let xc = match locate(ds, &spec.x_field) {
            Ok(c) => c,
            Err(e) => return Err(e),
        };
        let yc = match locate(ds, &spec.y_field) {
            Ok(c) => c,
            Err(e) => return Err(e),
        };
        match crate::executor::check_filters(ds, &spec.filters) {
            Ok(()) => {},
            Err(e) => return Err(e),
        }
        let xcells = column_cells(ds, xc);
        let x_info = CardinalityInfo::estimate(&ds.fields[xc], &xcells, n);
        let ycells = column_cells(ds, yc);
        let y_info = CardinalityInfo::estimate(&ds.fields[yc], &ycells, n);
        let ghost f = facts_of(ds, *spec, self.zoom());
        let mp = config.max_points;
        let needs_agg = config.requires_aggregation || x_info.unique_count > mp;
        let eff = if needs_agg { x_info.unique_count } else { n };
        let top = eff > mp;
        let (k, suffix_default) = match &x_info.recommended_action {
            CardinalityAction::ApplyTopN(k) => (if *k < mp { *k } else { mp }, false),
            _ => (if DEFAULT_TOP_N < mp { DEFAULT_TOP_N } else { mp }, true),
        };
        let sampling = config.allows_sampling && !needs_agg && n > mp;
        let target = self.zoom_context.calculate_point_limit(mp);
        let gran: Option<DateBinGranularity> = if x_info.is_datetime {
            match &x_info.recommended_action {
                CardinalityAction::ApplyDateBinning(g) => Some(*g),
                _ => None,
            }
        } else {
            None
        };
        let est = if x_info.unique_count < n { x_info.unique_count } else { n };
        let limit = if mp < MAX_VISUAL_POINTS { mp } else { MAX_VISUAL_POINTS };
        assert(decisions_match(f, gran, needs_agg, eff, top, k, sampling, target, est, limit));
        let transformations = build_steps(spec, Ghost(f), gran, needs_agg, top, k, sampling, target, limit);
        let steps = build_records(Ghost(f), n, gran, needs_agg, eff, top, k, suffix_default, sampling, target, est);
        let count = steps.len();
        let reduced = count > 0 && !(count == 1 && needs_agg && est <= mp);
        let reason = if count > 1 {
            ReductionReason::Combined
        } else if reduced {
            steps[0].step_type
        } else {
            ReductionReason::NoReduction
        };
        let returned = if sampling { target } else if needs_agg { est } else { n };
        let mut meta = ReductionMetadata {
            reduced,
            reduction_reason: reason,
            original_row_estimate: n,
            returned_points: returned,
            sample_ratio: if sampling { Some(Ratio { num: target, den: n }) } else { None },
            top_n_value: if top { Some(k) } else { None },
            date_bin_granularity: gran,
            distribution_preserved: true,
            warning_message: None,
            reduction_steps: steps,
        };
        assert(records_view(meta.reduction_steps@) == planned_records(f));
        if reduced {
            let w = self.generate_warning_message(&meta);
            meta.warning_message = Some(w);
        }
        let mut info: Vec<CardinalityInfo> = Vec::new();
        info.push(x_info);
        info.push(y_info);
        Ok(
            ExecutionPlan {
                original_row_count: n,
                safety_config: config,
                transformations,
                reduction_metadata: meta,
                is_safe: true,
                blocking_reason: None,
                cardinality_info: info,
            },
        )
    }

    /// The warning that summarises the recorded reductions of `meta`.
    pub fn generate_warning_message(&self, meta: &ReductionMetadata) -> (r: String)
        requires
            meta.sample_ratio matches Some(q) ==> q.den > 0,
        ensures
            r@ == warning_text(
                records_view(meta.reduction_steps@),
                meta.sample_ratio,
                meta.top_n_value,
                meta.date_bin_granularity,
            ),
    {
        let ghost rs = records_view(meta.reduction_steps@);
        let mut parts: Vec<String> = Vec::new();
        let mut i: usize = 0;
        while i < meta.reduction_steps.len()
            invariant
                meta.sample_ratio matches Some(q) ==> q.den > 0,
                i <= meta.reduction_steps@.len(),
                rs == records_view(meta.reduction_steps@),
                parts@.map_values(|s: String| s@) == warning_parts(
                    rs.take(i as int),
                    meta.sample_ratio,
                    meta.top_n_value,
                    meta.date_bin_granularity,
                ),
            decreases meta.reduction_steps@.len() - i,
        {
            assert(rs.take(i + 1).drop_last() =~= rs.take(i as int));
            assert(rs.take(i + 1).last() == record_view(meta.reduction_steps@[i as int]));
            let ghost before = parts@;
            match warning_piece(&meta.reduction_steps[i], meta.sample_ratio, meta.top_n_value, meta.date_bin_granularity) {
                Some(p) => {
                    parts.push(p);
                    assert(parts@.map_values(|s: String| s@) =~= before.map_values(|s: String| s@) + seq![parts@[before.len() as int]@]);
                },
                None => {
                    assert(parts@.map_values(|s: String| s@) =~= before.map_values(|s: String| s@) + Seq::<Seq<char>>::empty());
                },
            }
            i = i + 1;
        }
        assert(rs.take(meta.reduction_steps@.len() as int) =~= rs);
        let ghost pv = parts@.map_values(|s: String| s@);
        proof {
            reveal_strlit("Data was reduced for performance");
            reveal_strlit("Data was ");
            reveal_strlit(", ");
        }
        if parts.len() == 0 {
            return String::from_str("Data was reduced for performance");
        }
        let mut out = String::from_str("Data was ");
        let mut j: usize = 0;
        while j < parts.len()
            invariant
                j <= parts@.len(),
                pv == parts@.map_values(|s: String| s@),
                out@ == "Data was "@ + joined(pv.take(j as int)),
            decreases parts@.len() - j,
        {
            assert(pv.take(j + 1).drop_last() =~= pv.take(j as int));
            assert(pv.take(j + 1).last() == parts@[j as int]@);
            if j > 0 {
                out.append(", ");
            } else {
                assert(joined(pv.take(0)) =~= Seq::<char>::empty());
            }
            out.append(parts[j].as_str());
            proof {
                reveal_strlit(", ");
                if j > 0 {
                    assert(out@ =~= "Data was "@ + joined(pv.take(j + 1)));
                } else {
                    assert(out@ =~= "Data was "@ + joined(pv.take(j + 1)));
                }
            }
            j = j + 1;
        }
        assert(pv.take(parts@.len() as int) =~= pv);
        out
    }
}

} // verus!
