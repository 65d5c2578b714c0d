//! The request-facing queries: aggregated charts, scatter plots, paginated tables and
//! zoom-aware progressive charts.

use vstd::prelude::*;
use vstd::string::*;
use crate::error::DataError;
use crate::executor::{apply_filters, execution_ok, filter_all, sort_table, table_of, PlanExecutor};
use crate::filter::{first_index, has_column, locate};
use crate::model::{Cell, CellView, Dataset, Timestamp, cells_view};
use crate::planner::{copy_filters, plan_ok, QueryPlanner};
use crate::safety::{
    percent, percent_text, Ratio, ReductionReason, ZoomContext, DEFAULT_SCATTER_LIMIT,
    MAX_VISUAL_POINTS,
};
use crate::samplers::scatter_sample;
use crate::sampling::systematic_pick;
use crate::text::{decimal, format_number, grouped, to_decimal};
use crate::binning::padded;
use crate::types::{AggregationType, ChartType, FilterOperator, FilterSpec, FilterValue, VisualizationSpec};

verus! {

/// Rows of one table page at most.
pub const MAX_PAGE_SIZE: usize = 1000;

/// Datasets larger than this get a pagination advisory.
pub const LARGE_DATASET_ROWS: usize = 100_000;

/// One series of a chart.
#[derive(Debug)]
pub struct ChartDataset {
    pub label: String,
    /// One value per label; `None` where there is no value.
    pub data: Vec<Option<i64>>,
    pub color: Option<String>,
}

/// What a chart shows and how its data was reduced.
#[derive(Debug)]
pub struct ChartMetadata {
    pub title: String,
    pub x_label: String,
    pub y_label: String,
    pub total_records: usize,
    pub reduced: bool,
    /// `auto-aggregation`, `sampling`, `top-n`, `date-binning`, `combined` or `none`.
    pub reduction_reason: String,
    pub original_row_estimate: usize,
    pub returned_points: usize,
    pub sample_ratio: Option<Ratio>,
    pub top_n_value: Option<usize>,
    pub warning_message: Option<String>,
}

/// A chart: labels, series and metadata.
#[derive(Debug)]
pub struct ChartData {
    pub labels: Vec<String>,
    pub datasets: Vec<ChartDataset>,
    pub metadata: ChartMetadata,
}

/// One page of a table.
#[derive(Debug)]
pub struct TableData {
    pub rows: Vec<Vec<Cell>>,
    /// Rows after filtering.
    pub total_rows: usize,
    pub page: usize,
    /// The page size used, at most 1000.
    pub page_size: usize,
    pub total_pages: usize,
    pub warning: Option<String>,
}

pub open spec fn reason_name(r: ReductionReason) -> Seq<char> {
    match r {
        ReductionReason::AutoAggregation => "auto-aggregation"@,
        ReductionReason::Sampling => "sampling"@,
        ReductionReason::TopN => "top-n"@,
        ReductionReason::DateBinning => "date-binning"@,
        ReductionReason::Combined => "combined"@,
        ReductionReason::NoReduction => "none"@,
    }
}

pub fn reason_text(r: ReductionReason) -> (s: String)
    ensures
        s@ == reason_name(r),
{
    proof {
        reveal_strlit("auto-aggregation");
        reveal_strlit("sampling");
        reveal_strlit("top-n");
        reveal_strlit("date-binning");
        reveal_strlit("combined");
        reveal_strlit("none");
    }
    String::from_str(
        match r {
            ReductionReason::AutoAggregation => "auto-aggregation",
            ReductionReason::Sampling => "sampling",
            ReductionReason::TopN => "top-n",
            ReductionReason::DateBinning => "date-binning",
            ReductionReason::Combined => "combined",
            ReductionReason::NoReduction => "none",
        },
    )
}

/// The series label of an aggregated chart (`Sum of revenue`).
pub open spec fn series_label(agg: AggregationType, y: Seq<char>) -> Seq<char> {
    let prefix = match agg {
        AggregationType::Sum => "Sum of "@,
        AggregationType::Avg => "Average of "@,
        AggregationType::Count => "Count of "@,
        AggregationType::Min => "Min of "@,
        AggregationType::Max => "Max of "@,
        AggregationType::Median => "Median of "@,
    };
    prefix + y
}

pub fn series_label_text(agg: AggregationType, y: &String) -> (s: String)
    ensures
        s@ == series_label(agg, y@),
{
    proof {
        reveal_strlit("Sum of ");
        reveal_strlit("Average of ");
        reveal_strlit("Count of ");
        reveal_strlit("Min of ");
        reveal_strlit("Max of ");
        reveal_strlit("Median of ");
    }
    let mut s = String::from_str(
        match agg {
            AggregationType::Sum => "Sum of ",
            AggregationType::Avg => "Average of ",
            AggregationType::Count => "Count of ",
            AggregationType::Min => "Min of ",
            AggregationType::Max => "Max of ",
            AggregationType::Median => "Median of ",
        },
    );
    s.append(y.as_str());
    s
}

/// An integer in decimal, with a leading minus sign when negative.
pub open spec fn int_text(v: int) -> Seq<char> {
    if v < 0 { seq!['-'] + decimal((-v) as nat) } else { decimal(v as nat) }
}

/// A timestamp as `YYYY-MM-DD`, followed by ` HH:MM:SS` when the time is not midnight.
pub open spec fn stamp_text(t: Timestamp) -> Seq<char> {
    let y = if t.year < 0 { seq!['-'] + padded((-t.year) as nat, 4) } else { padded(t.year as nat, 4) };
    let d = y + seq!['-'] + padded(t.month as nat, 2) + seq!['-'] + padded(t.day as nat, 2);
    if t.hour == 0 && t.minute == 0 && t.second == 0 {
        d
    } else {
        d + seq![' '] + padded(t.hour as nat, 2) + seq![':'] + padded(t.minute as nat, 2) + seq![':']
            + padded(t.second as nat, 2)
    }
}

/// The label text of a cell; empty for a null.
pub open spec fn cell_text(c: CellView) -> Seq<char> {
    match c {
        CellView::Null => Seq::empty(),
        CellView::Int(v) => int_text(v),
        CellView::Bool(b) => if b { "true"@ } else { "false"@ },
        CellView::Text(s) => s,
        CellView::Stamp(t) => stamp_text(t),
    }
}

fn stamp_string(t: &Timestamp) -> (r: String)
    ensures
        r@ == stamp_text(*t),
{
    proof {
        reveal_strlit("-");
        reveal_strlit(" ");
        reveal_strlit(":");
    }
    let mut s = if t.year < 0 {
        let mut m = String::from_str("-");
        m.append(crate::binning::padded_text((-(t.year as i64)) as u32, 4).as_str());
        m
    } else {
        crate::binning::padded_text(t.year as u32, 4)
    };
    s.append("-");
    s.append(crate::binning::padded_text(t.month, 2).as_str());
    s.append("-");
    s.append(crate::binning::padded_text(t.day, 2).as_str());
    if !(t.hour == 0 && t.minute == 0 && t.second == 0) {
        s.append(" ");
        s.append(crate::binning::padded_text(t.hour, 2).as_str());
        s.append(":");
        s.append(crate::binning::padded_text(t.minute, 2).as_str());
        s.append(":");
        s.append(crate::binning::padded_text(t.second, 2).as_str());
    }
    assert(s@ =~= stamp_text(*t));
    s
}

/// The label text of a cell: see `cell_text`.
pub fn cell_label(c: &Cell) -> (r: String)
    ensures
        r@ == cell_text(c@),
{
    proof {
        reveal_strlit("true");
        reveal_strlit("false");
        reveal_strlit("-");
    }
    match c {
        Cell::Null => String::new(),
        Cell::Int(v) => {
            if *v < 0 {
                let mut s = String::from_str("-");
                s.append(to_decimal((-(*v as i128)) as u128).as_str());
                s
            } else {
                to_decimal(*v as u128)
            }
        },
        Cell::Bool(b) => String::from_str(if *b { "true" } else { "false" }),
        Cell::Text(s) => s.clone(),
        Cell::Stamp(t) => stamp_string(t),
    }
}

/// The value of a cell in a series: its integer, or none.
pub open spec fn cell_value(c: CellView) -> Option<int> {
    match c {
        CellView::Int(v) => Some(v),
        _ => None,
    }
}

pub open spec fn values_view(v: Seq<Option<i64>>) -> Seq<Option<int>> {
    v.map_values(|x: Option<i64>| match x {
        Some(y) => Some(y as int),
        None => None,
    })
}

pub open spec fn labels_view(v: Seq<String>) -> Seq<Seq<char>> {
    v.map_values(|s: String| s@)
}

/// The labels of column `x` and the values of column `y`, row by row.
pub fn extract_series(ds: &Dataset, x: usize, y: usize) -> (r: (Vec<String>, Vec<Option<i64>>))
    requires
        ds.wf(),
        x < ds.fields@.len(),
        y < ds.fields@.len(),
    ensures
        labels_view(r.0@) == ds.column_view(x as int).map_values(|c: CellView| cell_text(c)),
        values_view(r.1@) == ds.column_view(y as int).map_values(|c: CellView| cell_value(c)),
        r.0@.len() == ds.rows@.len(),
        r.1@.len() == ds.rows@.len(),
{
    let mut labels: Vec<String> = Vec::new();
    let mut values: Vec<Option<i64>> = Vec::new();
    let mut i: usize = 0;
    while i < ds.rows.len()
        invariant
            ds.wf(),
            x < ds.fields@.len(),
            y < ds.fields@.len(),
            i <= ds.rows@.len(),
            labels@.len() == i,
            values@.len() == i,
            forall|k: int| 0 <= k < i ==> #[trigger] labels@[k]@ == cell_text(ds.rows@[k]@[x as int]@),
            forall|k: int| 0 <= k < i ==> #[trigger] values_view(values@)[k] == cell_value(ds.rows@[k]@[y as int]@),
        decreases ds.rows@.len() - i,
    {
        assert(ds.rows@[i as int]@.len() == ds.fields@.len());
        labels.push(cell_label(&ds.rows[i][x]));
        let v = match &ds.rows[i][y] {
            Cell::Int(v) => Some(*v),
            _ => None,
        };
        let ghost before = values@;
        values.push(v);
        assert forall|k: int| 0 <= k <= i implies #[trigger] values_view(values@)[k] == cell_value(ds.rows@[k]@[y as int]@) by {
            if k < i {
                assert(values@[k] == before[k]);
                assert(values_view(before)[k] == cell_value(ds.rows@[k]@[y as int]@));
            }
        }
        i = i + 1;
    }
    assert(labels_view(labels@) =~= ds.column_view(x as int).map_values(|c: CellView| cell_text(c)));
    assert(values_view(values@) =~= ds.column_view(y as int).map_values(|c: CellView| cell_value(c)));
    (labels, values)
}

/// A final limit to `c` points, when one is given.
pub open spec fn cap_steps(cap: Option<usize>) -> Seq<crate::planner::StepView> {
    match cap {
        Some(c) => seq![crate::planner::StepView::Limit(c as nat)],
        None => Seq::empty(),
    }
}

/// A table a chart can be read from: it has the X column, and a `value` or Y column.
pub open spec fn chart_readable(t: crate::executor::TableView, spec: VisualizationSpec) -> bool {
    &&& crate::filter::first_pos(t.names, spec.x_field@) < t.names.len()
    &&& (crate::filter::first_pos(t.names, "value"@) < t.names.len() || crate::filter::first_pos(t.names, spec.y_field@)
        < t.names.len())
}

/// When a chart of `spec` over `ds` succeeds: its filters fit the dataset, every planned
/// step (and the final limit, if any) succeeds, and the result can be read as a chart.
pub open spec fn chart_succeeds(ds: &Dataset, spec: VisualizationSpec, zoom: int, cap: Option<usize>) -> bool {
    &&& filter_all(table_of(ds), crate::planner::filters_view(spec.filters@)) is Some
    &&& crate::executor::run_steps(
        table_of(ds),
        crate::planner::planned_steps(crate::planner::facts_of(ds, spec, zoom), spec) + cap_steps(cap),
    ) matches Some(t) && chart_readable(t, spec)
}

/// `cd` is the chart of `spec` over `ds`: the plan of the request (followed by the final
/// limit, if any), run, with the labels of the X column and the values of the summary
/// column (or of the Y column when the plan does not aggregate) of what the run produced.
pub open spec fn chart_ok(cd: ChartData, ds: &Dataset, spec: VisualizationSpec, zoom: int, cap: Option<usize>) -> bool {
    exists|p: crate::planner::ExecutionPlan, out: Dataset, m: crate::safety::ReductionMetadata, vc: int|
        #![trigger chart_from(cd, ds, spec, out, m, vc), plan_ok(p, ds, spec, zoom)]
        plan_ok(p, ds, spec, zoom) && out.wf() && crate::executor::run_steps(
            table_of(ds),
            crate::planner::planned_steps(crate::planner::facts_of(ds, spec, zoom), spec) + cap_steps(cap),
        ) == Some(table_of(&out)) && m.returned_points == out.rows@.len() && crate::executor::same_but_count(
            m,
            p.reduction_metadata,
        ) && chart_from(cd, ds, spec, out, m, vc)
}

/// The chart holds what the run produced: labels from the X column, values from column `vc`.
pub open spec fn chart_from(
    cd: ChartData,
    ds: &Dataset,
    spec: VisualizationSpec,
    out: Dataset,
    m: crate::safety::ReductionMetadata,
    vc: int,
) -> bool {
    &&& has_column(&out, spec.x_field@)
    &&& 0 <= vc < out.fields@.len()
    &&& labels_view(cd.labels@) == out.column_view(first_index(&out, spec.x_field@)).map_values(
        |c: CellView| cell_text(c),
    )
    &&& cd.datasets@.len() == 1
    &&& values_view(cd.datasets@[0].data@) == out.column_view(vc).map_values(|c: CellView| cell_value(c))
    &&& cd.datasets@[0].label@ == series_label(spec.aggregation, spec.y_field@)
    &&& cd.metadata.title@ == spec.title@
    &&& cd.metadata.x_label@ == spec.x_field@
    &&& cd.metadata.y_label@ == series_label(spec.aggregation, spec.y_field@)
    &&& cd.metadata.total_records == ds.rows@.len()
    &&& cd.metadata.original_row_estimate == ds.rows@.len()
    &&& cd.metadata.reduced == m.reduced
    &&& cd.metadata.reduction_reason@ == reason_name(m.reduction_reason)
    &&& cd.metadata.returned_points == m.returned_points
    &&& cd.metadata.sample_ratio == m.sample_ratio
    &&& cd.metadata.top_n_value == m.top_n_value
    &&& match (cd.metadata.warning_message, m.warning_message) {
        (Some(a), Some(b)) => a@ == b@,
        (None, None) => true,
        _ => false,
    }
}

#[verifier::rlimit(80)]
fn chart_query(ds: &Dataset, spec: &VisualizationSpec, planner: &QueryPlanner, cap: Option<usize>) -> (r: Result<ChartData, DataError>)
    requires
        ds.wf(),
        cap matches Some(c) ==> c <= MAX_VISUAL_POINTS,
    ensures
        !has_column(ds, spec.x_field@) ==> (r matches Err(DataError::ColumnNotFound { column, available })
            && column@ == spec.x_field@ && available@ == crate::text::joined(ds.names())),
        has_column(ds, spec.x_field@) && !has_column(ds, spec.y_field@) ==> (r matches Err(
            DataError::ColumnNotFound { column, available },
        ) && column@ == spec.y_field@ && available@ == crate::text::joined(ds.names())),
        has_column(ds, spec.x_field@) && has_column(ds, spec.y_field@) ==> (r is Ok <==> chart_succeeds(
            ds,
            *spec,
            planner.zoom(),
            cap,
        )),
        r matches Ok(cd) ==> chart_ok(cd, ds, *spec, planner.zoom(), cap) && cd.metadata.returned_points
            <= MAX_VISUAL_POINTS && cd.labels@.len() == cd.metadata.returned_points && (cap matches Some(c)
            ==> cd.metadata.returned_points <= c),
{
    let mut plan = match planner.plan(ds, spec) {
        Ok(p) => p,
        Err(e) => return Err(e),
    };
    let ghost p0 = plan;
    let ghost steps = crate::planner::planned_steps(crate::planner::facts_of(ds, *spec, planner.zoom()), *spec) + cap_steps(cap);
    if let Some(c) = cap {
        plan.transformations.push(crate::planner::Transformation::Limit(c));
    }
    assert(crate::planner::steps_view(plan.transformations@) =~= crate::planner::steps_view(p0.transformations@) + cap_steps(cap));
    assert(crate::planner::steps_view(plan.transformations@) == steps);
    let (out, meta) = match PlanExecutor::execute(&plan, ds) {
        Ok(x) => x,
        Err(e) => return Err(e),
    };
    proof {
        if cap is None {
            assert(plan == p0);
            crate::executor::returned_points_within_ceiling(plan, ds, *spec, planner.zoom(), out, meta);
        } else {
            assert(plan.transformations@.last() is Limit);
        }
        crate::executor::lemma_lookup_names(&out, spec.x_field@);
        crate::executor::lemma_lookup_names(&out, spec.y_field@);
        crate::executor::lemma_lookup_names(&out, "value"@);
        crate::executor::lemma_names_rows(&out);
    }
    let xc = match locate(&out, &spec.x_field) {
        Ok(c) => c,
        Err(e) => return Err(e),
    };
    proof {
        reveal_strlit("value");
    }
    let value_name = String::from_str("value");
    let vc = match locate(&out, &value_name) {
        Ok(c) => c,
        Err(_) => match locate(&out, &spec.y_field) {
            Ok(c) => c,
            Err(e) => return Err(e),
        },
    };
    let (labels, data) = extract_series(&out, xc, vc);
    let label = series_label_text(spec.aggregation, &spec.y_field);
    let mut datasets: Vec<ChartDataset> = Vec::new();
    datasets.push(ChartDataset { label: label.clone(), data, color: None });
    let warning = match &meta.warning_message {
        Some(w) => Some(w.clone()),
        None => None,
    };
    let cd = ChartData {
        labels,
        datasets,
        metadata: ChartMetadata {
            title: spec.title.clone(),
            x_label: spec.x_field.clone(),
            y_label: label,
            total_records: ds.rows.len(),
            reduced: meta.reduced,
            reduction_reason: reason_text(meta.reduction_reason),
            original_row_estimate: ds.rows.len(),
            returned_points: meta.returned_points,
            sample_ratio: meta.sample_ratio,
            top_n_value: meta.top_n_value,
            warning_message: warning,
        },
    };
    assert(chart_from(cd, ds, *spec, out, meta, vc as int));
    assert(plan_ok(p0, ds, *spec, planner.zoom()));
    Ok(cd)
}

/// An aggregated chart of `spec` over `ds`, planned and executed (see `chart_ok`).
///
/// Fails with `ColumnNotFound` (listing the columns) when the X or Y field is missing, with
/// the planner's error for an unfit filter, or with the first error of a plan step; succeeds
/// exactly when `chart_succeeds`. Never returns more than 50,000 points.
pub fn execute_visualization_query(ds: &Dataset, spec: &VisualizationSpec) -> (r: Result<ChartData, DataError>)
    requires
        ds.wf(),
    ensures
        !has_column(ds, spec.x_field@) ==> (r matches Err(DataError::ColumnNotFound { column, available })
            && column@ == spec.x_field@ && available@ == crate::text::joined(ds.names())),
        has_column(ds, spec.x_field@) && !has_column(ds, spec.y_field@) ==> (r matches Err(
            DataError::ColumnNotFound { column, available },
        ) && column@ == spec.y_field@ && available@ == crate::text::joined(ds.names())),
        has_column(ds, spec.x_field@) && has_column(ds, spec.y_field@) ==> (r is Ok <==> chart_succeeds(ds, *spec, 0, None)),
        r matches Ok(cd) ==> chart_ok(cd, ds, *spec, 0, None) && cd.metadata.returned_points <= MAX_VISUAL_POINTS
            && cd.labels@.len() == cd.metadata.returned_points,
{
    let planner = QueryPlanner::new();
    chart_query(ds, spec, &planner, None)
}

/// The rows a scatter plot of `n` rows shows: all of them, or a systematic sample of
/// 10,000 when there are more.
pub open spec fn scatter_rows(n: int) -> Seq<int> {
    if n > DEFAULT_SCATTER_LIMIT {
        systematic_pick(n, n, DEFAULT_SCATTER_LIMIT as int, crate::safety::SAMPLING_SEED as int)
    } else {
        crate::sampling::all_rows(n)
    }
}

pub open spec fn scatter_warning(n: nat) -> Seq<char> {
    "Showing "@ + percent_text(DEFAULT_SCATTER_LIMIT as int, n as int) + "% sample ("@ + grouped(
        DEFAULT_SCATTER_LIMIT as nat,
    ) + " of "@ + grouped(n) + " points) for performance"@
}

/// `cd` is the scatter plot of the rows of `d` (of a dataset of `total` rows).
pub open spec fn scatter_ok(cd: ChartData, d: &Dataset, total: nat, spec: VisualizationSpec) -> bool {
    let n = d.rows@.len();
    let pick = scatter_rows(n as int);
    &&& has_column(d, spec.x_field@) && has_column(d, spec.y_field@)
    &&& labels_view(cd.labels@) == pick.map_values(
        |i: int| cell_text(d.column_view(first_index(d, spec.x_field@))[i]),
    )
    &&& cd.datasets@.len() == 1
    &&& values_view(cd.datasets@[0].data@) == pick.map_values(
        |i: int| cell_value(d.column_view(first_index(d, spec.y_field@))[i]),
    )
    &&& cd.datasets@[0].label@ == spec.y_field@
    &&& cd.metadata.title@ == spec.title@
    &&& cd.metadata.x_label@ == spec.x_field@
    &&& cd.metadata.y_label@ == spec.y_field@
    &&& cd.metadata.total_records == total
    &&& cd.metadata.original_row_estimate == total
    &&& cd.metadata.returned_points == pick.len()
    &&& cd.metadata.top_n_value is None
    &&& if n > DEFAULT_SCATTER_LIMIT {
        &&& cd.metadata.reduced
        &&& cd.metadata.reduction_reason@ == "sampling"@
        &&& cd.metadata.sample_ratio == Some(Ratio { num: DEFAULT_SCATTER_LIMIT, den: n as usize })
        &&& cd.metadata.warning_message matches Some(w) && w@ == scatter_warning(n)
    } else {
        &&& !cd.metadata.reduced
        &&& cd.metadata.reduction_reason@ == "none"@
        &&& cd.metadata.sample_ratio is None
        &&& cd.metadata.warning_message is None
    }
}

fn scatter_of(d: &Dataset, total: usize, spec: &VisualizationSpec) -> (r: Result<ChartData, DataError>)
    requires
        d.wf(),
    ensures
        has_column(d, spec.x_field@) && has_column(d, spec.y_field@) ==> (r matches Ok(cd) && scatter_ok(cd, d, total as nat, *spec)),
        r matches Ok(cd) ==> cd.metadata.returned_points <= DEFAULT_SCATTER_LIMIT,
{
    let xc = match locate(d, &spec.x_field) {
        Ok(c) => c,
        Err(e) => return Err(e),
    };
    let yc = match locate(d, &spec.y_field) {
        Ok(c) => c,
        Err(e) => return Err(e),
    };
    let n = d.rows.len();
    proof {
        reveal_strlit("sampling");
        reveal_strlit("none");
        reveal_strlit("Showing ");
        reveal_strlit("% sample (");
        reveal_strlit(" of ");
        reveal_strlit(" points) for performance");
    }
    let sampled = n > DEFAULT_SCATTER_LIMIT;
    let sample = match scatter_sample(d, n, DEFAULT_SCATTER_LIMIT) {
        Ok(s) => s,
        Err(e) => return Err(e),
    };
    proof {
        crate::sampling::lemma_systematic_in_range(n as int, n as int, DEFAULT_SCATTER_LIMIT as int, crate::safety::SAMPLING_SEED as int);
    }
    assert(sample.data.names() == d.names());
    assert(sample.data.names().len() == sample.data.fields@.len());
    assert(d.names().len() == d.fields@.len());
    let (labels, data) = extract_series(&sample.data, xc, yc);
    proof {
        let pick = scatter_rows(n as int);
        assert(sample.data.rows_view() == pick.map_values(|i: int| d.rows_view()[i]));
        assert forall|k: int| 0 <= k < pick.len() implies #[trigger] sample.data.column_view(xc as int)[k] == d.column_view(xc as int)[pick[k]] by {
            assert(sample.data.rows_view()[k] == d.rows_view()[pick[k]]);
            assert(sample.data.rows@[k]@.len() == d.fields@.len());
            assert(d.rows@[pick[k]]@.len() == d.fields@.len());
            assert(sample.data.rows_view()[k][xc as int] == sample.data.rows@[k]@[xc as int]@);
            assert(d.rows_view()[pick[k]][xc as int] == d.rows@[pick[k]]@[xc as int]@);
        }
        assert forall|k: int| 0 <= k < pick.len() implies #[trigger] sample.data.column_view(yc as int)[k] == d.column_view(yc as int)[pick[k]] by {
            assert(sample.data.rows_view()[k] == d.rows_view()[pick[k]]);
            assert(sample.data.rows@[k]@.len() == d.fields@.len());
            assert(d.rows@[pick[k]]@.len() == d.fields@.len());
            assert(sample.data.rows_view()[k][yc as int] == sample.data.rows@[k]@[yc as int]@);
            assert(d.rows_view()[pick[k]][yc as int] == d.rows@[pick[k]]@[yc as int]@);
        }
        assert(labels_view(labels@) =~= pick.map_values(|i: int| cell_text(d.column_view(xc as int)[i])));
        assert(values_view(data@) =~= pick.map_values(|i: int| cell_value(d.column_view(yc as int)[i])));
    }
    let count = sample.data.rows.len();
    let (ratio, warning) = if sampled {
        let ratio = Ratio { num: DEFAULT_SCATTER_LIMIT, den: n };
        let mut w = String::from_str("Showing ");
        w.append(percent(ratio).as_str());
        w.append("% sample (");
        w.append(format_number(DEFAULT_SCATTER_LIMIT).as_str());
        w.append(" of ");
        w.append(format_number(n).as_str());
        w.append(" points) for performance");
        assert(w@ =~= scatter_warning(n as nat));
        (Some(ratio), Some(w))
    } else {
        (None, None)
    };
    let mut datasets: Vec<ChartDataset> = Vec::new();
    datasets.push(ChartDataset { label: spec.y_field.clone(), data, color: None });
    Ok(
        ChartData {
            labels,
            datasets,
            metadata: ChartMetadata {
                title: spec.title.clone(),
                x_label: spec.x_field.clone(),
                y_label: spec.y_field.clone(),
                total_records: total,
                reduced: sampled,
                reduction_reason: String::from_str(if sampled { "sampling" } else { "none" }),
                original_row_estimate: total,
                returned_points: count,
                sample_ratio: ratio,
                top_n_value: None,
                warning_message: warning,
            },
        },
    )
}

/// A scatter plot of `spec` over `ds`: no aggregation; after the filters, a systematic
/// sample of 10,000 points when more rows remain (see `scatter_ok`).
pub fn execute_scatter_query(ds: &Dataset, spec: &VisualizationSpec) -> (r: Result<ChartData, DataError>)
    requires
        ds.wf(),
    ensures
        !has_column(ds, spec.x_field@) ==> (r matches Err(DataError::ColumnNotFound { column, available })
            && column@ == spec.x_field@ && available@ == crate::text::joined(ds.names())),
        has_column(ds, spec.x_field@) && !has_column(ds, spec.y_field@) ==> (r matches Err(
            DataError::ColumnNotFound { column, available },
        ) && column@ == spec.y_field@ && available@ == crate::text::joined(ds.names())),
        has_column(ds, spec.x_field@) && has_column(ds, spec.y_field@) && spec.filters@.len() == 0 ==> (r matches Ok(cd)
            && scatter_ok(cd, ds, ds.rows@.len(), *spec)),
        has_column(ds, spec.x_field@) && has_column(ds, spec.y_field@) ==> (r is Ok <==> filter_all(
            table_of(ds),
            crate::planner::filters_view(spec.filters@),
        ) is Some),
        r matches Ok(cd) ==> (exists|d: Dataset|
            d.wf() && filter_all(table_of(ds), crate::planner::filters_view(spec.filters@)) == Some(table_of(&d))
                && #[trigger] scatter_ok(cd, &d, ds.rows@.len() as nat, *spec)),
        r matches Ok(cd) ==> cd.metadata.returned_points <= DEFAULT_SCATTER_LIMIT,
{
    match locate(ds, &spec.x_field) {
        Ok(_) => {},
        Err(e) => return Err(e),
    }
    match locate(ds, &spec.y_field) {
        Ok(_) => {},
        Err(e) => return Err(e),
    }
    let filtered = match apply_filters(ds, &spec.filters) {
        Ok(d) => d,
        Err(e) => return Err(e),
    };
    proof {
        crate::filter::lemma_same_names(ds, &filtered, spec.x_field@);
        crate::filter::lemma_same_names(ds, &filtered, spec.y_field@);
    }
    let r = scatter_of(&filtered, ds.rows.len(), spec);
    proof {
        if r is Ok {
            assert(filtered.wf() && filter_all(table_of(ds), crate::planner::filters_view(spec.filters@)) == Some(
                table_of(&filtered),
            ) && scatter_ok(r->Ok_0, &filtered, ds.rows@.len() as nat, *spec));
        }
        if spec.filters@.len() == 0 {
            assert(filtered.rows_view() == ds.rows_view());
            lemma_same_rows(ds, &filtered, spec.x_field@);
            lemma_same_rows(ds, &filtered, spec.y_field@);
        }
    }
    r
}

proof fn lemma_same_rows(a: &Dataset, b: &Dataset, name: Seq<char>)
    requires
        a.wf(),
        b.wf(),
        a.names() == b.names(),
        a.rows_view() == b.rows_view(),
        has_column(a, name),
    ensures
        a.rows@.len() == b.rows@.len(),
        a.column_view(first_index(a, name)) == b.column_view(first_index(b, name)),
{
    crate::filter::lemma_same_names(a, b, name);
    let c = first_index(a, name);
    assert(a.names().len() == a.fields@.len());
    assert(b.names().len() == b.fields@.len());
    assert(a.rows_view().len() == a.rows@.len());
    assert(b.rows_view().len() == b.rows@.len());
    assert forall|i: int| 0 <= i < a.rows@.len() implies #[trigger] a.column_view(c)[i] == b.column_view(c)[i] by {
        assert(a.rows_view()[i] == b.rows_view()[i]);
        assert(a.rows@[i]@.len() == a.fields@.len());
        assert(b.rows@[i]@.len() == b.fields@.len());
        assert(a.rows_view()[i][c] == a.rows@[i]@[c]@);
        assert(b.rows_view()[i][c] == b.rows@[i]@[c]@);
    }
    assert(a.column_view(c) =~= b.column_view(c));
}

/// The first row of page `page` of size `size`.
pub open spec fn page_start(page: int, size: int, total: int) -> int {
    if page * size < total { page * size } else { total }
}

/// One past the last row of that page.
pub open spec fn page_end(page: int, size: int, total: int) -> int {
    if page_start(page, size, total) + size < total { page_start(page, size, total) + size } else { total }
}

pub open spec fn large_dataset_warning(n: nat) -> Seq<char> {
    "Large dataset ("@ + grouped(n) + " rows). Using pagination for performance."@
}

/// The page size used: the requested one, at most 1000.
pub open spec fn clamped_page_size(requested: int) -> int {
    if requested < MAX_PAGE_SIZE { requested } else { MAX_PAGE_SIZE as int }
}

/// The cells of the chosen columns, in the order asked.
pub open spec fn project(row: Seq<CellView>, cols: Seq<int>) -> Seq<CellView> {
    cols.map_values(|c: int| row[c])
}

/// Where each named column is.
pub open spec fn positions_of_names(names: Seq<Seq<char>>, cols: Seq<Seq<char>>) -> Seq<int> {
    cols.map_values(|c: Seq<char>| crate::filter::first_pos(names, c))
}

/// Every named column exists.
pub open spec fn all_found(names: Seq<Seq<char>>, cols: Seq<Seq<char>>) -> bool {
    forall|i: int| 0 <= i < cols.len() ==> crate::filter::first_pos(names, #[trigger] cols[i]) < names.len()
}

/// A row as shown: the chosen columns, or the whole row when none are chosen.
pub open spec fn shown(row: Seq<CellView>, names: Seq<Seq<char>>, cols: Seq<Seq<char>>) -> Seq<CellView> {
    if cols.len() == 0 { row } else { project(row, positions_of_names(names, cols)) }
}

pub open spec fn names_view(v: Seq<String>) -> Seq<Seq<char>> {
    v.map_values(|s: String| s@)
}

fn select_columns(d: &Dataset, columns: &Vec<String>, lo: usize, hi: usize) -> (r: Result<Vec<Vec<Cell>>, DataError>)
    requires
        d.wf(),
        lo <= hi <= d.rows@.len(),
    ensures
        r is Ok <==> all_found(d.names(), names_view(columns@)),
        r matches Ok(rows) ==> rows@.len() == hi - lo && crate::model::rows_of(rows@) == d.rows_view().subrange(
            lo as int,
            hi as int,
        ).map_values(|row: Seq<CellView>| shown(row, d.names(), names_view(columns@))),
{
    let ghost cv = names_view(columns@);
    let ghost pos = positions_of_names(d.names(), cv);
    let mut idx: Vec<usize> = Vec::new();
    let mut j: usize = 0;
    while j < columns.len()
        invariant
            d.wf(),
            j <= columns@.len(),
            cv == names_view(columns@),
            pos == positions_of_names(d.names(), cv),
            idx@.len() == j,
            forall|k: int| 0 <= k < idx@.len() ==> #[trigger] idx@[k] < d.fields@.len(),
            forall|k: int| 0 <= k < idx@.len() ==> #[trigger] idx@[k] as int == pos[k],
            forall|k: int| 0 <= k < j ==> crate::filter::first_pos(d.names(), #[trigger] cv[k]) < d.names().len(),
        decreases columns@.len() - j,
    {
        proof {
            crate::executor::lemma_lookup_names(d, columns@[j as int]@);
        }
        let c = match locate(d, &columns[j]) {
            Ok(c) => c,
            Err(e) => {
                proof {
                    assert(crate::filter::first_pos(d.names(), cv[j as int]) >= d.names().len());
                }
                return Err(e);
            },
        };
        idx.push(c);
        j = j + 1;
    }
    let mut rows: Vec<Vec<Cell>> = Vec::new();
    let mut i: usize = lo;
    while i < hi
        invariant
            d.wf(),
            lo <= i <= hi,
            hi <= d.rows@.len(),
            idx@.len() == columns@.len(),
            cv == names_view(columns@),
            pos == positions_of_names(d.names(), cv),
            forall|k: int| 0 <= k < idx@.len() ==> #[trigger] idx@[k] < d.fields@.len(),
            forall|k: int| 0 <= k < idx@.len() ==> #[trigger] idx@[k] as int == pos[k],
            rows@.len() == i - lo,
            forall|k: int| 0 <= k < rows@.len() ==> #[trigger] crate::model::rows_of(rows@)[k]
                == shown(d.rows_view()[lo + k], d.names(), cv),
        decreases hi - i,
    {
        assert(d.rows@[i as int]@.len() == d.fields@.len());
        assert(d.rows_view()[i as int] == cells_view(d.rows@[i as int]@));
        let row = if columns.len() == 0 {
            crate::filter::copy_row(&d.rows[i])
        } else {
            let mut row: Vec<Cell> = Vec::new();
            let mut k: usize = 0;
            while k < idx.len()
                invariant
                    i < d.rows@.len(),
                    d.rows@[i as int]@.len() == d.fields@.len(),
                    forall|m: int| 0 <= m < idx@.len() ==> #[trigger] idx@[m] < d.fields@.len(),
                    k <= idx@.len(),
                    row@.len() == k,
                    forall|m: int| 0 <= m < k ==> #[trigger] row@[m]@ == d.rows@[i as int]@[idx@[m] as int]@,
                decreases idx@.len() - k,
            {
                row.push(d.rows[i][idx[k]].duplicate());
                k = k + 1;
            }
            assert(cells_view(row@) =~= project(d.rows_view()[i as int], pos));
            row
        };
        assert(cells_view(row@) == shown(d.rows_view()[i as int], d.names(), cv));
        let ghost before = rows@;
        rows.push(row);
        proof {
            assert forall|k: int| 0 <= k < rows@.len() implies #[trigger] crate::model::rows_of(rows@)[k] == shown(
                d.rows_view()[lo + k],
                d.names(),
                cv,
            ) by {
                if k < before.len() {
                    assert(rows@[k] == before[k]);
                    assert(crate::model::rows_of(before)[k] == shown(d.rows_view()[lo + k], d.names(), cv));
                }
            }
        }
        i = i + 1;
    }
    assert(crate::model::rows_of(rows@) =~= d.rows_view().subrange(lo as int, hi as int).map_values(
        |row: Seq<CellView>| shown(row, d.names(), cv),
    ));
    Ok(rows)
}

/// The table a query pages through: the filtered rows, sorted when asked.
pub open spec fn table_source(
    ds: &Dataset,
    filters: Seq<FilterSpec>,
    sort_column: Option<String>,
    descending: bool,
) -> Option<crate::executor::TableView> {
    match filter_all(table_of(ds), crate::planner::filters_view(filters)) {
        None => None,
        Some(f) => match sort_column {
            None => Some(f),
            Some(c) => crate::executor::sort_step(f, c@, descending),
        },
    }
}

/// One page of a table view of `ds`, after `filters` and an optional sort.
///
/// The page size is the requested one capped at 1000; pages count from zero. Listed
/// columns are returned in the order asked (all columns when none are listed). A dataset
/// of more than 100,000 rows brings an advisory warning.
pub fn execute_table_query(
    ds: &Dataset,
    columns: &Vec<String>,
    page: usize,
    page_size: usize,
    sort_column: &Option<String>,
    sort_desc: bool,
    filters: &Vec<FilterSpec>,
) -> (r: Result<TableData, DataError>)
    requires
        ds.wf(),
    ensures
        r matches Ok(t) ==> ({
            &&& t.page_size == clamped_page_size(page_size as int)
            &&& t.rows@.len() <= t.page_size
            &&& t.rows@.len() <= page_size
            &&& t.page == page
            &&& t.rows@.len() == page_end(page as int, t.page_size as int, t.total_rows as int) - page_start(
                page as int,
                t.page_size as int,
                t.total_rows as int,
            )
            &&& t.total_pages == if t.page_size == 0 {
                0
            } else {
                (t.total_rows + t.page_size - 1) / (t.page_size as int)
            }
            &&& if ds.rows@.len() > LARGE_DATASET_ROWS {
                t.warning matches Some(w) && w@ == large_dataset_warning(ds.rows@.len())
            } else {
                t.warning is None
            }
        }),
        r is Ok <==> (table_source(ds, filters@, *sort_column, sort_desc) matches Some(src) && all_found(
            src.names,
            names_view(columns@),
        )),
        r matches Ok(t) ==> ({
            let src = table_source(ds, filters@, *sort_column, sort_desc)->Some_0;
            &&& t.total_rows == src.rows.len()
            &&& crate::model::rows_of(t.rows@) == src.rows.subrange(
                page_start(page as int, t.page_size as int, src.rows.len() as int),
                page_end(page as int, t.page_size as int, src.rows.len() as int),
            ).map_values(|row: Seq<CellView>| shown(row, src.names, names_view(columns@)))
        }),
{
    let size = if page_size < MAX_PAGE_SIZE { page_size } else { MAX_PAGE_SIZE };
    let filtered = match apply_filters(ds, filters) {
        Ok(d) => d,
        Err(e) => return Err(e),
    };
    let sorted = match sort_column {
        Some(c) => match sort_table(&filtered, c, sort_desc) {
            Ok(d) => d,
            Err(e) => return Err(e),
        },
        None => crate::executor::limit_rows(&filtered, filtered.rows.len()),
    };
    proof {
        assert(filtered.rows_view().take(filtered.rows@.len() as int) =~= filtered.rows_view());
        assert(table_source(ds, filters@, *sort_column, sort_desc) == Some(table_of(&sorted)));
        crate::executor::lemma_names_rows(&sorted);
    }
    let total = sorted.rows.len();
    assert((page as int) * (size as int) <= 0xffff_ffff_ffff_ffff * 1000) by (nonlinear_arith)
        requires
            0 <= page <= 0xffff_ffff_ffff_ffff,
            0 <= size <= 1000,
    ;
    let start_wide = (page as u128) * (size as u128);
    assert(start_wide == page * size) by (nonlinear_arith)
        requires
            start_wide == (page as u128) * (size as u128),
            page <= 0xffff_ffff_ffff_ffff,
            size <= 1000,
    ;
    let lo: usize = if start_wide < total as u128 { start_wide as usize } else { total };
    let hi: usize = if (lo as u128) + (size as u128) < total as u128 { lo + size } else { total };
    let rows = match select_columns(&sorted, columns, lo, hi) {
        Ok(r) => r,
        Err(e) => return Err(e),
    };
    let pages: usize = if size == 0 {
        0
    } else {
        let q = ((total as u128) + (size as u128) - 1) / (size as u128);
        proof {
            let t = total as int;
            let sz = size as int;
            vstd::arithmetic::div_mod::lemma_fundamental_div_mod(t + sz - 1, sz);
            assert(q * sz <= t + sz - 1) by (nonlinear_arith)
                requires
                    t + sz - 1 == sz * q + (t + sz - 1) % sz,
                    (t + sz - 1) % sz >= 0,
            ;
            assert(q <= t) by (nonlinear_arith)
                requires
                    q * sz <= t + sz - 1,
                    sz >= 1,
                    t >= 0,
                    q >= 0,
            ;
        }
        q as usize
    };
    proof {
        reveal_strlit("Large dataset (");
        reveal_strlit(" rows). Using pagination for performance.");
    }
    let warning = if ds.rows.len() > LARGE_DATASET_ROWS {
        let mut w = String::from_str("Large dataset (");
        w.append(format_number(ds.rows.len()).as_str());
        w.append(" rows). Using pagination for performance.");
        Some(w)
    } else {
        None
    };
    Ok(TableData { rows, total_rows: total, page, page_size: size, total_pages: pages, warning })
}

/// `s2` is `s` narrowed to the visible range: when both ends are given, two more filters
/// keep the X values from `start` to `end`.
pub open spec fn narrowed(s2: VisualizationSpec, s: VisualizationSpec, start: Option<i64>, end: Option<i64>) -> bool {
    &&& s2.chart_type == s.chart_type
    &&& s2.x_field@ == s.x_field@
    &&& s2.y_field@ == s.y_field@
    &&& s2.aggregation == s.aggregation
    &&& s2.sort_by == s.sort_by
    &&& s2.sort_order == s.sort_order
    &&& s2.title@ == s.title@
    &&& crate::planner::filters_view(s2.filters@) == crate::planner::filters_view(s.filters@) + match (start, end) {
        (Some(a), Some(b)) => seq![
            crate::planner::FilterView { column: s.x_field@, operator: FilterOperator::Gte, value: CellView::Int(a as int) },
            crate::planner::FilterView { column: s.x_field@, operator: FilterOperator::Lte, value: CellView::Int(b as int) },
        ],
        _ => Seq::empty(),
    }
}

fn copy_optional(s: &Option<String>) -> (r: Option<String>)
    ensures
        r == *s,
{
    match s {
        Some(x) => Some(x.clone()),
        None => None,
    }
}

/// A zoom-aware chart: the visible range, when both ends are given, narrows the X field,
/// and the zoom (in thousandths, clamped to 1000) scales the point budget from 20% of the
/// policy's points at zoom 0 to all of them at zoom 1000: the plan's sampling target and a
/// final limit on the points returned (`progressive_cap`).
pub fn execute_progressive_query(
    ds: &Dataset,
    spec: &VisualizationSpec,
    zoom_permille: u32,
    range_start: Option<i64>,
    range_end: Option<i64>,
) -> (r: Result<ChartData, DataError>)
    requires
        ds.wf(),
    ensures
        !has_column(ds, spec.x_field@) ==> (r matches Err(DataError::ColumnNotFound { column, available })
            && column@ == spec.x_field@ && available@ == crate::text::joined(ds.names())),
        has_column(ds, spec.x_field@) && !has_column(ds, spec.y_field@) ==> (r matches Err(
            DataError::ColumnNotFound { column, available },
        ) && column@ == spec.y_field@ && available@ == crate::text::joined(ds.names())),
        has_column(ds, spec.x_field@) && has_column(ds, spec.y_field@) ==> (exists|s2: VisualizationSpec|
            narrowed(s2, *spec, range_start, range_end) && (r is Ok <==> #[trigger] chart_succeeds(
                ds,
                s2,
                crate::safety::clamped_zoom(zoom_permille as int),
                Some(progressive_cap(spec.chart_type, zoom_permille as int)),
            ))),
        r matches Ok(cd) ==> (exists|s2: VisualizationSpec| narrowed(s2, *spec, range_start, range_end) && #[trigger] chart_ok(
            cd,
            ds,
            s2,
            crate::safety::clamped_zoom(zoom_permille as int),
            Some(progressive_cap(spec.chart_type, zoom_permille as int)),
        )) && cd.metadata.returned_points <= progressive_cap(spec.chart_type, zoom_permille as int),
{
    let zoom = if zoom_permille > 1000 { 1000 } else { zoom_permille };
    let mut filters = copy_filters(&spec.filters);
    let ghost base = crate::planner::filters_view(filters@);
    if let (Some(start), Some(end)) = (range_start, range_end) {
        filters.push(FilterSpec { column: spec.x_field.clone(), operator: FilterOperator::Gte, value: FilterValue::Int(start) });
        filters.push(FilterSpec { column: spec.x_field.clone(), operator: FilterOperator::Lte, value: FilterValue::Int(end) });
    }
    let narrowed_spec = VisualizationSpec {
        chart_type: spec.chart_type,
        x_field: spec.x_field.clone(),
        y_field: spec.y_field.clone(),
        aggregation: spec.aggregation,
        x_date_binning: spec.x_date_binning,
        y_date_binning: spec.y_date_binning,
        group_by: copy_optional(&spec.group_by),
        sort_by: spec.sort_by,
        sort_order: spec.sort_order,
        title: spec.title.clone(),
        filters,
        chart_config: copy_optional(&spec.chart_config),
    };
    assert(narrowed(narrowed_spec, *spec, range_start, range_end)) by {
        assert(crate::planner::filters_view(narrowed_spec.filters@) =~= crate::planner::filters_view(spec.filters@) + match (range_start, range_end) {
            (Some(a), Some(b)) => seq![
                crate::planner::FilterView { column: spec.x_field@, operator: FilterOperator::Gte, value: CellView::Int(a as int) },
                crate::planner::FilterView { column: spec.x_field@, operator: FilterOperator::Lte, value: CellView::Int(b as int) },
            ],
            _ => Seq::empty(),
        });
    }
    let context = ZoomContext { zoom_permille: zoom, range_start, range_end, selected_categories: None };
    let cap = context.calculate_point_limit(crate::safety::ChartSafetyConfig::for_chart(spec.chart_type).max_points);
    assert(cap == progressive_cap(spec.chart_type, zoom_permille as int));
    let planner = QueryPlanner::with_zoom(context);
    let r = chart_query(ds, &narrowed_spec, &planner, Some(cap));
    assert(r is Ok ==> chart_ok(r->Ok_0, ds, narrowed_spec, crate::safety::clamped_zoom(zoom_permille as int), Some(cap)));
    assert(chart_succeeds(ds, narrowed_spec, crate::safety::clamped_zoom(zoom_permille as int), Some(cap))
        == chart_succeeds(ds, narrowed_spec, planner.zoom(), Some(cap)));
    r
}

/// The point budget of a progressive chart: the family's points scaled by the zoom.
pub open spec fn progressive_cap(ct: ChartType, zoom: int) -> usize {
    crate::safety::zoom_limit(crate::planner::chart_max_points(ct) as int, zoom) as usize
}

/// The point limit of a chart family by name: 500 for bar, line and area charts (and
/// unknown names), 20 for pie charts, 10,000 for scatter plots.
pub fn get_max_points_for_chart(chart_type: &str) -> (r: usize)
    ensures
        r == if chart_type@ == "pie"@ {
            20
        } else if chart_type@ == "scatter"@ {
            10_000usize
        } else {
            500
        },
{
    proof {
        reveal_strlit("pie");
        reveal_strlit("scatter");
    }
    let name = String::from_str(chart_type);
    if name == String::from_str("pie") {
        20
    } else if name == String::from_str("scatter") {
        DEFAULT_SCATTER_LIMIT
    } else {
        500
    }
}

/// The estimated number of distinct values among `vals` in a dataset of `total_rows`
/// rows: see `estimated_unique`.
pub fn estimate_cardinality(vals: &Vec<Cell>, total_rows: usize) -> (r: usize)
    ensures
        r == crate::safety::estimated_unique(cells_view(vals@), total_rows as int),
{
    let field = crate::model::Field { name: String::new(), kind: crate::model::ColumnKind::Text };
    let info = crate::safety::CardinalityInfo::estimate(&field, vals, total_rows);
    info.unique_count
}

} // verus!
