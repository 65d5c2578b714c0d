//! The plan executor: runs the steps of a plan in order over a dataset.

use vstd::prelude::*;
use vstd::string::*;
use crate::aggregate::{apply_aggregation, grouping, groups_view, Group, GroupView, numeric_only};
use crate::binning::apply_date_binning;
use crate::error::DataError;
use crate::filter::{apply_filter, copy_row, first_index, has_column, locate, copy_fields};
use crate::model::{Cell, CellView, ColumnKind, Dataset, Field, cells_view, rows_of};
use crate::ordering::{sort_rows, sorted_rows};
use crate::planner::{
    ExecutionPlan, StepView, Transformation, steps_view, plan_ok, facts_of, planned_steps,
    final_limit, needs_aggregation, applies_top_n, applies_sampling, if_step, filters_view,
};
use crate::safety::MAX_VISUAL_POINTS;
use crate::types::VisualizationSpec;
use crate::safety::{ReductionMetadata, ReductionStep};
use crate::sampling::{as_positions, systematic_pick, systematic_rows};
use crate::topn::{apply_top_n_with_others, top_n_outcome};
use crate::types::{AggregationType, DateBinGranularity, FilterOperator, FilterSpec};
use crate::filter::{first_pos, kept_rows, literal_suits};
use crate::binning::{binned_kind, bin_row};
use crate::planner::FilterView;
use crate::topn::{ranked, value_total};

verus! {

/// A table as values: column names, column types and rows.
pub struct TableView {
    pub names: Seq<Seq<char>>,
    pub kinds: Seq<ColumnKind>,
    pub rows: Seq<Seq<CellView>>,
}

pub open spec fn table_of(ds: &Dataset) -> TableView {
    TableView { names: ds.names(), kinds: ds.kinds(), rows: ds.rows_view() }
}

/// Column `c` of a table view.
pub open spec fn col(t: TableView, c: int) -> Seq<CellView> {
    Seq::new(t.rows.len(), |i: int| t.rows[i][c])
}

pub open spec fn with_rows(t: TableView, rows: Seq<Seq<CellView>>) -> TableView {
    TableView { names: t.names, kinds: t.kinds, rows }
}

/// One filter over a table; `None` when the column is missing or the literal unfit.
pub open spec fn filter_step(t: TableView, f: FilterView) -> Option<TableView> {
    let c = first_pos(t.names, f.column);
    if c >= t.names.len() || !literal_suits(f.operator, f.value) {
        None
    } else {
        Some(with_rows(t, kept_rows(t.rows, c, f.operator, f.value)))
    }
}

/// The filters in turn; `None` at the first that fails.
pub open spec fn filter_all(t: TableView, fs: Seq<FilterView>) -> Option<TableView>
    decreases fs.len(),
{
    if fs.len() == 0 {
        Some(t)
    } else {
        match filter_all(t, fs.drop_last()) {
            Some(u) => filter_step(u, fs.last()),
            None => None,
        }
    }
}

pub open spec fn date_bin_step(t: TableView, column: Seq<char>, g: DateBinGranularity) -> Option<TableView> {
    let c = first_pos(t.names, column);
    if c >= t.names.len() || !t.kinds[c].spec_is_datetime() {
        None
    } else {
        Some(
            TableView {
                names: t.names,
                kinds: t.kinds.update(c, binned_kind(g)),
                rows: t.rows.map_values(|r: Seq<CellView>| bin_row(r, c, g)),
            },
        )
    }
}

pub open spec fn aggregate_step(t: TableView, x: Seq<char>, y: Seq<char>, agg: AggregationType) -> Option<TableView> {
    let xc = first_pos(t.names, x);
    let yc = first_pos(t.names, y);
    if xc >= t.names.len() || yc >= t.names.len() {
        None
    } else if (agg !is Count && !numeric_only(col(t, yc))) || !crate::aggregate::grouping_fits(col(t, xc), col(t, yc), agg) {
        None
    } else {
        Some(
            TableView {
                names: seq![x, "value"@],
                kinds: seq![t.kinds[xc], ColumnKind::Integer],
                rows: group_rows(grouping(col(t, xc), col(t, yc), agg)),
            },
        )
    }
}

pub open spec fn top_n_step(t: TableView, column: Seq<char>, n: nat, include_others: bool) -> Option<TableView> {
    let c = first_pos(t.names, column);
    let v = first_pos(t.names, "value"@);
    if c >= t.names.len() || v >= t.names.len() {
        None
    } else {
        let g = groups_of(t.rows, c, v);
        if g.len() > n && include_others && !(i64::MIN <= value_total(ranked(g).skip(n as int)) <= i64::MAX) {
            None
        } else {
            Some(
                TableView {
                    names: seq![column, "value"@],
                    kinds: seq![t.kinds[c], ColumnKind::Integer],
                    rows: group_rows(if g.len() <= n { ranked(g) } else { top_n_outcome(g, n, include_others).0 }),
                },
            )
        }
    }
}

pub open spec fn sort_step(t: TableView, column: Seq<char>, descending: bool) -> Option<TableView> {
    let c = first_pos(t.names, column);
    if c >= t.names.len() {
        None
    } else {
        Some(with_rows(t, sorted_rows(t.rows, c, descending)))
    }
}

/// What one plan step makes of a table; `None` when the step fails.
pub open spec fn apply_step(t: TableView, s: StepView) -> Option<TableView> {
    match s {
        StepView::Filter(fs) => filter_all(t, fs),
        StepView::DateBin(column, g) => date_bin_step(t, column, g),
        StepView::NumericBin(_, _) => None,
        StepView::Aggregate(x, y, agg) => aggregate_step(t, x, y, agg),
        StepView::TopN(column, n, include_others) => top_n_step(t, column, n, include_others),
        StepView::Sample(target, seed) => Some(
            with_rows(
                t,
                systematic_pick(t.rows.len() as int, t.rows.len() as int, target as int, seed as int).map_values(
                    |i: int| t.rows[i],
                ),
            ),
        ),
        StepView::Limit(k) => Some(with_rows(t, t.rows.take(if k < t.rows.len() { k as int } else { t.rows.len() as int }))),
        StepView::Sort(column, descending) => sort_step(t, column, descending),
    }
}

/// The steps in turn; `None` at the first that fails.
pub open spec fn run_steps(t: TableView, steps: Seq<StepView>) -> Option<TableView>
    decreases steps.len(),
{
    if steps.len() == 0 {
        Some(t)
    } else {
        match run_steps(t, steps.drop_last()) {
            Some(u) => apply_step(u, steps.last()),
            None => None,
        }
    }
}

/// Lengths of a dataset's views.
pub proof fn lemma_names_rows(ds: &Dataset)
    ensures
        ds.names().len() == ds.fields@.len(),
        ds.rows_view().len() == ds.rows@.len(),
{
}

/// Where a name is found, for callers outside this module.
pub proof fn lemma_lookup_names(ds: &Dataset, name: Seq<char>)
    ensures
        has_column(ds, name) == (first_pos(ds.names(), name) < ds.names().len()),
        first_index(ds, name) == first_pos(ds.names(), name),
{
    lemma_lookup(ds, name);
}

/// Every filter names a column of `names` and carries a literal fit for its operator.
pub open spec fn filters_fit(names: Seq<Seq<char>>, fs: Seq<FilterView>) -> bool {
    forall|i: int| 0 <= i < fs.len() ==> first_pos(names, #[trigger] fs[i].column) < names.len()
        && literal_suits(fs[i].operator, fs[i].value)
}

/// Filters succeed exactly when they all fit the columns, which they leave unchanged.
pub proof fn lemma_filters_fit(t: TableView, fs: Seq<FilterView>)
    ensures
        filter_all(t, fs) is Some <==> filters_fit(t.names, fs),
        filter_all(t, fs) matches Some(u) ==> u.names == t.names,
    decreases fs.len(),
{
    if fs.len() > 0 {
        let init = fs.drop_last();
        lemma_filters_fit(t, init);
        let last = fs[fs.len() - 1];
        assert(fs.last() == last);
        let last_fits = first_pos(t.names, last.column) < t.names.len() && literal_suits(last.operator, last.value);
        if filters_fit(t.names, fs) {
            assert forall|i: int| 0 <= i < init.len() implies first_pos(t.names, #[trigger] init[i].column) < t.names.len()
                && literal_suits(init[i].operator, init[i].value) by {
                assert(init[i] == fs[i]);
            }
            assert(last_fits);
        }
        if filters_fit(t.names, init) && last_fits {
            assert forall|i: int| 0 <= i < fs.len() implies first_pos(t.names, #[trigger] fs[i].column) < t.names.len()
                && literal_suits(fs[i].operator, fs[i].value) by {
                if i < init.len() {
                    assert(init[i] == fs[i]);
                }
            }
        }
    }
}

/// Checks that every filter names a column of `ds` and carries a literal fit for its
/// operator; the first that does not gives `ColumnNotFound` or a parse error.
pub fn check_filters(ds: &Dataset, filters: &Vec<FilterSpec>) -> (r: Result<(), DataError>)
    ensures
        r is Ok <==> filter_all(table_of(ds), filters_view(filters@)) is Some,
        r matches Err(e) ==> e is ColumnNotFound || e is ParseError,
{
    let ghost fv = filters_view(filters@);
    proof {
        lemma_filters_fit(table_of(ds), fv);
    }
    let mut i: usize = 0;
    while i < filters.len()
        invariant
            i <= filters@.len(),
            fv == filters_view(filters@),
            fv.len() == filters@.len(),
            filter_all(table_of(ds), fv) is Some <==> filters_fit(ds.names(), fv),
            forall|k: int| 0 <= k < i ==> first_pos(ds.names(), #[trigger] fv[k].column) < ds.names().len()
                && literal_suits(fv[k].operator, fv[k].value),
        decreases filters@.len() - i,
    {
        let f = &filters[i];
        proof {
            lemma_lookup(ds, f.column@);
            assert(fv[i as int] == crate::planner::filter_view(*f));
        }
        match locate(ds, &f.column) {
            Ok(_) => {},
            Err(e) => {
                assert(!(first_pos(ds.names(), fv[i as int].column) < ds.names().len()));
                return Err(e);
            },
        }
        if !crate::filter::literal_fits(f.operator, &f.value) {
            assert(fv[i as int].column == f.column@);
            assert(first_pos(ds.names(), fv[i as int].column) < ds.names().len());
            assert(!literal_suits(fv[i as int].operator, fv[i as int].value));
            return Err(DataError::ParseError(String::from_str("unsupported filter value")));
        }
        assert(has_column(ds, f.column@));
        assert(fv[i as int].column == f.column@);
        assert(first_pos(ds.names(), fv[i as int].column) < ds.names().len());
        assert(literal_suits(fv[i as int].operator, fv[i as int].value));
        assert forall|k: int| 0 <= k < i + 1 implies first_pos(ds.names(), #[trigger] fv[k].column) < ds.names().len()
            && literal_suits(fv[k].operator, fv[k].value) by {
            if k == i {
                assert(first_pos(ds.names(), fv[i as int].column) < ds.names().len());
            }
        }
        i = i + 1;
    }
    Ok(())
}

proof fn lemma_names_len(ds: &Dataset)
    ensures
        ds.names().len() == ds.fields@.len(),
        ds.kinds().len() == ds.fields@.len(),
        ds.rows_view().len() == ds.rows@.len(),
{
}

/// Where a name is found, in terms of the table view.
proof fn lemma_lookup(ds: &Dataset, name: Seq<char>)
    ensures
        has_column(ds, name) == (first_pos(ds.names(), name) < ds.names().len()),
        first_index(ds, name) == first_pos(ds.names(), name),
        has_column(ds, name) ==> 0 <= first_pos(ds.names(), name) < ds.fields@.len(),
{
    reveal(has_column);
    reveal(first_index);
    crate::filter::lemma_same_names(ds, ds, name);
}

/// A column of a well-formed dataset is that column of its table view.
proof fn lemma_column(ds: &Dataset, c: int)
    requires
        ds.wf(),
        0 <= c < ds.fields@.len(),
    ensures
        ds.column_view(c) == col(table_of(ds), c),
{
    assert forall|i: int| 0 <= i < ds.rows@.len() implies #[trigger] ds.column_view(c)[i] == col(table_of(ds), c)[i] by {
        assert(ds.rows@[i]@.len() == ds.fields@.len());
        assert(ds.rows_view()[i] == cells_view(ds.rows@[i]@));
    }
    assert(ds.column_view(c) =~= col(table_of(ds), c));
}

proof fn lemma_filter_all_none(t: TableView, fs: Seq<FilterView>, k: int)
    requires
        0 <= k <= fs.len(),
        filter_all(t, fs.take(k)) is None,
    ensures
        filter_all(t, fs) is None,
    decreases fs.len() - k,
{
    if k < fs.len() {
        assert(fs.take(k + 1).drop_last() =~= fs.take(k));
        lemma_filter_all_none(t, fs, k + 1);
    } else {
        assert(fs.take(k) =~= fs);
    }
}

proof fn lemma_run_steps_none(t: TableView, s: Seq<StepView>, k: int)
    requires
        0 <= k <= s.len(),
        run_steps(t, s.take(k)) is None,
    ensures
        run_steps(t, s) is None,
    decreases s.len() - k,
{
    if k < s.len() {
        assert(s.take(k + 1).drop_last() =~= s.take(k));
        lemma_run_steps_none(t, s, k + 1);
    } else {
        assert(s.take(k) =~= s);
    }
}

/// The rows at positions `idx`, in that order.
pub fn take_rows(ds: &Dataset, idx: &Vec<usize>) -> (out: Dataset)
    requires
        ds.wf(),
        forall|k: int| 0 <= k < idx@.len() ==> #[trigger] idx@[k] < ds.rows@.len(),
    ensures
        out.wf(),
        out.names() == ds.names(),
        out.kinds() == ds.kinds(),
        out.fields@.len() == ds.fields@.len(),
        out.rows_view() == as_positions(idx@).map_values(|i: int| ds.rows_view()[i]),
        out.rows@.len() == idx@.len(),
{
    let fields = copy_fields(&ds.fields);
    let mut rows: Vec<Vec<Cell>> = Vec::new();
    let mut k: usize = 0;
    while k < idx.len()
        invariant
            ds.wf(),
            forall|m: int| 0 <= m < idx@.len() ==> #[trigger] idx@[m] < ds.rows@.len(),
            k <= idx@.len(),
            rows@.len() == k,
            forall|m: int| 0 <= m < k ==> #[trigger] rows@[m]@.len() == ds.fields@.len(),
            forall|m: int| 0 <= m < k ==> #[trigger] rows_of(rows@)[m] == ds.rows_view()[idx@[m] as int],
        decreases idx@.len() - k,
    {
        let i = idx[k];
        let row = copy_row(&ds.rows[i]);
        assert(ds.rows@[i as int]@.len() == ds.fields@.len());
        let ghost before = rows@;
        rows.push(row);
        assert forall|m: int| 0 <= m <= k implies #[trigger] rows_of(rows@)[m] == ds.rows_view()[idx@[m] as int] by {
            if m < k {
                assert(rows@[m] == before[m]);
                assert(rows_of(before)[m] == ds.rows_view()[idx@[m] as int]);
            }
        }
        k = k + 1;
    }
    let out = Dataset { fields, rows };
    assert(out.names() =~= ds.names()) by {
        assert forall|m: int| 0 <= m < ds.fields@.len() implies out.names()[m] == ds.names()[m] by {
            assert(out.fields@[m].name@ == ds.fields@[m].name@);
        }
    }
    assert(out.kinds() =~= ds.kinds()) by {
        assert forall|m: int| 0 <= m < ds.fields@.len() implies out.kinds()[m] == ds.kinds()[m] by {
            assert(out.fields@[m].kind == ds.fields@[m].kind);
        }
    }
    assert(out.rows_view() =~= as_positions(idx@).map_values(|i: int| ds.rows_view()[i]));
    out
}

/// The first `n` rows.
pub fn limit_rows(ds: &Dataset, n: usize) -> (out: Dataset)
    requires
        ds.wf(),
    ensures
        out.wf(),
        out.names() == ds.names(),
        out.fields@.len() == ds.fields@.len(),
        out.rows_view() == ds.rows_view().take(if n < ds.rows@.len() { n as int } else { ds.rows@.len() as int }),
        out.rows@.len() <= n,
        table_of(&out) == with_rows(
            table_of(ds),
            ds.rows_view().take(if n < ds.rows@.len() { n as int } else { ds.rows@.len() as int }),
        ),
{
    let m = if n < ds.rows.len() { n } else { ds.rows.len() };
    let mut idx: Vec<usize> = Vec::new();
    let mut k: usize = 0;
    while k < m
        invariant
            m <= ds.rows@.len(),
            k <= m,
            idx@.len() == k,
            forall|j: int| 0 <= j < k ==> #[trigger] idx@[j] == j,
        decreases m - k,
    {
        idx.push(k);
        k = k + 1;
    }
    let out = take_rows(ds, &idx);
    assert(out.rows_view() =~= ds.rows_view().take(m as int));
    out
}

/// The rows sorted by `column`, ascending or descending; equal keys keep their order.
pub fn sort_table(ds: &Dataset, column: &String, descending: bool) -> (r: Result<Dataset, DataError>)
    requires
        ds.wf(),
    ensures
        !has_column(ds, column@) ==> (r matches Err(DataError::ColumnNotFound { column: c, .. }) && c@ == column@),
        has_column(ds, column@) ==> (r matches Ok(out) && out.wf() && out.names() == ds.names()
            && out.fields@.len() == ds.fields@.len() && out.rows@.len() == ds.rows@.len()
            && out.rows_view() == sorted_rows(ds.rows_view(), first_index(ds, column@), descending)),
        match sort_step(table_of(ds), column@, descending) {
            Some(v) => r matches Ok(out) && out.wf() && table_of(&out) == v,
            None => r is Err,
        },
{
    proof {
        lemma_lookup(ds, column@);
        lemma_names_len(ds);
    }
    let c = match locate(ds, column) {
        Ok(c) => c,
        Err(e) => return Err(e),
    };
    let rows = sort_rows(&ds.rows, c, ds.fields.len(), descending);
    let fields = copy_fields(&ds.fields);
    let out = Dataset { fields, rows };
    assert(out.names() =~= ds.names()) by {
        assert forall|m: int| 0 <= m < ds.fields@.len() implies out.names()[m] == ds.names()[m] by {
            assert(out.fields@[m].name@ == ds.fields@[m].name@);
        }
    }
    assert(out.kinds() =~= ds.kinds()) by {
        assert forall|m: int| 0 <= m < ds.fields@.len() implies out.kinds()[m] == ds.kinds()[m] by {
            assert(out.fields@[m].kind == ds.fields@[m].kind);
        }
    }
    Ok(out)
}

/// Keeps the rows that pass every filter, in turn (see `filter_all`). Fails on the first
/// filter that names a missing column or carries a literal unfit for its operator.
pub fn apply_filters(ds: &Dataset, filters: &Vec<FilterSpec>) -> (r: Result<Dataset, DataError>)
    requires
        ds.wf(),
    ensures
        r matches Ok(out) ==> out.wf() && out.names() == ds.names() && out.rows@.len() <= ds.rows@.len(),
        filters@.len() == 0 ==> (r matches Ok(out) && out.rows_view() == ds.rows_view()),
        match filter_all(table_of(ds), filters_view(filters@)) {
            Some(v) => r matches Ok(out) && table_of(&out) == v,
            None => r is Err,
        },
{
    let ghost fv = filters_view(filters@);
    let mut cur = limit_rows(ds, ds.rows.len());
    assert(ds.rows_view().take(ds.rows@.len() as int) =~= ds.rows_view());
    assert(fv.take(0) =~= Seq::<FilterView>::empty());
    let mut i: usize = 0;
    while i < filters.len()
        invariant
            cur.wf(),
            i <= filters@.len(),
            fv == filters_view(filters@),
            cur.names() == ds.names(),
            cur.rows@.len() <= ds.rows@.len(),
            filters@.len() == 0 ==> cur.rows_view() == ds.rows_view(),
            filter_all(table_of(ds), fv.take(i as int)) == Some(table_of(&cur)),
        decreases filters@.len() - i,
    {
        let f = &filters[i];
        proof {
            assert(fv.take(i + 1).drop_last() =~= fv.take(i as int));
            assert(fv.take(i + 1).last() == crate::planner::filter_view(*f));
            lemma_lookup(&cur, f.column@);
            lemma_names_len(&cur);
        }
        let next = match apply_filter(&cur, f) {
            Ok(d) => d,
            Err(e) => {
                proof {
                    lemma_filter_all_none(table_of(ds), fv, i + 1);
                }
                return Err(e);
            },
        };
        proof {
            lemma_kept_len(cur.rows_view(), first_index(&cur, f.column@), f.operator, crate::filter::literal_cell(f.value));
            lemma_names_len(&next);
            assert(table_of(&next) == with_rows(table_of(&cur), kept_rows(cur.rows_view(), first_index(&cur, f.column@), f.operator, crate::filter::literal_cell(f.value))));
        }
        cur = next;
        i = i + 1;
    }
    assert(fv.take(filters@.len() as int) =~= fv);
    Ok(cur)
}

proof fn lemma_kept_len(rows: Seq<Seq<CellView>>, c: int, op: crate::types::FilterOperator, v: CellView)
    ensures
        crate::filter::kept_rows(rows, c, op, v).len() <= rows.len(),
    decreases rows.len(),
{
    if rows.len() > 0 {
        lemma_kept_len(rows.drop_last(), c, op, v);
    }
}

/// The cell of a summary: an integer, or null when there is none.
pub open spec fn summary_cell(v: Option<int>) -> CellView {
    match v {
        Some(x) => CellView::Int(x),
        None => CellView::Null,
    }
}

/// The two-column table of groups: the label, then `value`.
pub open spec fn group_rows(g: Seq<GroupView>) -> Seq<Seq<CellView>> {
    g.map_values(|x: GroupView| seq![x.label, summary_cell(x.value)])
}

fn table_of_groups(name: &String, kind: ColumnKind, groups: &Vec<Group>) -> (out: Dataset)
    ensures
        out.wf(),
        out.names() == seq![name@, "value"@],
        out.kinds() == seq![kind, ColumnKind::Integer],
        out.fields@.len() == 2,
        out.fields@[0].name@ == name@,
        out.fields@[1].name@ == "value"@,
        out.rows_view() == group_rows(groups_view(groups@)),
        out.rows@.len() == groups@.len(),
{
    proof {
        reveal_strlit("value");
    }
    let mut fields: Vec<Field> = Vec::new();
    fields.push(Field { name: name.clone(), kind });
    fields.push(Field { name: String::from_str("value"), kind: ColumnKind::Integer });
    let mut rows: Vec<Vec<Cell>> = Vec::new();
    let mut k: usize = 0;
    while k < groups.len()
        invariant
            fields@.len() == 2,
            k <= groups@.len(),
            rows@.len() == k,
            forall|m: int| 0 <= m < k ==> #[trigger] rows@[m]@.len() == 2,
            forall|m: int| 0 <= m < k ==> #[trigger] rows_of(rows@)[m] == group_rows(groups_view(groups@))[m],
        decreases groups@.len() - k,
    {
        let mut row: Vec<Cell> = Vec::new();
        row.push(groups[k].label.duplicate());
        row.push(
            match groups[k].value {
                Some(v) => Cell::Int(v),
                None => Cell::Null,
            },
        );
        assert(cells_view(row@) =~= group_rows(groups_view(groups@))[k as int]);
        let ghost before = rows@;
        rows.push(row);
        assert forall|m: int| 0 <= m <= k implies #[trigger] rows_of(rows@)[m] == group_rows(groups_view(groups@))[m] by {
            if m < k {
                assert(rows@[m] == before[m]);
                assert(rows_of(before)[m] == group_rows(groups_view(groups@))[m]);
            }
        }
        k = k + 1;
    }
    let out = Dataset { fields, rows };
    assert(out.rows_view() =~= group_rows(groups_view(groups@)));
    assert(out.names() =~= seq![name@, "value"@]);
    assert(out.kinds() =~= seq![kind, ColumnKind::Integer]);
    out
}

/// Groups `measure` by `group_by` into a two-column table: the group, then `value`
/// (see `aggregate_step`).
pub fn aggregate_table(ds: &Dataset, group_by: &String, measure: &String, agg: AggregationType) -> (r: Result<Dataset, DataError>)
    requires
        ds.wf(),
    ensures
        match aggregate_step(table_of(ds), group_by@, measure@, agg) {
            Some(v) => r matches Ok(out) && out.wf() && table_of(&out) == v,
            None => r is Err,
        },
        r matches Ok(out) ==> out.wf() && out.fields@.len() == 2 && out.rows@.len() <= ds.rows@.len(),
{
    proof {
        lemma_lookup(ds, group_by@);
        lemma_lookup(ds, measure@);
        lemma_names_len(ds);
        if has_column(ds, group_by@) && has_column(ds, measure@) {
            lemma_column(ds, first_index(ds, group_by@));
            lemma_column(ds, first_index(ds, measure@));
        }
    }
    let groups = match apply_aggregation(ds, group_by, measure, agg) {
        Ok(g) => g,
        Err(e) => return Err(e),
    };
    let xc = match locate(ds, group_by) {
        Ok(c) => c,
        Err(e) => return Err(e),
    };
    proof {
        crate::safety::lemma_distinct_len(ds.column_view(xc as int));
    }
    let out = table_of_groups(group_by, ds.fields[xc].kind, &groups);
    proof {
        lemma_names_len(&out);
    }
    Ok(out)
}

/// The groups of a two-column table of labels and summaries.
pub open spec fn groups_of(rows: Seq<Seq<CellView>>, c: int, v: int) -> Seq<GroupView> {
    rows.map_values(|r: Seq<CellView>| GroupView { label: r[c], value: match r[v] { CellView::Int(x) => Some(x), _ => None } })
}

/// Top-N over a table: groups labelled by `column` with summaries in `value`, ranked by
/// descending summary and reduced as `apply_top_n_with_others` does, into a two-column
/// table (see `top_n_step`).
pub fn top_n_table(ds: &Dataset, column: &String, n: usize, include_others: bool) -> (r: Result<Dataset, DataError>)
    requires
        ds.wf(),
    ensures
        r matches Ok(out) ==> out.wf() && out.fields@.len() == 2 && out.rows@.len() <= (if ds.rows@.len() <= n {
            ds.rows@.len() as int
        } else {
            n + 1
        }),
        match top_n_step(table_of(ds), column@, n as nat, include_others) {
            Some(v) => r matches Ok(out) && out.wf() && table_of(&out) == v,
            None => r is Err,
        },
{
    proof {
        reveal_strlit("value");
        lemma_lookup(ds, column@);
        lemma_lookup(ds, "value"@);
        lemma_names_len(ds);
    }
    let c = match locate(ds, column) {
        Ok(c) => c,
        Err(e) => return Err(e),
    };
    let value_name = String::from_str("value");
    let v = match locate(ds, &value_name) {
        Ok(v) => v,
        Err(e) => return Err(e),
    };
    let mut groups: Vec<Group> = Vec::new();
    let mut i: usize = 0;
    while i < ds.rows.len()
        invariant
            ds.wf(),
            c < ds.fields@.len(),
            v < ds.fields@.len(),
            i <= ds.rows@.len(),
            groups@.len() == i,
            forall|m: int| 0 <= m < i ==> #[trigger] groups@[m]@ == groups_of(ds.rows_view(), c as int, v as int)[m],
        decreases ds.rows@.len() - i,
    {
        assert(ds.rows@[i as int]@.len() == ds.fields@.len());
        let value = match &ds.rows[i][v] {
            Cell::Int(x) => Some(*x),
            _ => None,
        };
        groups.push(Group { label: ds.rows[i][c].duplicate(), value });
        assert(groups@[i as int]@ == groups_of(ds.rows_view(), c as int, v as int)[i as int]);
        i = i + 1;
    }
    assert(groups_view(groups@) =~= groups_of(ds.rows_view(), c as int, v as int));
    let top = if groups.len() <= n {
        crate::topn::rank_groups(&groups)
    } else {
        match apply_top_n_with_others(&groups, n, include_others) {
            Ok(t) => t.0,
            Err(e) => return Err(e),
        }
    };
    proof {
        let g = groups_of(ds.rows_view(), c as int, v as int);
        if g.len() > n {
            crate::topn::lemma_ranked_len(g);
        }
    }
    let out = table_of_groups(column, ds.fields[c].kind, &top);
    proof {
        lemma_names_len(&out);
        assert(ds.kinds()[c as int] == ds.fields@[c as int].kind);
        let g = groups_of(ds.rows_view(), c as int, v as int);
        assert(table_of(&out) == TableView {
            names: seq![column@, "value"@],
            kinds: seq![table_of(ds).kinds[c as int], ColumnKind::Integer],
            rows: group_rows(if g.len() <= n { ranked(g) } else { top_n_outcome(g, n as nat, include_others).0 }),
        });
    }
    Ok(out)
}

/// Systematic sample of the rows, to `target` rows with offset from `seed`.
pub fn sample_table(ds: &Dataset, target: usize, seed: u64) -> (out: Dataset)
    requires
        ds.wf(),
    ensures
        out.wf(),
        out.names() == ds.names(),
        out.fields@.len() == ds.fields@.len(),
        out.rows_view() == systematic_pick(ds.rows@.len() as int, ds.rows@.len() as int, target as int, seed as int).map_values(
            |i: int| ds.rows_view()[i],
        ),
        out.rows@.len() <= (if ds.rows@.len() <= target { ds.rows@.len() as int } else { target as int }),
        table_of(&out) == with_rows(
            table_of(ds),
            systematic_pick(ds.rows@.len() as int, ds.rows@.len() as int, target as int, seed as int).map_values(
                |i: int| ds.rows_view()[i],
            ),
        ),
{
    let n = ds.rows.len();
    let idx = systematic_rows(n, n, target, seed);
    proof {
        crate::sampling::lemma_systematic_in_range(n as int, n as int, target as int, seed as int);
        assert forall|k: int| 0 <= k < idx@.len() implies #[trigger] idx@[k] < ds.rows@.len() by {
            assert(as_positions(idx@)[k] == idx@[k] as int);
        }
    }
    take_rows(ds, &idx)
}

/// A step that keeps every one of `n` rows.
pub open spec fn keeps_count(s: StepView, n: nat) -> bool {
    match s {
        StepView::DateBin(_, _) | StepView::Sort(_, _) => true,
        StepView::Limit(k) => k >= n,
        _ => false,
    }
}

/// The metadata of `m` but for the returned point count.
pub open spec fn same_but_count(a: ReductionMetadata, b: ReductionMetadata) -> bool {
    &&& a.reduced == b.reduced
    &&& a.reduction_reason == b.reduction_reason
    &&& a.original_row_estimate == b.original_row_estimate
    &&& a.sample_ratio == b.sample_ratio
    &&& a.top_n_value == b.top_n_value
    &&& a.date_bin_granularity == b.date_bin_granularity
    &&& a.distribution_preserved == b.distribution_preserved
    &&& crate::planner::records_view(a.reduction_steps@) == crate::planner::records_view(b.reduction_steps@)
    &&& match (a.warning_message, b.warning_message) {
        (Some(x), Some(y)) => x@ == y@,
        (None, None) => true,
        _ => false,
    }
}

fn copy_metadata(m: &ReductionMetadata, returned: usize) -> (r: ReductionMetadata)
    ensures
        same_but_count(r, *m),
        r.returned_points == returned,
{
    let mut steps: Vec<ReductionStep> = Vec::new();
    let mut i: usize = 0;
    while i < m.reduction_steps.len()
        invariant
            i <= m.reduction_steps@.len(),
            steps@.len() == i,
            forall|k: int| 0 <= k < i ==> #[trigger] crate::planner::record_view(steps@[k])
                == crate::planner::record_view(m.reduction_steps@[k]),
        decreases m.reduction_steps@.len() - i,
    {
        let s = &m.reduction_steps[i];
        steps.push(
            ReductionStep {
                step_type: s.step_type,
                input_rows: s.input_rows,
                output_rows: s.output_rows,
                description: s.description.clone(),
            },
        );
        i = i + 1;
    }
    assert(crate::planner::records_view(steps@) =~= crate::planner::records_view(m.reduction_steps@));
    let warning = match &m.warning_message {
        Some(w) => Some(w.clone()),
        None => None,
    };
    ReductionMetadata {
        reduced: m.reduced,
        reduction_reason: m.reduction_reason,
        original_row_estimate: m.original_row_estimate,
        returned_points: returned,
        sample_ratio: m.sample_ratio,
        top_n_value: m.top_n_value,
        date_bin_granularity: m.date_bin_granularity,
        distribution_preserved: m.distribution_preserved,
        warning_message: warning,
        reduction_steps: steps,
    }
}

/// What a successful run of `plan` over `ds` gives: the table that its steps make of the
/// data (`run_steps`), the plan's metadata with the count of rows produced; no more rows
/// than a final limit; all rows when every step keeps them.
pub open spec fn execution_ok(plan: ExecutionPlan, ds: &Dataset, out: Dataset, m: ReductionMetadata) -> bool {
    &&& out.wf()
    &&& run_steps(table_of(ds), steps_view(plan.transformations@)) == Some(table_of(&out))
    &&& m.returned_points == out.rows@.len()
    &&& same_but_count(m, plan.reduction_metadata)
    &&& plan.transformations@.len() > 0 && plan.transformations@.last() is Limit ==> out.rows@.len()
        <= plan.transformations@.last()->Limit_0
    &&& (forall|i: int| 0 <= i < plan.transformations@.len() ==> #[trigger] keeps_count(
        steps_view(plan.transformations@)[i],
        ds.rows@.len(),
    )) ==> out.rows@.len() == ds.rows@.len()
}

/// Runs one step over a table: see `apply_step`.
pub fn run_step(cur: &Dataset, t: &Transformation) -> (r: Result<Dataset, DataError>)
    requires
        cur.wf(),
    ensures
        match apply_step(table_of(cur), t@) {
            Some(v) => r matches Ok(d) && d.wf() && table_of(&d) == v,
            None => r is Err,
        },
        r matches Ok(d) ==> d.wf(),
        r matches Ok(d) ==> (t is Limit ==> d.rows@.len() <= t->Limit_0),
        r matches Ok(d) ==> (keeps_count(t@, cur.rows@.len()) ==> d.rows@.len() == cur.rows@.len()),
{
    proof {
        lemma_names_len(cur);
    }
    match t {
        Transformation::Filter(fs) => apply_filters(cur, fs),
        Transformation::DateBin { column, granularity } => {
            proof {
                lemma_lookup(cur, column@);
                if has_column(cur, column@) {
                    assert(cur.kinds()[first_index(cur, column@)] == cur.fields@[first_index(cur, column@)].kind);
                }
            }
            let r = apply_date_binning(cur, column, *granularity);
            proof {
                if r is Ok {
                    lemma_names_len(&r->Ok_0);
                }
            }
            r
        },
        Transformation::NumericBin { .. } => {
            proof {
                reveal_strlit("numeric binning is not supported");
            }
            Err(DataError::ParseError(String::from_str("numeric binning is not supported")))
        },
        Transformation::Aggregate { group_by, measure, aggregation } => aggregate_table(
            cur,
            group_by,
            measure,
            *aggregation,
        ),
        Transformation::TopN { column, n, include_others } => top_n_table(cur, column, *n, *include_others),
        Transformation::Sample { target_rows, seed } => {
            let d = sample_table(cur, *target_rows, *seed);
            proof {
                lemma_names_len(&d);
            }
            Ok(d)
        },
        Transformation::Limit(k) => {
            let d = limit_rows(cur, *k);
            proof {
                lemma_names_len(&d);
            }
            Ok(d)
        },
        Transformation::Sort { column, descending } => sort_table(cur, column, *descending),
    }
}

/// Runs plans.
#[derive(Debug)]
pub struct PlanExecutor;

impl PlanExecutor {
    /// Runs the steps of `plan` in order over `ds`.
    ///
    /// An unsafe plan is refused with its blocking reason. Otherwise each step applies in
    /// turn (`run_steps`) and the first failing step ends the run. The metadata is the
    /// plan's, with the returned point count set to the rows actually produced.
    pub fn execute(plan: &ExecutionPlan, ds: &Dataset) -> (r: Result<(Dataset, ReductionMetadata), DataError>)
        requires
            ds.wf(),
        ensures
            !plan.is_safe ==> (r matches Err(DataError::SafetyBlock { reason, .. }) && match plan.blocking_reason {
                Some(b) => reason@ == b@,
                None => reason@ == "Query blocked for safety"@,
            }),
            r matches Ok((out, m)) ==> execution_ok(*plan, ds, out, m),
            plan.is_safe ==> (r is Ok <==> run_steps(table_of(ds), steps_view(plan.transformations@)) is Some),
            plan.is_safe && plan.transformations@.len() == 0 ==> (r matches Ok((out, m)) && out.rows_view() == ds.rows_view()),
    {
        if !plan.is_safe {
            proof {
                reveal_strlit("Query blocked for safety");
            }
            let reason = match &plan.blocking_reason {
                Some(b) => b.clone(),
                None => String::from_str("Query blocked for safety"),
            };
            return Err(
                DataError::SafetyBlock {
                    reason,
                    original_rows: plan.original_row_count,
                    max_allowed: plan.safety_config.max_points,
                },
            );
        }
        let ghost n = ds.rows@.len();
        let ghost sv = steps_view(plan.transformations@);
        let mut cur = limit_rows(ds, ds.rows.len());
        assert(ds.rows_view().take(ds.rows@.len() as int) =~= ds.rows_view());
        assert(table_of(&cur) == table_of(ds));
        assert(sv.take(0) =~= Seq::<StepView>::empty());
        let mut i: usize = 0;
        while i < plan.transformations.len()
            invariant
                plan.is_safe,
                cur.wf(),
                i <= plan.transformations@.len(),
                sv == steps_view(plan.transformations@),
                i == 0 ==> cur.rows_view() == ds.rows_view(),
                i > 0 && plan.transformations@[i - 1] is Limit ==> cur.rows@.len() <= plan.transformations@[i - 1]->Limit_0,
                (forall|k: int| 0 <= k < i ==> #[trigger] keeps_count(sv[k], n)) ==> cur.rows@.len() == n,
                run_steps(table_of(ds), sv.take(i as int)) == Some(table_of(&cur)),
            decreases plan.transformations@.len() - i,
        {
            assert(sv[i as int] == plan.transformations@[i as int]@);
            proof {
                assert(sv.take(i + 1).drop_last() =~= sv.take(i as int));
                assert(sv.take(i + 1).last() == sv[i as int]);
            }
            let next = run_step(&cur, &plan.transformations[i]);
            let d = match next {
                Ok(d) => d,
                Err(e) => {
                    proof {
                        lemma_run_steps_none(table_of(ds), sv, i + 1);
                    }
                    return Err(e);
                },
            };
            proof {
                if forall|k: int| 0 <= k < i + 1 ==> #[trigger] keeps_count(sv[k], n) {
                    assert(keeps_count(sv[i as int], n));
                    assert forall|k: int| 0 <= k < i implies #[trigger] keeps_count(sv[k], n) by {}
                    assert(cur.rows@.len() == n);
                    assert(cur.rows_view().len() == cur.rows@.len());
                    assert(d.rows_view().len() == d.rows@.len());
                }
            }
            cur = d;
            i = i + 1;
        }
        assert(sv.take(plan.transformations@.len() as int) =~= sv);
        let count = cur.rows.len();
        let meta = copy_metadata(&plan.reduction_metadata, count);
        proof {
            if plan.transformations@.len() > 0 {
                assert(plan.transformations@.last() == plan.transformations@[plan.transformations@.len() - 1]);
            }
        }
        Ok((cur, meta))
    }
}

/// Whatever the estimates, a chart never returns more than the global ceiling of
/// points: every plan ends in a limit no larger than the ceiling, and the run respects it.
pub proof fn returned_points_within_ceiling(
    p: ExecutionPlan,
    ds: &Dataset,
    spec: VisualizationSpec,
    zoom: int,
    out: Dataset,
    m: ReductionMetadata,
)
    requires
        plan_ok(p, ds, spec, zoom),
        execution_ok(p, ds, out, m),
    ensures
        m.returned_points <= MAX_VISUAL_POINTS,
{
    let f = facts_of(ds, spec, zoom);
    let sv = steps_view(p.transformations@);
    let ps = planned_steps(f, spec);
    assert(ps.last() == StepView::Limit(final_limit(f)));
    assert(sv.len() == p.transformations@.len());
    assert(sv.last() == p.transformations@.last()@);
}

/// No spurious reduction: without filters, with no aggregation called for and no more
/// rows than the policy's points, every row is returned.
pub proof fn no_spurious_reduction(
    p: ExecutionPlan,
    ds: &Dataset,
    spec: VisualizationSpec,
    zoom: int,
    out: Dataset,
    m: ReductionMetadata,
)
    requires
        plan_ok(p, ds, spec, zoom),
        execution_ok(p, ds, out, m),
        spec.filters@.len() == 0,
        !needs_aggregation(facts_of(ds, spec, zoom)),
        ds.rows@.len() <= facts_of(ds, spec, zoom).max_points,
    ensures
        m.returned_points == ds.rows@.len(),
{
    let f = facts_of(ds, spec, zoom);
    let ps = planned_steps(f, spec);
    let sv = steps_view(p.transformations@);
    assert(!applies_top_n(f));
    assert(!applies_sampling(f));
    assert forall|i: int| 0 <= i < sv.len() implies #[trigger] keeps_count(sv[i], ds.rows@.len()) by {
        assert(sv[i] == ps[i]);
        let a = if_step(spec.filters@.len() > 0, StepView::Filter(filters_view(spec.filters@)));
        assert(a.len() == 0);
    }
}

/// Planning is idempotent: two plans of the same request over the same data agree in
/// their policy, their steps and their expected reductions.
pub proof fn planning_is_idempotent(
    p1: ExecutionPlan,
    p2: ExecutionPlan,
    ds: &Dataset,
    spec: VisualizationSpec,
    zoom: int,
)
    requires
        plan_ok(p1, ds, spec, zoom),
        plan_ok(p2, ds, spec, zoom),
    ensures
        steps_view(p1.transformations@) == steps_view(p2.transformations@),
        same_but_count(p1.reduction_metadata, p2.reduction_metadata),
        p1.reduction_metadata.returned_points == p2.reduction_metadata.returned_points,
        p1.original_row_count == p2.original_row_count,
        p1.safety_config.max_points == p2.safety_config.max_points,
        p1.safety_config.requires_aggregation == p2.safety_config.requires_aggregation,
        p1.safety_config.allows_sampling == p2.safety_config.allows_sampling,
        p1.safety_config.max_bins == p2.safety_config.max_bins,
        p1.safety_config.chart_type_name@ == p2.safety_config.chart_type_name@,
        forall|i: int| 0 <= i < 2 ==> {
            let a = #[trigger] p1.cardinality_info@[i];
            let b = p2.cardinality_info@[i];
            &&& a.column_name@ == b.column_name@
            &&& a.unique_count == b.unique_count
            &&& a.total_count == b.total_count
            &&& a.null_count == b.null_count
            &&& a.is_numeric == b.is_numeric
            &&& a.is_datetime == b.is_datetime
            &&& a.cardinality_level == b.cardinality_level
            &&& a.recommended_action == b.recommended_action
        },
{
}

} // verus!
