//! Group-by aggregation of a measure column over the distinct values of a dimension.

use vstd::prelude::*;
use vstd::string::*;
use crate::error::DataError;
use crate::filter::{first_index, has_column, locate};
use crate::model::{Cell, CellView, ColumnKind, Dataset, cells_view};
use crate::types::AggregationType;

verus! {

/// One aggregated group: its dimension value and its summary (`None` when the group
/// has no value to summarise).
#[derive(Debug)]
pub struct Group {
    pub label: Cell,
    pub value: Option<i64>,
}

/// The value of a group.
pub struct GroupView {
    pub label: CellView,
    pub value: Option<int>,
}

impl View for Group {
    type V = GroupView;

    open spec fn view(&self) -> GroupView {
        GroupView {
            label: self.label@,
            value: match self.value {
                Some(v) => Some(v as int),
                None => None,
            },
        }
    }
}

pub open spec fn groups_view(s: Seq<Group>) -> Seq<GroupView> {
    s.map_values(|g: Group| g@)
}

/// The distinct values of `xs`, in order of first appearance.
pub open spec fn distinct_values(xs: Seq<CellView>) -> Seq<CellView>
    decreases xs.len(),
{
    if xs.len() == 0 {
        Seq::empty()
    } else {
        let before = distinct_values(xs.drop_last());
        if before.contains(xs.last()) {
            before
        } else {
            before.push(xs.last())
        }
    }
}

/// The entries of `ys` on the positions where `xs` holds `key`, in order.
pub open spec fn members(xs: Seq<CellView>, ys: Seq<CellView>, key: CellView) -> Seq<CellView>
    decreases xs.len(),
{
    if xs.len() == 0 || ys.len() == 0 {
        Seq::empty()
    } else {
        let before = members(xs.drop_last(), ys.drop_last(), key);
        if xs.last() == key {
            before.push(ys.last())
        } else {
            before
        }
    }
}

/// The integers among `vals`, in order.
pub open spec fn ints(vals: Seq<CellView>) -> Seq<int>
    decreases vals.len(),
{
    if vals.len() == 0 {
        Seq::empty()
    } else {
        match vals.last() {
            CellView::Int(v) => ints(vals.drop_last()).push(v),
            _ => ints(vals.drop_last()),
        }
    }
}

/// Number of non-null entries.
pub open spec fn non_null(vals: Seq<CellView>) -> nat
    decreases vals.len(),
{
    if vals.len() == 0 {
        0
    } else {
        non_null(vals.drop_last()) + if vals.last() is Null { 0nat } else { 1nat }
    }
}

/// Every entry is an integer or null.
pub open spec fn numeric_only(vals: Seq<CellView>) -> bool {
    forall|i: int| 0 <= i < vals.len() ==> (#[trigger] vals[i] is Int || vals[i] is Null)
}

pub open spec fn total(s: Seq<int>) -> int
    decreases s.len(),
{
    if s.len() == 0 {
        0
    } else {
        total(s.drop_last()) + s.last()
    }
}

pub open spec fn least(s: Seq<int>) -> int
    decreases s.len(),
{
    if s.len() <= 1 {
        if s.len() == 0 { 0 } else { s[0] }
    } else {
        let m = least(s.drop_last());
        if s.last() < m { s.last() } else { m }
    }
}

pub open spec fn greatest(s: Seq<int>) -> int
    decreases s.len(),
{
    if s.len() <= 1 {
        if s.len() == 0 { 0 } else { s[0] }
    } else {
        let m = greatest(s.drop_last());
        if s.last() > m { s.last() } else { m }
    }
}

/// Where `x` goes in the ascending sequence `t`: after every entry not above it.
pub open spec fn insert_pos(t: Seq<int>, x: int) -> int
    decreases t.len(),
{
    if t.len() == 0 {
        0
    } else if t[0] > x {
        0
    } else {
        1 + insert_pos(t.drop_first(), x)
    }
}

/// `s` in ascending order.
pub open spec fn ascending(s: Seq<int>) -> Seq<int>
    decreases s.len(),
{
    if s.len() == 0 {
        Seq::empty()
    } else {
        let t = ascending(s.drop_last());
        t.insert(insert_pos(t, s.last()), s.last())
    }
}

/// The median: the middle entry of the ascending order, or the mean (rounded down) of
/// the two middle entries.
pub open spec fn median(s: Seq<int>) -> int {
    let t = ascending(s);
    (t[(s.len() - 1) / 2] + t[(s.len() / 2) as int]) / 2
}

/// The summary of a group's measure values (means are rounded down).
pub open spec fn summary(vals: Seq<CellView>, agg: AggregationType) -> Option<int> {
    let v = ints(vals);
    match agg {
        AggregationType::Sum => Some(total(v)),
        AggregationType::Count => Some(non_null(vals) as int),
        AggregationType::Avg => if v.len() == 0 { None } else { Some(total(v) / (v.len() as int)) },
        AggregationType::Min => if v.len() == 0 { None } else { Some(least(v)) },
        AggregationType::Max => if v.len() == 0 { None } else { Some(greatest(v)) },
        AggregationType::Median => if v.len() == 0 { None } else { Some(median(v)) },
    }
}

pub open spec fn fits_i64(v: Option<int>) -> bool {
    match v {
        Some(x) => i64::MIN <= x <= i64::MAX,
        None => true,
    }
}

/// The groups of `ys` by `xs`: one per distinct value of `xs`, in order of first appearance.
pub open spec fn grouping(xs: Seq<CellView>, ys: Seq<CellView>, agg: AggregationType) -> Seq<
    GroupView,
> {
    distinct_values(xs).map_values(
        |k: CellView| GroupView { label: k, value: summary(members(xs, ys, k), agg) },
    )
}

/// Every group's summary fits in 64 bits.
pub open spec fn grouping_fits(xs: Seq<CellView>, ys: Seq<CellView>, agg: AggregationType) -> bool {
    forall|j: int|
        0 <= j < distinct_values(xs).len() ==> fits_i64(
            #[trigger] summary(members(xs, ys, distinct_values(xs)[j]), agg),
        )
}

/// The name of a column type, as shown in messages.
pub open spec fn kind_name(k: ColumnKind) -> Seq<char> {
    match k {
        ColumnKind::Integer => "integer"@,
        ColumnKind::Boolean => "boolean"@,
        ColumnKind::Text => "text"@,
        ColumnKind::Date => "date"@,
        ColumnKind::Datetime => "datetime"@,
    }
}

pub fn kind_label(k: ColumnKind) -> (r: String)
    ensures
        r@ == kind_name(k),
{
    proof {
        reveal_strlit("integer");
        reveal_strlit("boolean");
        reveal_strlit("text");
        reveal_strlit("date");
        reveal_strlit("datetime");
    }
    let s = match k {
        ColumnKind::Integer => "integer",
        ColumnKind::Boolean => "boolean",
        ColumnKind::Text => "text",
        ColumnKind::Date => "date",
        ColumnKind::Datetime => "datetime",
    };
    String::from_str(s)
}

/// The cells of column `c`, top to bottom.
pub fn column_cells(ds: &Dataset, c: usize) -> (r: Vec<Cell>)
    requires
        ds.wf(),
        c < ds.fields@.len(),
    ensures
        cells_view(r@) == ds.column_view(c as int),
        r@.len() == ds.rows@.len(),
{
    let mut r: Vec<Cell> = Vec::new();
    let mut i: usize = 0;
    while i < ds.rows.len()
        invariant
            ds.wf(),
            c < ds.fields@.len(),
            i <= ds.rows@.len(),
            r@.len() == i,
            forall|k: int| 0 <= k < i ==> #[trigger] r@[k]@ == ds.rows@[k]@[c as int]@,
        decreases ds.rows@.len() - i,
    {
        assert(ds.rows@[i as int]@.len() == ds.fields@.len());
        r.push(ds.rows[i][c].duplicate());
        i = i + 1;
    }
    assert(cells_view(r@) =~= ds.column_view(c as int));
    r
}

/// The distinct cells of `xs`, in order of first appearance.
pub fn distinct_cells(xs: &Vec<Cell>) -> (keys: Vec<Cell>)
    ensures
        cells_view(keys@) == distinct_values(cells_view(xs@)),
{
    let ghost xv = cells_view(xs@);
    let mut keys: Vec<Cell> = Vec::new();
    let mut i: usize = 0;
    while i < xs.len()
        invariant
            i <= xs@.len(),
            xv == cells_view(xs@),
            cells_view(keys@) == distinct_values(xv.take(i as int)),
        decreases xs@.len() - i,
    {
        assert(xv.take(i + 1).drop_last() =~= xv.take(i as int));
        assert(xv.take(i + 1).last() == xs@[i as int]@);
        let mut found = false;
        let mut j: usize = 0;
        while j < keys.len()
            invariant
                i < xs@.len(),
                j <= keys@.len(),
                !found ==> forall|m: int| 0 <= m < j ==> keys@[m]@ != xs@[i as int]@,
                found ==> cells_view(keys@).contains(xs@[i as int]@),
            decreases keys@.len() - j,
        {
            if keys[j].same_as(&xs[i]) {
                found = true;
                assert(cells_view(keys@)[j as int] == xs@[i as int]@);
            }
            j = j + 1;
        }
        if !found {
            let ghost before = keys@;
            assert(!cells_view(keys@).contains(xs@[i as int]@)) by {
                if cells_view(keys@).contains(xs@[i as int]@) {
                    let m = choose|m: int| 0 <= m < keys@.len() && cells_view(keys@)[m] == xs@[i as int]@;
                    assert(keys@[m]@ == xs@[i as int]@);
                }
            }
            keys.push(xs[i].duplicate());
            assert(cells_view(keys@) =~= cells_view(before).push(xs@[i as int]@));
        }
        i = i + 1;
    }
    assert(xv.take(xs@.len() as int) =~= xv);
    keys
}

/// The cells of `ys` beside the cells of `xs` equal to `key`.
pub fn member_cells(xs: &Vec<Cell>, ys: &Vec<Cell>, key: &Cell) -> (r: Vec<Cell>)
    requires
        xs@.len() == ys@.len(),
    ensures
        cells_view(r@) == members(cells_view(xs@), cells_view(ys@), key@),
{
    let ghost xv = cells_view(xs@);
    let ghost yv = cells_view(ys@);
    let mut r: Vec<Cell> = Vec::new();
    let mut i: usize = 0;
    while i < xs.len()
        invariant
            i <= xs@.len(),
            xs@.len() == ys@.len(),
            xv == cells_view(xs@),
            yv == cells_view(ys@),
            cells_view(r@) == members(xv.take(i as int), yv.take(i as int), key@),
        decreases xs@.len() - i,
    {
        assert(xv.take(i + 1).drop_last() =~= xv.take(i as int));
        assert(yv.take(i + 1).drop_last() =~= yv.take(i as int));
        assert(xv.take(i + 1).last() == xs@[i as int]@);
        assert(yv.take(i + 1).last() == ys@[i as int]@);
        if xs[i].same_as(key) {
            let ghost before = r@;
            r.push(ys[i].duplicate());
            assert(cells_view(r@) =~= cells_view(before).push(ys@[i as int]@));
        }
        i = i + 1;
    }
    assert(xv.take(xs@.len() as int) =~= xv);
    assert(yv.take(xs@.len() as int) =~= yv);
    r
}

/// Whether every cell is an integer or null.
pub fn all_numeric(vals: &Vec<Cell>) -> (r: bool)
    ensures
        r == numeric_only(cells_view(vals@)),
{
    let mut i: usize = 0;
    while i < vals.len()
        invariant
            i <= vals@.len(),
            forall|k: int| 0 <= k < i ==> (#[trigger] vals@[k]@ is Int || vals@[k]@ is Null),
        decreases vals@.len() - i,
    {
        match &vals[i] {
            Cell::Int(_) | Cell::Null => {},
            _ => {
                assert(!(cells_view(vals@)[i as int] is Int || cells_view(vals@)[i as int] is Null));
                return false;
            },
        }
        i = i + 1;
    }
    assert forall|k: int| 0 <= k < vals@.len() implies (#[trigger] cells_view(vals@)[k] is Int
        || cells_view(vals@)[k] is Null) by {
        assert(cells_view(vals@)[k] == vals@[k]@);
    }
    true
}

/// The integers among the cells.
pub fn int_cells(vals: &Vec<Cell>) -> (r: Vec<i64>)
    ensures
        r@.map_values(|v: i64| v as int) == ints(cells_view(vals@)),
{
    let ghost vv = cells_view(vals@);
    let mut r: Vec<i64> = Vec::new();
    let mut i: usize = 0;
    while i < vals.len()
        invariant
            i <= vals@.len(),
            vv == cells_view(vals@),
            r@.map_values(|v: i64| v as int) == ints(vv.take(i as int)),
        decreases vals@.len() - i,
    {
        assert(vv.take(i + 1).drop_last() =~= vv.take(i as int));
        assert(vv.take(i + 1).last() == vals@[i as int]@);
        let ghost before = r@;
        match &vals[i] {
            Cell::Int(v) => {
                r.push(*v);
                assert(r@.map_values(|v: i64| v as int) =~= before.map_values(|v: i64| v as int).push(
                    *v as int,
                ));
            },
            _ => {},
        }
        i = i + 1;
    }
    assert(vv.take(vals@.len() as int) =~= vv);
    r
}

/// Number of non-null cells.
pub fn count_non_null(vals: &Vec<Cell>) -> (r: usize)
    ensures
        r == non_null(cells_view(vals@)),
{
    let ghost vv = cells_view(vals@);
    let mut n: usize = 0;
    let mut i: usize = 0;
    while i < vals.len()
        invariant
            i <= vals@.len(),
            n <= i,
            vv == cells_view(vals@),
            n == non_null(vv.take(i as int)),
        decreases vals@.len() - i,
    {
        assert(vv.take(i + 1).drop_last() =~= vv.take(i as int));
        assert(vv.take(i + 1).last() == vals@[i as int]@);
        if !vals[i].is_null() {
            n = n + 1;
        }
        i = i + 1;
    }
    assert(vv.take(vals@.len() as int) =~= vv);
    n
}

pub open spec fn as_ints(s: Seq<i64>) -> Seq<int> {
    s.map_values(|v: i64| v as int)
}

/// The exact sum of 64-bit integers.
pub fn sum_i64(v: &Vec<i64>) -> (r: i128)
    ensures
        r == total(as_ints(v@)),
        -(v@.len() as int) * 0x8000_0000_0000_0000 <= r <= (v@.len() as int) * 0x7fff_ffff_ffff_ffff,
{
    let ghost w = as_ints(v@);
    let mut acc: i128 = 0;
    let mut i: usize = 0;
    while i < v.len()
        invariant
            i <= v@.len(),
            w == as_ints(v@),
            acc == total(w.take(i as int)),
            -(i as int) * 0x8000_0000_0000_0000 <= acc <= (i as int) * 0x7fff_ffff_ffff_ffff,
        decreases v@.len() - i,
    {
        assert(w.take(i + 1).drop_last() =~= w.take(i as int));
        assert(w.take(i + 1).last() == v@[i as int] as int);
        assert(i < 0x1_0000_0000_0000_0000);
        acc = acc + v[i] as i128;
        i = i + 1;
    }
    assert(w.take(v@.len() as int) =~= w);
    acc
}

/// The smallest of non-empty 64-bit integers.
pub fn min_i64(v: &Vec<i64>) -> (r: i64)
    requires
        v@.len() > 0,
    ensures
        r == least(as_ints(v@)),
{
    let ghost w = as_ints(v@);
    let mut m = v[0];
    let mut i: usize = 1;
    assert(w.take(1) =~= seq![v@[0] as int]);
    while i < v.len()
        invariant
            1 <= i <= v@.len(),
            w == as_ints(v@),
            m == least(w.take(i as int)),
        decreases v@.len() - i,
    {
        assert(w.take(i + 1).drop_last() =~= w.take(i as int));
        if v[i] < m {
            m = v[i];
        }
        i = i + 1;
    }
    assert(w.take(v@.len() as int) =~= w);
    m
}

/// The largest of non-empty 64-bit integers.
pub fn max_i64(v: &Vec<i64>) -> (r: i64)
    requires
        v@.len() > 0,
    ensures
        r == greatest(as_ints(v@)),
{
    let ghost w = as_ints(v@);
    let mut m = v[0];
    let mut i: usize = 1;
    assert(w.take(1) =~= seq![v@[0] as int]);
    while i < v.len()
        invariant
            1 <= i <= v@.len(),
            w == as_ints(v@),
            m == greatest(w.take(i as int)),
        decreases v@.len() - i,
    {
        assert(w.take(i + 1).drop_last() =~= w.take(i as int));
        if v[i] > m {
            m = v[i];
        }
        i = i + 1;
    }
    assert(w.take(v@.len() as int) =~= w);
    m
}

/// `x / d` rounded down.
pub fn floor_div(x: i128, d: i128) -> (r: i128)
    requires
        d > 0,
        x > i128::MIN,
    ensures
        r == x as int / d as int,
{
    if x >= 0 {
        x / d
    } else {
        let m = -x;
        let q = m / d;
        let rem = m % d;
        proof {
            vstd::arithmetic::div_mod::lemma_fundamental_div_mod(m as int, d as int);
            assert(m as int == d * q + rem);
        }
        if rem == 0 {
            proof {
                assert(x as int == (-q) * d + 0) by (nonlinear_arith)
                    requires
                        m as int == d * q + rem,
                        rem == 0,
                        x == -m,
                ;
                vstd::arithmetic::div_mod::lemma_fundamental_div_mod_converse(x as int, d as int, -q, 0);
            }
            -q
        } else {
            proof {
                assert(x as int == (-q - 1) * d + (d - rem)) by (nonlinear_arith)
                    requires
                        m as int == d * q + rem,
                        x == -m,
                ;
                vstd::arithmetic::div_mod::lemma_fundamental_div_mod_converse(
                    x as int,
                    d as int,
                    -q - 1,
                    d - rem,
                );
            }
            -q - 1
        }
    }
}

proof fn lemma_insert_pos(t: Seq<int>, x: int, k: int)
    requires
        0 <= k <= t.len(),
        forall|m: int| 0 <= m < k ==> t[m] <= x,
        k < t.len() ==> t[k] > x,
    ensures
        insert_pos(t, x) == k,
    decreases k,
{
    if k > 0 {
        lemma_insert_pos(t.drop_first(), x, k - 1);
    }
}

/// The integers in ascending order.
pub fn ascending_i64(v: &Vec<i64>) -> (r: Vec<i64>)
    ensures
        as_ints(r@) == ascending(as_ints(v@)),
        r@.len() == v@.len(),
{
    let ghost w = as_ints(v@);
    let mut r: Vec<i64> = Vec::new();
    let mut i: usize = 0;
    while i < v.len()
        invariant
            i <= v@.len(),
            w == as_ints(v@),
            r@.len() == i,
            as_ints(r@) == ascending(w.take(i as int)),
        decreases v@.len() - i,
    {
        assert(w.take(i + 1).drop_last() =~= w.take(i as int));
        let x = v[i];
        let mut k: usize = 0;
        while k < r.len() && r[k] <= x
            invariant
                k <= r@.len(),
                forall|m: int| 0 <= m < k ==> r@[m] <= x,
            decreases r@.len() - k,
        {
            k = k + 1;
        }
        proof {
            lemma_insert_pos(as_ints(r@), x as int, k as int);
        }
        let ghost before = r@;
        r.insert(k, x);
        assert(as_ints(r@) =~= as_ints(before).insert(k as int, x as int));
        i = i + 1;
    }
    assert(w.take(v@.len() as int) =~= w);
    r
}

/// The median of non-empty 64-bit integers.
pub fn median_i64(v: &Vec<i64>) -> (r: i64)
    requires
        v@.len() > 0,
    ensures
        r == median(as_ints(v@)),
{
    let t = ascending_i64(v);
    let n = t.len();
    let a = t[(n - 1) / 2];
    let b = t[n / 2];
    let m = floor_div(a as i128 + b as i128, 2);
    assert(as_ints(t@)[(n - 1) / 2] == a);
    assert(as_ints(t@)[(n / 2) as int] == b);
    m as i64
}

/// The summary of a group's cells, or `None` when it does not fit in 64 bits.
pub fn summarize(vals: &Vec<Cell>, agg: AggregationType) -> (r: Option<Option<i64>>)
    requires
        agg is Count || numeric_only(cells_view(vals@)),
    ensures
        r is None <==> !fits_i64(summary(cells_view(vals@), agg)),
        r matches Some(x) ==> summary(cells_view(vals@), agg) == match x {
            Some(y) => Some(y as int),
            None => None::<int>,
        },
{
    if let AggregationType::Count = agg {
        let n = count_non_null(vals);
        assert(n <= usize::MAX);
        if n as u64 > 0x7fff_ffff_ffff_ffff {
            return None;
        }
        return Some(Some(n as i64));
    }
    let v = int_cells(vals);
    assert(as_ints(v@) == ints(cells_view(vals@)));
    match agg {
        AggregationType::Sum => {
            let s = sum_i64(&v);
            if s < -0x8000_0000_0000_0000 || s > 0x7fff_ffff_ffff_ffff {
                None
            } else {
                Some(Some(s as i64))
            }
        },
        AggregationType::Avg => {
            if v.len() == 0 {
                return Some(None);
            }
            let s = sum_i64(&v);
            let n = v.len() as i128;
            assert(n < 0x1_0000_0000_0000_0000);
            let q = floor_div(s, n);
            assert(-0x8000_0000_0000_0000 <= q <= 0x7fff_ffff_ffff_ffff) by (nonlinear_arith)
                requires
                    q == s / n,
                    n > 0,
                    -n * 0x8000_0000_0000_0000 <= s <= n * 0x7fff_ffff_ffff_ffff,
            ;
            Some(Some(q as i64))
        },
        AggregationType::Min => {
            if v.len() == 0 {
                Some(None)
            } else {
                Some(Some(min_i64(&v)))
            }
        },
        AggregationType::Max => {
            if v.len() == 0 {
                Some(None)
            } else {
                Some(Some(max_i64(&v)))
            }
        },
        _ => {
            if v.len() == 0 {
                Some(None)
            } else {
                Some(Some(median_i64(&v)))
            }
        },
    }
}

pub open spec fn overflow_message() -> Seq<char> {
    "aggregated value exceeds the 64-bit range"@
}

/// The groups of `ys` by the distinct values of `xs`, or the first group whose summary
/// does not fit in 64 bits.
pub fn group_cells(xs: &Vec<Cell>, ys: &Vec<Cell>, agg: AggregationType) -> (r: Option<Vec<Group>>)
    requires
        xs@.len() == ys@.len(),
        agg is Count || numeric_only(cells_view(ys@)),
    ensures
        r is None <==> !grouping_fits(cells_view(xs@), cells_view(ys@), agg),
        r matches Some(g) ==> groups_view(g@) == grouping(cells_view(xs@), cells_view(ys@), agg),
{
    let ghost xv = cells_view(xs@);
    let ghost yv = cells_view(ys@);
    let keys = distinct_cells(xs);
    let ghost kv = distinct_values(xv);
    let mut out: Vec<Group> = Vec::new();
    let mut j: usize = 0;
    while j < keys.len()
        invariant
            xs@.len() == ys@.len(),
            agg is Count || numeric_only(yv),
            xv == cells_view(xs@),
            yv == cells_view(ys@),
            kv == distinct_values(xv),
            cells_view(keys@) == kv,
            j <= keys@.len(),
            out@.len() == j,
            forall|m: int| 0 <= m < j ==> fits_i64(#[trigger] summary(members(xv, yv, kv[m]), agg)),
            forall|m: int| 0 <= m < j ==> #[trigger] out@[m]@ == grouping(xv, yv, agg)[m],
        decreases keys@.len() - j,
    {
        let m = member_cells(xs, ys, &keys[j]);
        assert(keys@[j as int]@ == kv[j as int]);
        proof {
            if agg !is Count {
                assert forall|i: int| 0 <= i < m@.len() implies (#[trigger] cells_view(m@)[i] is Int
                    || cells_view(m@)[i] is Null) by {
                    lemma_members_from(xv, yv, kv[j as int], cells_view(m@)[i]);
                }
            }
        }
        match summarize(&m, agg) {
            None => {
                return None;
            },
            Some(v) => {
                let g = Group { label: keys[j].duplicate(), value: v };
                out.push(g);
                assert(out@[j as int]@ == grouping(xv, yv, agg)[j as int]);
            },
        }
        j = j + 1;
    }
    assert(groups_view(out@) =~= grouping(xv, yv, agg));
    Some(out)
}

/// Every entry of a group's members is an entry of `ys`.
proof fn lemma_members_from(xs: Seq<CellView>, ys: Seq<CellView>, key: CellView, v: CellView)
    requires
        members(xs, ys, key).contains(v),
    ensures
        ys.contains(v),
    decreases xs.len(),
{
    if xs.len() == 0 || ys.len() == 0 {
    } else {
        let before = members(xs.drop_last(), ys.drop_last(), key);
        if xs.last() == key && v == ys.last() {
            assert(ys[ys.len() - 1] == v);
        } else {
            if xs.last() == key {
                let i = choose|i: int| 0 <= i < members(xs, ys, key).len() && members(xs, ys, key)[i] == v;
                assert(before.contains(v)) by {
                    assert(before[i] == v);
                }
            }
            lemma_members_from(xs.drop_last(), ys.drop_last(), key, v);
            let k = choose|k: int| 0 <= k < ys.drop_last().len() && ys.drop_last()[k] == v;
            assert(ys[k] == v);
        }
    }
}

/// Groups the measure column `y_field` by the dimension column `x_field`.
///
/// Each distinct value of the dimension, in order of first appearance, gives one group.
/// Every summary except `Count` needs a measure of integers (nulls are skipped).
pub fn apply_aggregation(ds: &Dataset, x_field: &String, y_field: &String, agg: AggregationType) -> (r:
    Result<Vec<Group>, DataError>)
    requires
        ds.wf(),
    ensures
        !has_column(ds, x_field@) ==> (r matches Err(DataError::ColumnNotFound { column, .. })
            && column@ == x_field@),
        has_column(ds, x_field@) && !has_column(ds, y_field@) ==> (r matches Err(
            DataError::ColumnNotFound { column, .. },
        ) && column@ == y_field@),
        has_column(ds, x_field@) && has_column(ds, y_field@) ==> ({
            let xv = ds.column_view(first_index(ds, x_field@));
            let yv = ds.column_view(first_index(ds, y_field@));
            if agg !is Count && !numeric_only(yv) {
                r matches Err(DataError::TypeMismatch { column, expected_type, .. })
                    && column@ == y_field@ && expected_type@ == "numeric"@
            } else if !grouping_fits(xv, yv, agg) {
                r matches Err(DataError::ParseError(msg)) && msg@ == overflow_message()
            } else {
                r matches Ok(g) && groups_view(g@) == grouping(xv, yv, agg)
            }
        }),
{
    let xc = match locate(ds, x_field) {
        Ok(c) => c,
        Err(e) => return Err(e),
    };
    let yc = match locate(ds, y_field) {
        Ok(c) => c,
        Err(e) => return Err(e),
    };
    let xs = column_cells(ds, xc);
    let ys = column_cells(ds, yc);
    if !matches!(agg, AggregationType::Count) && !all_numeric(&ys) {
        proof {
            reveal_strlit("numeric");
        }
        return Err(
            DataError::TypeMismatch {
                column: y_field.clone(),
                actual_type: kind_label(ds.fields[yc].kind),
                expected_type: String::from_str("numeric"),
            },
        );
    }
    match group_cells(&xs, &ys, agg) {
        Some(g) => Ok(g),
        None => {
            proof {
                reveal_strlit("aggregated value exceeds the 64-bit range");
            }
            Err(DataError::ParseError(String::from_str("aggregated value exceeds the 64-bit range")))
        },
    }
}

} // verus!
