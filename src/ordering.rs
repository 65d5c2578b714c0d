//! A total order on cells and stable row sorting by one column.

use vstd::prelude::*;
use crate::model::{Cell, CellView, Timestamp, cells_view, rows_of};
use crate::filter::copy_row;
use crate::text::chars_of;

verus! {

/// Rank of a cell's kind: nulls first, then booleans, integers, timestamps and texts.
pub open spec fn kind_rank(c: CellView) -> int {
    match c {
        CellView::Null => 0,
        CellView::Bool(_) => 1,
        CellView::Int(_) => 2,
        CellView::Stamp(_) => 3,
        CellView::Text(_) => 4,
    }
}

/// Lexicographic order on character sequences.
pub open spec fn text_lt(a: Seq<char>, b: Seq<char>) -> bool
    decreases a.len(),
{
    if a.len() == 0 {
        b.len() > 0
    } else if b.len() == 0 {
        false
    } else if a[0] != b[0] {
        a[0] < b[0]
    } else {
        text_lt(a.drop_first(), b.drop_first())
    }
}

pub open spec fn stamp_key(t: Timestamp) -> Seq<int> {
    seq![t.year as int, t.month as int, t.day as int, t.hour as int, t.minute as int, t.second as int]
}

pub open spec fn ints_lt(a: Seq<int>, b: Seq<int>) -> bool
    decreases a.len(),
{
    if a.len() == 0 || b.len() == 0 {
        a.len() < b.len()
    } else if a[0] != b[0] {
        a[0] < b[0]
    } else {
        ints_lt(a.drop_first(), b.drop_first())
    }
}

/// Cell `a` sorts strictly before cell `b`.
pub open spec fn cell_lt(a: CellView, b: CellView) -> bool {
    if kind_rank(a) != kind_rank(b) {
        kind_rank(a) < kind_rank(b)
    } else {
        match (a, b) {
            (CellView::Bool(x), CellView::Bool(y)) => !x && y,
            (CellView::Int(x), CellView::Int(y)) => x < y,
            (CellView::Stamp(x), CellView::Stamp(y)) => ints_lt(stamp_key(x), stamp_key(y)),
            (CellView::Text(x), CellView::Text(y)) => text_lt(x, y),
            _ => false,
        }
    }
}

fn chars_lt(a: &Vec<char>, b: &Vec<char>) -> (r: bool)
    ensures
        r == text_lt(a@, b@),
{
    let mut i: usize = 0;
    assert(a@.skip(0) =~= a@);
    assert(b@.skip(0) =~= b@);
    while i < a.len() && i < b.len() && a[i] == b[i]
        invariant
            i <= a@.len(),
            i <= b@.len(),
            text_lt(a@, b@) == text_lt(a@.skip(i as int), b@.skip(i as int)),
        decreases a@.len() - i,
    {
        assert(a@.skip(i as int).drop_first() =~= a@.skip(i + 1));
        assert(b@.skip(i as int).drop_first() =~= b@.skip(i + 1));
        i = i + 1;
    }
    if i == a.len() {
        i < b.len()
    } else if i == b.len() {
        false
    } else {
        assert(a@.skip(i as int)[0] == a@[i as int]);
        assert(b@.skip(i as int)[0] == b@[i as int]);
        a[i] < b[i]
    }
}

fn stamp_lt(x: &Timestamp, y: &Timestamp) -> (r: bool)
    ensures
        r == ints_lt(stamp_key(*x), stamp_key(*y)),
{
    let ghost a = stamp_key(*x);
    let ghost b = stamp_key(*y);
    proof {
        reveal_with_fuel(ints_lt, 7);
        assert(a.drop_first() =~= seq![x.month as int, x.day as int, x.hour as int, x.minute as int, x.second as int]);
        assert(b.drop_first() =~= seq![y.month as int, y.day as int, y.hour as int, y.minute as int, y.second as int]);
        assert(a.drop_first().drop_first() =~= seq![x.day as int, x.hour as int, x.minute as int, x.second as int]);
        assert(b.drop_first().drop_first() =~= seq![y.day as int, y.hour as int, y.minute as int, y.second as int]);
        assert(a.drop_first().drop_first().drop_first() =~= seq![x.hour as int, x.minute as int, x.second as int]);
        assert(b.drop_first().drop_first().drop_first() =~= seq![y.hour as int, y.minute as int, y.second as int]);
        assert(a.drop_first().drop_first().drop_first().drop_first() =~= seq![x.minute as int, x.second as int]);
        assert(b.drop_first().drop_first().drop_first().drop_first() =~= seq![y.minute as int, y.second as int]);
        assert(a.drop_first().drop_first().drop_first().drop_first().drop_first() =~= seq![x.second as int]);
        assert(b.drop_first().drop_first().drop_first().drop_first().drop_first() =~= seq![y.second as int]);
        assert(a.drop_first().drop_first().drop_first().drop_first().drop_first().drop_first() =~= Seq::<int>::empty());
        assert(b.drop_first().drop_first().drop_first().drop_first().drop_first().drop_first() =~= Seq::<int>::empty());
    }
    if x.year != y.year {
        x.year < y.year
    } else if x.month != y.month {
        x.month < y.month
    } else if x.day != y.day {
        x.day < y.day
    } else if x.hour != y.hour {
        x.hour < y.hour
    } else if x.minute != y.minute {
        x.minute < y.minute
    } else {
        x.second < y.second
    }
}

fn kind_rank_exec(c: &Cell) -> (r: u8)
    ensures
        r == kind_rank(c@),
{
    match c {
        Cell::Null => 0,
        Cell::Bool(_) => 1,
        Cell::Int(_) => 2,
        Cell::Stamp(_) => 3,
        Cell::Text(_) => 4,
    }
}

/// Whether cell `a` sorts strictly before cell `b`.
pub fn cell_before(a: &Cell, b: &Cell) -> (r: bool)
    ensures
        r == cell_lt(a@, b@),
{
    let ka = kind_rank_exec(a);
    let kb = kind_rank_exec(b);
    if ka != kb {
        return ka < kb;
    }
    match (a, b) {
        (Cell::Bool(x), Cell::Bool(y)) => !*x && *y,
        (Cell::Int(x), Cell::Int(y)) => *x < *y,
        (Cell::Stamp(x), Cell::Stamp(y)) => stamp_lt(x, y),
        (Cell::Text(x), Cell::Text(y)) => {
            let xc = chars_of(x);
            let yc = chars_of(y);
            chars_lt(&xc, &yc)
        },
        _ => false,
    }
}

/// Row `x` goes before row `t` when sorting by column `c`.
pub open spec fn row_goes_before(x: Seq<CellView>, t: Seq<CellView>, c: int, descending: bool) -> bool {
    if descending {
        cell_lt(t[c], x[c])
    } else {
        cell_lt(x[c], t[c])
    }
}

/// Where row `x` goes among sorted rows `t`: after every row it does not go before.
pub open spec fn row_pos(t: Seq<Seq<CellView>>, x: Seq<CellView>, c: int, descending: bool) -> int
    decreases t.len(),
{
    if t.len() == 0 {
        0
    } else if row_goes_before(x, t[0], c, descending) {
        0
    } else {
        1 + row_pos(t.drop_first(), x, c, descending)
    }
}

/// The rows sorted by column `c`, ascending or descending; equal keys keep their order.
pub open spec fn sorted_rows(rows: Seq<Seq<CellView>>, c: int, descending: bool) -> Seq<Seq<CellView>>
    decreases rows.len(),
{
    if rows.len() == 0 {
        Seq::empty()
    } else {
        let t = sorted_rows(rows.drop_last(), c, descending);
        t.insert(row_pos(t, rows.last(), c, descending), rows.last())
    }
}

proof fn lemma_row_pos(t: Seq<Seq<CellView>>, x: Seq<CellView>, c: int, descending: bool, k: int)
    requires
        0 <= k <= t.len(),
        forall|m: int| 0 <= m < k ==> !row_goes_before(x, #[trigger] t[m], c, descending),
        k < t.len() ==> row_goes_before(x, t[k], c, descending),
    ensures
        row_pos(t, x, c, descending) == k,
    decreases k,
{
    if k > 0 {
        assert forall|m: int| 0 <= m < k - 1 implies !row_goes_before(x, #[trigger] t.drop_first()[m], c, descending) by {
            assert(t.drop_first()[m] == t[m + 1]);
        }
        lemma_row_pos(t.drop_first(), x, c, descending, k - 1);
    }
}

fn goes_before(x: &Vec<Cell>, t: &Vec<Cell>, c: usize, descending: bool) -> (r: bool)
    requires
        c < x@.len(),
        c < t@.len(),
    ensures
        r == row_goes_before(cells_view(x@), cells_view(t@), c as int, descending),
{
    if descending {
        cell_before(&t[c], &x[c])
    } else {
        cell_before(&x[c], &t[c])
    }
}

/// Copies of the rows sorted by column `c` (see `sorted_rows`).
pub fn sort_rows(rows: &Vec<Vec<Cell>>, c: usize, width: usize, descending: bool) -> (r: Vec<Vec<Cell>>)
    requires
        c < width,
        forall|i: int| 0 <= i < rows@.len() ==> #[trigger] rows@[i]@.len() == width,
    ensures
        rows_of(r@) == sorted_rows(rows_of(rows@), c as int, descending),
        forall|i: int| 0 <= i < r@.len() ==> #[trigger] r@[i]@.len() == width,
        r@.len() == rows@.len(),
{
    let ghost w = rows_of(rows@);
    let mut r: Vec<Vec<Cell>> = Vec::new();
    let mut i: usize = 0;
    while i < rows.len()
        invariant
            c < width,
            forall|k: int| 0 <= k < rows@.len() ==> #[trigger] rows@[k]@.len() == width,
            i <= rows@.len(),
            w == rows_of(rows@),
            r@.len() == i,
            forall|k: int| 0 <= k < r@.len() ==> #[trigger] r@[k]@.len() == width,
            rows_of(r@) == sorted_rows(w.take(i as int), c as int, descending),
        decreases rows@.len() - i,
    {
        assert(w.take(i + 1).drop_last() =~= w.take(i as int));
        let x = copy_row(&rows[i]);
        assert(rows@[i as int]@.len() == width);
        let mut k: usize = 0;
        while k < r.len() && !goes_before(&x, &r[k], c, descending)
            invariant
                c < width,
                x@.len() == width,
                forall|m: int| 0 <= m < r@.len() ==> #[trigger] r@[m]@.len() == width,
                k <= r@.len(),
                forall|m: int| 0 <= m < k ==> !row_goes_before(cells_view(x@), #[trigger] rows_of(r@)[m], c as int, descending),
            decreases r@.len() - k,
        {
            assert(rows_of(r@)[k as int] == cells_view(r@[k as int]@));
            k = k + 1;
        }
        proof {
            if k < r@.len() {
                assert(rows_of(r@)[k as int] == cells_view(r@[k as int]@));
            }
            lemma_row_pos(rows_of(r@), cells_view(x@), c as int, descending, k as int);
        }
        let ghost before = r@;
        r.insert(k, x);
        assert(rows_of(r@) =~= rows_of(before).insert(k as int, w[i as int]));
        i = i + 1;
    }
    assert(w.take(rows@.len() as int) =~= w);
    r
}

} // verus!
