//! Date binning: a calendar column replaced by its year, quarter, month, week, day or hour.

use vstd::prelude::*;
use vstd::string::*;
use chrono::Datelike;
use crate::aggregate::kind_label;
use crate::error::DataError;
use crate::filter::{first_index, has_column, locate, copy_row};
use crate::model::{Cell, CellView, ColumnKind, Dataset, Field, Timestamp, cells_view, rows_of};
use crate::text::{decimal, to_decimal};
use crate::types::DateBinGranularity;

verus! {

/// The ISO 8601 week number of a date, as chrono computes it; `None` for a date that
/// does not exist.
pub uninterp spec fn iso_week_of(year: int, month: int, day: int) -> Option<int>;

/// Relies on chrono's `NaiveDate::from_ymd_opt` (no date for an impossible day) and
/// `IsoWeek::week` (a week number from 1 to 53).
#[verifier::external_body]
fn iso_week(year: i32, month: u32, day: u32) -> (r: Option<u32>)
    ensures
        match r {
            Some(w) => iso_week_of(year as int, month as int, day as int) == Some(w as int) && 1 <= w <= 53,
            None => iso_week_of(year as int, month as int, day as int) is None,
        },
{
    chrono::NaiveDate::from_ymd_opt(year, month, day).map(|d| d.iso_week().week())
}

pub open spec fn zeros(k: nat) -> Seq<char> {
    Seq::new(k, |i: int| '0')
}

/// `n` in decimal, left-padded with zeros to `w` digits.
pub open spec fn padded(n: nat, w: nat) -> Seq<char> {
    let d = decimal(n);
    if d.len() >= w { d } else { zeros((w - d.len()) as nat) + d }
}

/// The month bin of a timestamp: `YYYY-MM`.
pub open spec fn month_text(t: Timestamp) -> Seq<char> {
    let y = if t.year < 0 { seq!['-'] + padded((-t.year) as nat, 4) } else { padded(t.year as nat, 4) };
    y + seq!['-'] + padded(t.month as nat, 2)
}

/// The bin of one cell. Cells that are not timestamps become null.
pub open spec fn binned(c: CellView, g: DateBinGranularity) -> CellView {
    match c {
        CellView::Stamp(t) => match g {
            DateBinGranularity::Year => CellView::Int(t.year as int),
            DateBinGranularity::Quarter => CellView::Int((t.month as int - 1) / 3 + 1),
            DateBinGranularity::Month => CellView::Text(month_text(t)),
            DateBinGranularity::Week => match iso_week_of(t.year as int, t.month as int, t.day as int) {
                Some(w) => CellView::Int(w),
                None => CellView::Null,
            },
            DateBinGranularity::Day => CellView::Stamp(
                Timestamp { year: t.year, month: t.month, day: t.day, hour: 0, minute: 0, second: 0 },
            ),
            DateBinGranularity::Hour => CellView::Int(t.hour as int),
        },
        _ => CellView::Null,
    }
}

/// The column type after binning.
pub open spec fn binned_kind(g: DateBinGranularity) -> ColumnKind {
    match g {
        DateBinGranularity::Month => ColumnKind::Text,
        DateBinGranularity::Day => ColumnKind::Date,
        _ => ColumnKind::Integer,
    }
}

/// Row `r` with cell `c` binned.
pub open spec fn bin_row(r: Seq<CellView>, c: int, g: DateBinGranularity) -> Seq<CellView> {
    r.update(c, binned(r[c], g))
}

/// `n` in decimal, left-padded with zeros to `w` digits.
pub fn padded_text(n: u32, w: usize) -> (r: String)
    ensures
        r@ == padded(n as nat, w as nat),
{
    let d = to_decimal(n as u128);
    let dl = d.as_str().unicode_len();
    if dl >= w {
        return d;
    }
    let mut s = String::new();
    let mut k: usize = 0;
    while k < w - dl
        invariant
            dl < w,
            k <= w - dl,
            s@ == zeros(k as nat),
        decreases w - dl - k,
    {
        s.append("0");
        proof {
            reveal_strlit("0");
        }
        assert(s@ =~= zeros((k + 1) as nat));
        k = k + 1;
    }
    s.append(d.as_str());
    s
}

fn month_bin(t: &Timestamp) -> (r: String)
    ensures
        r@ == month_text(*t),
{
    let mut s = if t.year < 0 {
        let mut m = String::from_str("-");
        m.append(padded_text((-(t.year as i64)) as u32, 4).as_str());
        m
    } else {
        padded_text(t.year as u32, 4)
    };
    s.append("-");
    s.append(padded_text(t.month, 2).as_str());
    proof {
        reveal_strlit("-");
    }
    assert(s@ =~= month_text(*t));
    s
}

/// The bin of one cell: see `binned`.
pub fn bin_cell(c: &Cell, g: DateBinGranularity) -> (r: Cell)
    ensures
        r@ == binned(c@, g),
{
    match c {
        Cell::Stamp(t) => match g {
            DateBinGranularity::Year => Cell::Int(t.year as i64),
            DateBinGranularity::Quarter => Cell::Int(
                if t.month == 0 {
                    0
                } else {
                    ((t.month - 1) / 3 + 1) as i64
                },
            ),
            DateBinGranularity::Month => Cell::Text(month_bin(t)),
            DateBinGranularity::Week => match iso_week(t.year, t.month, t.day) {
                Some(w) => Cell::Int(w as i64),
                None => Cell::Null,
            },
            DateBinGranularity::Day => Cell::Stamp(
                Timestamp { year: t.year, month: t.month, day: t.day, hour: 0, minute: 0, second: 0 },
            ),
            DateBinGranularity::Hour => Cell::Int(t.hour as i64),
        },
        _ => Cell::Null,
    }
}

/// Replaces the calendar column `column` by its bins of granularity `g`.
///
/// Fails with `ColumnNotFound` when the column is missing and with `TypeMismatch` when it
/// is not a date or datetime column.
pub fn apply_date_binning(ds: &Dataset, column: &String, g: DateBinGranularity) -> (r: Result<Dataset, DataError>)
    requires
        ds.wf(),
    ensures
        !has_column(ds, column@) ==> (r matches Err(DataError::ColumnNotFound { column: c, .. }) && c@ == column@),
        has_column(ds, column@) && !ds.fields@[first_index(ds, column@)].kind.spec_is_datetime() ==> (r matches Err(
            DataError::TypeMismatch { column: c, expected_type, .. },
        ) && c@ == column@ && expected_type@ == "datetime"@),
        has_column(ds, column@) && ds.fields@[first_index(ds, column@)].kind.spec_is_datetime() ==> (r matches Ok(out)
            && out.wf() && out.names() == ds.names() && out.fields@.len() == ds.fields@.len()
            && out.fields@[first_index(ds, column@)].kind == binned_kind(g) && out.rows@.len() == ds.rows@.len()
            && out.kinds() == ds.kinds().update(first_index(ds, column@), binned_kind(g))
            && out.rows_view() == ds.rows_view().map_values(
                |row: Seq<CellView>| bin_row(row, first_index(ds, column@), g),
            )),
{
    let c = match locate(ds, column) {
        Ok(c) => c,
        Err(e) => return Err(e),
    };
    if !ds.fields[c].kind.is_datetime() {
        proof {
            reveal_strlit("datetime");
        }
        return Err(
            DataError::TypeMismatch {
                column: column.clone(),
                actual_type: kind_label(ds.fields[c].kind),
                expected_type: String::from_str("datetime"),
            },
        );
    }
    let mut fields: Vec<Field> = Vec::new();
    let mut j: usize = 0;
    while j < ds.fields.len()
        invariant
            c < ds.fields@.len(),
            j <= ds.fields@.len(),
            fields@.len() == j,
            forall|k: int| #![trigger fields@[k]] 0 <= k < j ==> fields@[k].name@ == ds.fields@[k].name@
                && fields@[k].kind == if k == c { binned_kind(g) } else { ds.fields@[k].kind },
        decreases ds.fields@.len() - j,
    {
        let kind = if j == c {
            match g {
                DateBinGranularity::Month => ColumnKind::Text,
                DateBinGranularity::Day => ColumnKind::Date,
                _ => ColumnKind::Integer,
            }
        } else {
            ds.fields[j].kind
        };
        let ghost before = fields@;
        fields.push(Field { name: ds.fields[j].name.clone(), kind });
        assert(forall|k: int| 0 <= k < j ==> fields@[k] == before[k]);
        j = j + 1;
    }
    let ghost all = ds.rows_view();
    let mut rows: Vec<Vec<Cell>> = Vec::new();
    let mut i: usize = 0;
    while i < ds.rows.len()
        invariant
            ds.wf(),
            c < ds.fields@.len(),
            i <= ds.rows@.len(),
            all == ds.rows_view(),
            rows@.len() == i,
            forall|k: int| 0 <= k < i ==> #[trigger] rows@[k]@.len() == ds.fields@.len(),
            forall|k: int| 0 <= k < i ==> #[trigger] rows_of(rows@)[k] == bin_row(all[k], c as int, g),
        decreases ds.rows@.len() - i,
    {
        let mut row = copy_row(&ds.rows[i]);
        assert(ds.rows@[i as int]@.len() == ds.fields@.len());
        let b = bin_cell(&ds.rows[i][c], g);
        let ghost old_row = row@;
        row.set(c, b);
        assert(cells_view(row@) =~= bin_row(all[i as int], c as int, g));
        let ghost before = rows@;
        rows.push(row);
        assert forall|k: int| 0 <= k <= i implies #[trigger] rows_of(rows@)[k] == bin_row(all[k], c as int, g) by {
            if k < i {
                assert(rows@[k] == before[k]);
                assert(rows_of(before)[k] == bin_row(all[k], c as int, g));
            }
        }
        i = i + 1;
    }
    let out = Dataset { fields, rows };
    assert(out.names() =~= ds.names());
    assert(out.kinds() =~= ds.kinds().update(c as int, binned_kind(g)));
    assert(out.rows_view() =~= all.map_values(|row: Seq<CellView>| bin_row(row, c as int, g)));
    Ok(out)
}

} // verus!
