//! Row filters: the predicates of a request applied to a dataset.

use vstd::prelude::*;
use vstd::string::*;
use crate::error::DataError;
use crate::model::{Cell, CellView, Dataset, Field, cells_view, rows_of};
use crate::text::{
    joined, spec_contains, spec_ends_with, spec_starts_with, text_contains, text_ends_with,
    text_starts_with,
};
use crate::types::{FilterOperator, FilterSpec, FilterValue};

verus! {

/// The cell a filter literal stands for.
pub open spec fn literal_cell(v: FilterValue) -> CellView {
    match v {
        FilterValue::Null => CellView::Null,
        FilterValue::Int(i) => CellView::Int(i as int),
        FilterValue::Bool(b) => CellView::Bool(b),
        FilterValue::Text(s) => CellView::Text(s@),
    }
}

/// The pattern of a text filter: the literal's text, or empty for another literal.
pub open spec fn pattern_of(v: CellView) -> Seq<char> {
    match v {
        CellView::Text(s) => s,
        _ => Seq::empty(),
    }
}

/// Whether the literal suits the operator: equality needs a text, integer or boolean
/// (inequality a text or integer), an ordering comparison an integer.
pub open spec fn literal_suits(op: FilterOperator, v: CellView) -> bool {
    match op {
        FilterOperator::Eq => !(v is Null),
        FilterOperator::Neq => v is Text || v is Int,
        FilterOperator::Gt | FilterOperator::Lt | FilterOperator::Gte | FilterOperator::Lte => v is Int,
        _ => true,
    }
}

/// Whether a row whose filtered cell is `c` passes. Null cells pass only `IsNull`;
/// ordering comparisons pass integer cells only, text operators text cells only.
pub open spec fn passes(c: CellView, op: FilterOperator, v: CellView) -> bool {
    match op {
        FilterOperator::Eq => c == v,
        FilterOperator::Neq => !(c is Null) && c != v,
        FilterOperator::Gt => c is Int && v is Int && c->Int_0 > v->Int_0,
        FilterOperator::Lt => c is Int && v is Int && c->Int_0 < v->Int_0,
        FilterOperator::Gte => c is Int && v is Int && c->Int_0 >= v->Int_0,
        FilterOperator::Lte => c is Int && v is Int && c->Int_0 <= v->Int_0,
        FilterOperator::Contains => c is Text && spec_contains(c->Text_0, pattern_of(v)),
        FilterOperator::StartsWith => c is Text && spec_starts_with(c->Text_0, pattern_of(v)),
        FilterOperator::EndsWith => c is Text && spec_ends_with(c->Text_0, pattern_of(v)),
        FilterOperator::IsNull => c is Null,
        FilterOperator::IsNotNull => !(c is Null),
    }
}

/// The rows of `rows` whose cell in column `c` passes, in order.
pub open spec fn kept_rows(
    rows: Seq<Seq<CellView>>,
    c: int,
    op: FilterOperator,
    v: CellView,
) -> Seq<Seq<CellView>>
    decreases rows.len(),
{
    if rows.len() == 0 {
        Seq::empty()
    } else {
        let before = kept_rows(rows.drop_last(), c, op, v);
        if passes(rows.last()[c], op, v) {
            before.push(rows.last())
        } else {
            before
        }
    }
}

/// The message of a literal that does not suit its operator.
pub open spec fn literal_message(op: FilterOperator) -> Seq<char> {
    match op {
        FilterOperator::Gt => "GT filter requires numeric value"@,
        FilterOperator::Lt => "LT filter requires numeric value"@,
        FilterOperator::Gte => "GTE filter requires numeric value"@,
        FilterOperator::Lte => "LTE filter requires numeric value"@,
        _ => "Unsupported filter value type"@,
    }
}

/// Whether a cell passes a filter.
pub fn cell_passes(c: &Cell, op: FilterOperator, v: &FilterValue) -> (r: bool)
    ensures
        r == passes(c@, op, literal_cell(*v)),
{
    match op {
        FilterOperator::Eq => match (c, v) {
            (Cell::Int(a), FilterValue::Int(b)) => *a == *b,
            (Cell::Bool(a), FilterValue::Bool(b)) => *a == *b,
            (Cell::Text(a), FilterValue::Text(b)) => *a == *b,
            (Cell::Null, FilterValue::Null) => true,
            _ => false,
        },
        FilterOperator::Neq => match (c, v) {
            (Cell::Null, _) => false,
            (Cell::Int(a), FilterValue::Int(b)) => *a != *b,
            (Cell::Bool(a), FilterValue::Bool(b)) => *a != *b,
            (Cell::Text(a), FilterValue::Text(b)) => !(*a == *b),
            _ => true,
        },
        FilterOperator::Gt => match (c, v) {
            (Cell::Int(a), FilterValue::Int(b)) => *a > *b,
            _ => false,
        },
        FilterOperator::Lt => match (c, v) {
            (Cell::Int(a), FilterValue::Int(b)) => *a < *b,
            _ => false,
        },
        FilterOperator::Gte => match (c, v) {
            (Cell::Int(a), FilterValue::Int(b)) => *a >= *b,
            _ => false,
        },
        FilterOperator::Lte => match (c, v) {
            (Cell::Int(a), FilterValue::Int(b)) => *a <= *b,
            _ => false,
        },
        FilterOperator::Contains | FilterOperator::StartsWith | FilterOperator::EndsWith => {
            match c {
                Cell::Text(t) => {
                    let empty = String::new();
                    let p: &String = match v {
                        FilterValue::Text(s) => s,
                        _ => &empty,
                    };
                    match op {
                        FilterOperator::Contains => text_contains(t, p),
                        FilterOperator::StartsWith => text_starts_with(t, p),
                        _ => text_ends_with(t, p),
                    }
                },
                _ => false,
            }
        },
        FilterOperator::IsNull => c.is_null(),
        FilterOperator::IsNotNull => !c.is_null(),
    }
}

/// A copy of a row.
pub fn copy_row(r: &Vec<Cell>) -> (o: Vec<Cell>)
    ensures
        cells_view(o@) == cells_view(r@),
        o@.len() == r@.len(),
{
    let mut o: Vec<Cell> = Vec::new();
    let mut i: usize = 0;
    while i < r.len()
        invariant
            i <= r@.len(),
            o@.len() == i,
            forall|k: int| 0 <= k < i ==> #[trigger] o@[k]@ == r@[k]@,
        decreases r@.len() - i,
    {
        o.push(r[i].duplicate());
        i = i + 1;
    }
    assert(cells_view(o@) =~= cells_view(r@));
    o
}

/// A copy of the column list.
pub fn copy_fields(f: &Vec<Field>) -> (o: Vec<Field>)
    ensures
        o@.len() == f@.len(),
        forall|k: int| #![trigger o@[k]] 0 <= k < f@.len() ==> o@[k].name@ == f@[k].name@ && o@[k].kind
            == f@[k].kind,
{
    let mut o: Vec<Field> = Vec::new();
    let mut i: usize = 0;
    while i < f.len()
        invariant
            i <= f@.len(),
            o@.len() == i,
            forall|k: int| #![trigger o@[k]] 0 <= k < i ==> o@[k].name@ == f@[k].name@ && o@[k].kind
                == f@[k].kind,
        decreases f@.len() - i,
    {
        let ghost before = o@;
        o.push(Field { name: f[i].name.clone(), kind: f[i].kind });
        assert(forall|k: int| 0 <= k < i ==> o@[k] == before[k]);
        assert(o@[i as int].name@ == f@[i as int].name@);
        i = i + 1;
    }
    o
}

/// The column names, separated by `", "`.
pub fn column_list(ds: &Dataset) -> (r: String)
    ensures
        r@ == joined(ds.names()),
{
    let mut r = String::new();
    let mut i: usize = 0;
    while i < ds.fields.len()
        invariant
            i <= ds.fields@.len(),
            r@ == joined(ds.names().take(i as int)),
        decreases ds.fields@.len() - i,
    {
        proof {
            reveal_strlit(", ");
            assert(ds.names().take(i + 1).drop_last() =~= ds.names().take(i as int));
        }
        if i > 0 {
            r.append(", ");
        } else {
            assert(r@ =~= Seq::<char>::empty());
        }
        r.append(ds.fields[i].name.as_str());
        i = i + 1;
    }
    assert(ds.names().take(ds.fields@.len() as int) =~= ds.names());
    r
}

/// The error for a column name that the dataset lacks.
pub fn missing_column(ds: &Dataset, name: &String) -> (e: DataError)
    ensures
        e matches DataError::ColumnNotFound { column, available } && column@ == name@
            && available@ == joined(ds.names()),
{
    DataError::ColumnNotFound { column: name.clone(), available: column_list(ds) }
}

/// Position of the first of `names` equal to `name`, or the length when none is.
pub open spec fn first_pos(names: Seq<Seq<char>>, name: Seq<char>) -> int
    decreases names.len(),
{
    if names.len() == 0 {
        0
    } else if names[0] == name {
        0
    } else {
        1 + first_pos(names.drop_first(), name)
    }
}

/// Position of the first column named `name`.
#[verifier::opaque]
pub open spec fn first_index(ds: &Dataset, name: Seq<char>) -> int {
    first_pos(ds.names(), name)
}

/// Whether some column is named `name`.
#[verifier::opaque]
pub open spec fn has_column(ds: &Dataset, name: Seq<char>) -> bool {
    first_pos(ds.names(), name) < ds.fields@.len()
}

proof fn lemma_first_pos(names: Seq<Seq<char>>, name: Seq<char>, k: int)
    requires
        0 <= k <= names.len(),
        forall|j: int| 0 <= j < k ==> names[j] != name,
        k < names.len() ==> names[k] == name,
    ensures
        first_pos(names, name) == k,
    decreases k,
{
    if k > 0 {
        assert forall|j: int| 0 <= j < k - 1 implies names.drop_first()[j] != name by {
            assert(names.drop_first()[j] == names[j + 1]);
        }
        lemma_first_pos(names.drop_first(), name, k - 1);
    }
}

/// Datasets with the same column names agree on where a name is found.
pub proof fn lemma_same_names(a: &Dataset, b: &Dataset, name: Seq<char>)
    requires
        a.names() == b.names(),
    ensures
        has_column(a, name) == has_column(b, name),
        first_index(a, name) == first_index(b, name),
        has_column(a, name) ==> 0 <= first_index(a, name) < a.fields@.len(),
{
    reveal(has_column);
    reveal(first_index);
    if has_column(a, name) {
        lemma_first_pos_bound(a.names(), name);
    }
}

proof fn lemma_first_pos_bound(names: Seq<Seq<char>>, name: Seq<char>)
    ensures
        0 <= first_pos(names, name) <= names.len(),
    decreases names.len(),
{
    if names.len() > 0 {
        lemma_first_pos_bound(names.drop_first(), name);
    }
}

/// The position of the first column named `name`, or the `ColumnNotFound` error.
pub fn locate(ds: &Dataset, name: &String) -> (r: Result<usize, DataError>)
    ensures
        r is Ok <==> has_column(ds, name@),
        r matches Ok(c) ==> c == first_index(ds, name@) && c < ds.fields@.len()
            && ds.fields@[c as int].name@ == name@,
        r matches Err(e) ==> e matches DataError::ColumnNotFound { column, available }
            && column@ == name@ && available@ == joined(ds.names()),
{
    match ds.column_index(name) {
        Some(c) => {
            proof {
                reveal(first_index);
                reveal(has_column);
                assert forall|j: int| 0 <= j < c implies ds.names()[j] != name@ by {
                    assert(ds.names()[j] == ds.fields@[j].name@);
                }
                assert(ds.names()[c as int] == ds.fields@[c as int].name@);
                lemma_first_pos(ds.names(), name@, c as int);
            }
            Ok(c)
        },
        None => {
            proof {
                reveal(has_column);
                assert forall|j: int| 0 <= j < ds.names().len() implies ds.names()[j] != name@ by {
                    assert(ds.names()[j] == ds.fields@[j].name@);
                }
                lemma_first_pos(ds.names(), name@, ds.names().len() as int);
            }
            Err(missing_column(ds, name))
        },
    }
}

/// Keeps the rows that pass one filter.
///
/// Fails with `ColumnNotFound` when the dataset lacks the column, and with a parse
/// error when the literal does not suit the operator.
pub fn apply_filter(ds: &Dataset, filter: &FilterSpec) -> (r: Result<Dataset, DataError>)
    requires
        ds.wf(),
    ensures
        !has_column(ds, filter.column@) ==> (r matches Err(DataError::ColumnNotFound { column, .. })
            && column@ == filter.column@),
        has_column(ds, filter.column@) && !literal_suits(filter.operator, literal_cell(filter.value)) ==> (r matches Err(
            DataError::ParseError(m),
        ) && m@ == literal_message(filter.operator)),
        has_column(ds, filter.column@) && literal_suits(filter.operator, literal_cell(filter.value)) ==> (r matches Ok(
            out,
        ) && out.wf() && out.names() == ds.names() && out.kinds() == ds.kinds() && out.rows_view() == kept_rows(
            ds.rows_view(),
            first_index(ds, filter.column@),
            filter.operator,
            literal_cell(filter.value),
        )),
{
    let c = match locate(ds, &filter.column) {
        Ok(c) => c,
        Err(e) => return Err(e),
    };
    if !literal_fits(filter.operator, &filter.value) {
        return Err(DataError::ParseError(literal_error(filter.operator)));
    }
    let fields = copy_fields(&ds.fields);
    let rows = keep_rows(ds, c, filter.operator, &filter.value);
    let out = Dataset { fields, rows };
    assert(out.names() =~= ds.names()) by {
        assert forall|k: int| 0 <= k < ds.fields@.len() implies out.names()[k] == ds.names()[k] by {
            assert(out.fields@[k].name@ == ds.fields@[k].name@);
        }
    }
    assert(out.kinds() =~= ds.kinds()) by {
        assert forall|k: int| 0 <= k < ds.fields@.len() implies out.kinds()[k] == ds.kinds()[k] by {
            assert(out.fields@[k].kind == ds.fields@[k].kind);
        }
    }
    Ok(out)
}

/// The rows whose cell in column `c` passes.
fn keep_rows(ds: &Dataset, c: usize, op: FilterOperator, v: &FilterValue) -> (rows: Vec<Vec<Cell>>)
    requires
        ds.wf(),
        c < ds.fields@.len(),
    ensures
        forall|k: int| 0 <= k < rows@.len() ==> #[trigger] rows@[k]@.len() == ds.fields@.len(),
        rows_of(rows@) == kept_rows(ds.rows_view(), c as int, op, literal_cell(*v)),
{
    let mut rows: Vec<Vec<Cell>> = Vec::new();
    let ghost all = ds.rows_view();
    let mut i: usize = 0;
    while i < ds.rows.len()
        invariant
            ds.wf(),
            c < ds.fields@.len(),
            i <= ds.rows@.len(),
            all == ds.rows_view(),
            forall|k: int| 0 <= k < rows@.len() ==> #[trigger] rows@[k]@.len() == ds.fields@.len(),
            rows_of(rows@) == kept_rows(all.take(i as int), c as int, op, literal_cell(*v)),
        decreases ds.rows@.len() - i,
    {
        proof {
            assert(all.take(i + 1).drop_last() =~= all.take(i as int));
            assert(all.take(i + 1).last() == all[i as int]);
            assert(all[i as int] == cells_view(ds.rows@[i as int]@));
            assert(ds.rows@[i as int]@.len() == ds.fields@.len());
            assert(all[i as int][c as int] == ds.rows@[i as int]@[c as int]@);
        }
        if cell_passes(&ds.rows[i][c], op, v) {
            let row = copy_row(&ds.rows[i]);
            let ghost before = rows@;
            rows.push(row);
            proof {
                assert(rows_of(rows@) =~= rows_of(before).push(all[i as int]));
            }
        }
        i = i + 1;
    }
    proof {
        assert(all.take(ds.rows@.len() as int) =~= all);
    }
    rows
}

/// Whether the literal suits the operator.
pub fn literal_fits(op: FilterOperator, v: &FilterValue) -> (r: bool)
    ensures
        r == literal_suits(op, literal_cell(*v)),
{
    match op {
        FilterOperator::Eq => !matches!(v, FilterValue::Null),
        FilterOperator::Neq => matches!(v, FilterValue::Text(_) | FilterValue::Int(_)),
        FilterOperator::Gt | FilterOperator::Lt | FilterOperator::Gte | FilterOperator::Lte => {
            matches!(v, FilterValue::Int(_))
        },
        _ => true,
    }
}

fn literal_error(op: FilterOperator) -> (r: String)
    ensures
        r@ == literal_message(op),
{
    let s = match op {
        FilterOperator::Gt => "GT filter requires numeric value",
        FilterOperator::Lt => "LT filter requires numeric value",
        FilterOperator::Gte => "GTE filter requires numeric value",
        FilterOperator::Lte => "LTE filter requires numeric value",
        _ => "Unsupported filter value type",
    };
    proof {
        reveal_strlit("GT filter requires numeric value");
        reveal_strlit("LT filter requires numeric value");
        reveal_strlit("GTE filter requires numeric value");
        reveal_strlit("LTE filter requires numeric value");
        reveal_strlit("Unsupported filter value type");
    }
    String::from_str(s)
}

} // verus!
