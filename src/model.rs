//! The in-memory dataset: typed columns and rows of cells.

use vstd::prelude::*;

verus! {

/// A calendar timestamp (a date has hour, minute and second zero).
#[derive(Clone, Copy, PartialEq, Eq, Structural, Debug)]
pub struct Timestamp {
    pub year: i32,
    pub month: u32,
    pub day: u32,
    pub hour: u32,
    pub minute: u32,
    pub second: u32,
}

/// One value of a dataset.
#[derive(Clone, Debug)]
pub enum Cell {
    Null,
    Int(i64),
    Bool(bool),
    Text(String),
    Stamp(Timestamp),
}

/// The mathematical value of a cell.
pub enum CellView {
    Null,
    Int(int),
    Bool(bool),
    Text(Seq<char>),
    Stamp(Timestamp),
}

impl View for Cell {
    type V = CellView;

    open spec fn view(&self) -> CellView {
        match self {
            Cell::Null => CellView::Null,
            Cell::Int(v) => CellView::Int(*v as int),
            Cell::Bool(b) => CellView::Bool(*b),
            Cell::Text(s) => CellView::Text(s@),
            Cell::Stamp(t) => CellView::Stamp(*t),
        }
    }
}

/// The view of a sequence of cells.
pub open spec fn cells_view(s: Seq<Cell>) -> Seq<CellView> {
    s.map_values(|c: Cell| c@)
}

/// The values of a sequence of rows.
pub open spec fn rows_of(rows: Seq<Vec<Cell>>) -> Seq<Seq<CellView>> {
    rows.map_values(|r: Vec<Cell>| cells_view(r@))
}

impl Cell {
    /// A copy of the cell.
    pub fn duplicate(&self) -> (r: Cell)
        ensures
            r@ == self@,
    {
        match self {
            Cell::Null => Cell::Null,
            Cell::Int(v) => Cell::Int(*v),
            Cell::Bool(b) => Cell::Bool(*b),
            Cell::Text(s) => Cell::Text(s.clone()),
            Cell::Stamp(t) => Cell::Stamp(*t),
        }
    }

    /// Whether two cells hold the same value.
    pub fn same_as(&self, other: &Cell) -> (r: bool)
        ensures
            r == (self@ == other@),
    {
        match (self, other) {
            (Cell::Null, Cell::Null) => true,
            (Cell::Int(a), Cell::Int(b)) => *a == *b,
            (Cell::Bool(a), Cell::Bool(b)) => *a == *b,
            (Cell::Text(a), Cell::Text(b)) => *a == *b,
            (Cell::Stamp(a), Cell::Stamp(b)) => *a == *b,
            _ => false,
        }
    }

    pub fn is_null(&self) -> (r: bool)
        ensures
            r == (self@ is Null),
    {
        match self {
            Cell::Null => true,
            _ => false,
        }
    }
}

/// The data type of a column.
#[derive(Clone, Copy, PartialEq, Eq, Structural, Debug)]
pub enum ColumnKind {
    Integer,
    Boolean,
    Text,
    Date,
    Datetime,
}

impl ColumnKind {
    /// Numeric columns (integers).
    pub open spec fn spec_is_numeric(self) -> bool {
        self is Integer
    }

    /// Calendar columns (dates and datetimes).
    pub open spec fn spec_is_datetime(self) -> bool {
        self is Date || self is Datetime
    }

    #[verifier::when_used_as_spec(spec_is_numeric)]
    pub fn is_numeric(self) -> (r: bool)
        ensures
            r == self.spec_is_numeric(),
    {
        match self {
            ColumnKind::Integer => true,
            _ => false,
        }
    }

    #[verifier::when_used_as_spec(spec_is_datetime)]
    pub fn is_datetime(self) -> (r: bool)
        ensures
            r == self.spec_is_datetime(),
    {
        match self {
            ColumnKind::Date | ColumnKind::Datetime => true,
            _ => false,
        }
    }
}

/// A named, typed column of a dataset.
#[derive(Clone, Debug)]
pub struct Field {
    pub name: String,
    pub kind: ColumnKind,
}

/// A table: named columns and rows of cells, one cell per column.
#[derive(Clone, Debug)]
pub struct Dataset {
    pub fields: Vec<Field>,
    pub rows: Vec<Vec<Cell>>,
}

impl Dataset {
    /// Every row has one cell per column.
    pub open spec fn wf(&self) -> bool {
        forall|i: int| 0 <= i < self.rows@.len() ==> #[trigger] self.rows@[i]@.len() == self.fields@.len()
    }

    pub open spec fn names(&self) -> Seq<Seq<char>> {
        self.fields@.map_values(|f: Field| f.name@)
    }

    pub open spec fn kinds(&self) -> Seq<ColumnKind> {
        self.fields@.map_values(|f: Field| f.kind)
    }

    /// The values of column `c`, top to bottom.
    pub open spec fn column_view(&self, c: int) -> Seq<CellView> {
        Seq::new(self.rows@.len(), |i: int| self.rows@[i]@[c]@)
    }

    /// The rows as values.
    pub open spec fn rows_view(&self) -> Seq<Seq<CellView>> {
        rows_of(self.rows@)
    }

    /// An empty dataset with the given columns.
    pub fn new(fields: Vec<Field>) -> (r: Dataset)
        ensures
            r.wf(),
            r.fields@ == fields@,
            r.rows@.len() == 0,
    {
        Dataset { fields, rows: Vec::new() }
    }

    /// Appends a row; a row with the wrong number of cells is refused.
    pub fn push_row(&mut self, row: Vec<Cell>) -> (r: bool)
        requires
            old(self).wf(),
        ensures
            final(self).wf(),
            final(self).fields@ == old(self).fields@,
            r == (row@.len() == old(self).fields@.len()),
            r ==> final(self).rows@ == old(self).rows@.push(row),
            !r ==> final(self).rows@ == old(self).rows@,
    {
        if row.len() != self.fields.len() {
            return false;
        }
        self.rows.push(row);
        proof {
            assert forall|i: int| 0 <= i < self.rows@.len() implies #[trigger] self.rows@[i]@.len()
                == self.fields@.len() by {
                if i < self.rows@.len() - 1 {
                    assert(self.rows@[i] == old(self).rows@[i]);
                }
            }
        }
        true
    }

    /// Whether every row has one cell per column.
    pub fn is_well_formed(&self) -> (r: bool)
        ensures
            r == self.wf(),
    {
        let mut i: usize = 0;
        while i < self.rows.len()
            invariant
                i <= self.rows@.len(),
                forall|k: int| 0 <= k < i ==> #[trigger] self.rows@[k]@.len() == self.fields@.len(),
            decreases self.rows@.len() - i,
        {
            if self.rows[i].len() != self.fields.len() {
                return false;
            }
            i = i + 1;
        }
        true
    }

    /// Number of rows.
    pub fn height(&self) -> (r: usize)
        ensures
            r == self.rows@.len(),
    {
        self.rows.len()
    }

    /// Number of columns.
    pub fn width(&self) -> (r: usize)
        ensures
            r == self.fields@.len(),
    {
        self.fields.len()
    }

    /// The position of the first column named `name`.
    pub fn column_index(&self, name: &String) -> (r: Option<usize>)
        ensures
            r matches Some(c) ==> c < self.fields@.len() && self.fields@[c as int].name@ == name@
                && forall|j: int| 0 <= j < c ==> self.fields@[j].name@ != name@,
            r is None ==> forall|j: int| 0 <= j < self.fields@.len() ==> self.fields@[j].name@ != name@,
    {
        let mut j: usize = 0;
        while j < self.fields.len()
            invariant
                j <= self.fields@.len(),
                forall|k: int| 0 <= k < j ==> self.fields@[k].name@ != name@,
            decreases self.fields@.len() - j,
        {
            if self.fields[j].name == *name {
                return Some(j);
            }
            j = j + 1;
        }
        None
    }
}

} // verus!
