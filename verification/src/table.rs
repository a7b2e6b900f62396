//! The tabular result model: fields, cells, and tables of plain values.
//!
//! The outside query engine holds datasets in its own columnar format;
//! everything this crate reasons about is carried in this model instead.
//! A field is a name plus a numeric flag (a numeric field is one whose
//! describe statistics are reported as 64-bit floats by the engine; a
//! non-numeric field's are reported as text). A table is a field list
//! plus rows of cells, every row exactly as wide as the field list.

use vstd::prelude::*;

verus! {

/// One column of a dataset or result table.
#[derive(Debug, Clone, PartialEq)]
pub struct Field {
    pub name: String,
    pub numeric: bool,
}

/// The mathematical content of a [`Field`].
pub struct FieldV {
    pub name: Seq<char>,
    pub numeric: bool,
}

impl View for Field {
    type V = FieldV;

    open spec fn view(&self) -> FieldV {
        FieldV { name: self.name@, numeric: self.numeric }
    }
}

impl Field {
    pub fn new(name: &str, numeric: bool) -> (r: Self)
        ensures
            r@ == (FieldV { name: name@, numeric }),
    {
        Field { name: String::from_str(name), numeric }
    }

    pub fn clone_field(&self) -> (r: Self)
        ensures
            r@ == self@,
    {
        Field { name: self.name.clone(), numeric: self.numeric }
    }
}

/// One value in a table: absent, numeric, or text.
#[derive(Debug, Clone, PartialEq)]
pub enum Cell {
    Null,
    Num(i64),
    Text(String),
}

/// The mathematical content of a [`Cell`].
pub enum CellV {
    Null,
    Num(int),
    Text(Seq<char>),
}

impl View for Cell {
    type V = CellV;

    open spec fn view(&self) -> CellV {
        match self {
            Cell::Null => CellV::Null,
            Cell::Num(n) => CellV::Num(*n as int),
            Cell::Text(s) => CellV::Text(s@),
        }
    }
}

impl Cell {
    pub fn clone_cell(&self) -> (r: Self)
        ensures
            r@ == self@,
    {
        match self {
            Cell::Null => Cell::Null,
            Cell::Num(n) => Cell::Num(*n),
            Cell::Text(s) => Cell::Text(s.clone()),
        }
    }
}

/// The deep view of a field list.
pub open spec fn fields_view(fs: Seq<Field>) -> Seq<FieldV> {
    fs.map_values(|f: Field| f@)
}

/// The deep view of one row.
pub open spec fn row_view(r: Seq<Cell>) -> Seq<CellV> {
    r.map_values(|c: Cell| c@)
}

/// The deep view of a row list.
pub open spec fn rows_view(rs: Seq<Vec<Cell>>) -> Seq<Seq<CellV>> {
    rs.map_values(|r: Vec<Cell>| row_view(r@))
}

/// The mathematical content of a [`Table`].
pub struct TableV {
    pub fields: Seq<FieldV>,
    pub rows: Seq<Seq<CellV>>,
}

impl TableV {
    /// Every row is exactly as wide as the field list.
    pub open spec fn wf(self) -> bool {
        forall|r: int| 0 <= r < self.rows.len() ==> (#[trigger] self.rows[r]).len()
            == self.fields.len()
    }
}

/// A table of plain values: a field list and rows of cells.
#[derive(Debug, Clone, PartialEq)]
pub struct Table {
    pub fields: Vec<Field>,
    pub rows: Vec<Vec<Cell>>,
}

impl View for Table {
    type V = TableV;

    open spec fn view(&self) -> TableV {
        TableV { fields: fields_view(self.fields@), rows: rows_view(self.rows@) }
    }
}

impl Table {
    pub open spec fn wf(self) -> bool {
        self@.wf()
    }

    /// Builds a table after checking that every row is as wide as the
    /// field list; returns nothing on a ragged row list.
    pub fn new(fields: Vec<Field>, rows: Vec<Vec<Cell>>) -> (r: Option<Table>)
        ensures
            match r {
                Some(t) => t.wf() && t@ == (TableV {
                    fields: fields_view(fields@),
                    rows: rows_view(rows@),
                }),
                None => !(TableV { fields: fields_view(fields@), rows: rows_view(rows@) }).wf(),
            },
    {
        let k = fields.len();
        let mut i: usize = 0;
        while i < rows.len()
            invariant
                i <= rows@.len(),
                k == fields@.len(),
                forall|r: int| 0 <= r < i ==> (#[trigger] rows@[r])@.len() == k,
            decreases rows@.len() - i,
        {
            if rows[i].len() != k {
                proof {
                    let tv = TableV { fields: fields_view(fields@), rows: rows_view(rows@) };
                    assert(tv.rows[i as int] == row_view(rows@[i as int]@));
                    assert(tv.rows[i as int].len() != tv.fields.len());
                    assert(!tv.wf());
                }
                return None;
            }
            i = i + 1;
        }
        let t = Table { fields, rows };
        proof {
            assert forall|r: int| 0 <= r < t@.rows.len() implies (#[trigger] t@.rows[r]).len()
                == t@.fields.len() by {
                assert(t@.rows[r] == row_view(rows@[r]@));
            }
        }
        Some(t)
    }

    /// The number of fields.
    pub fn width(&self) -> (r: usize)
        ensures
            r == self@.fields.len(),
    {
        self.fields.len()
    }

    /// The number of rows.
    pub fn height(&self) -> (r: usize)
        ensures
            r == self@.rows.len(),
    {
        self.rows.len()
    }
}

/// Copies a field list, preserving its view.
pub fn clone_fields(fs: &Vec<Field>) -> (r: Vec<Field>)
    ensures
        fields_view(r@) == fields_view(fs@),
{
    let mut out: Vec<Field> = Vec::new();
    let mut i: usize = 0;
    while i < fs.len()
        invariant
            i <= fs@.len(),
            out@.len() == i,
            forall|j: int| 0 <= j < i ==> (#[trigger] out@[j])@ == fs@[j]@,
        decreases fs@.len() - i,
    {
        out.push(fs[i].clone_field());
        i = i + 1;
    }
    proof {
        assert(fields_view(out@) =~= fields_view(fs@));
    }
    out
}

/// Copies a whole table, preserving its view.
pub fn clone_table(t: &Table) -> (r: Table)
    ensures
        r@ == t@,
{
    let fields = clone_fields(&t.fields);
    let mut rows: Vec<Vec<Cell>> = Vec::new();
    let mut i: usize = 0;
    while i < t.rows.len()
        invariant
            i <= t.rows@.len(),
            rows@.len() == i,
            forall|j: int| 0 <= j < i ==> row_view((#[trigger] rows@[j])@) == row_view(
                t.rows@[j]@,
            ),
        decreases t.rows@.len() - i,
    {
        rows.push(clone_row(&t.rows[i]));
        i = i + 1;
    }
    let r = Table { fields, rows };
    proof {
        assert(rows_view(r.rows@) =~= rows_view(t.rows@));
    }
    r
}

/// Copies one row, preserving its view.
pub fn clone_row(row: &Vec<Cell>) -> (r: Vec<Cell>)
    ensures
        row_view(r@) == row_view(row@),
{
    let mut out: Vec<Cell> = Vec::new();
    let mut i: usize = 0;
    while i < row.len()
        invariant
            i <= row@.len(),
            out@.len() == i,
            forall|j: int| 0 <= j < i ==> (#[trigger] out@[j])@ == row@[j]@,
        decreases row@.len() - i,
    {
        out.push(row[i].clone_cell());
        i = i + 1;
    }
    proof {
        assert(row_view(out@) =~= row_view(row@));
    }
    out
}

} // verus!
