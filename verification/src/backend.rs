//! The dataset catalog and the backend capability over it.
//!
//! The catalog maps each registered name to a dataset; it is owned by the
//! worker side of the bridge and `connect` is its only mutator. The
//! operations here serve catalog queries from datasets held in memory;
//! the SQL capability itself belongs to the outside engine and reaches
//! the session as an event (see the session module). The query builders
//! at the end state exactly which query text each catalog operation asks
//! the outside engine to run when the engine holds the data instead.

use vstd::prelude::*;

use crate::conn::DatasetConn;
use crate::conn::DatasetConnV;
use crate::conn::FileOpts;
use crate::describe::spec_describe;
use crate::describe::describe_table;
use crate::error::EngineError;
use crate::error::EngineErrorV;
use crate::table::Cell;
use crate::table::CellV;
use crate::table::Field;
use crate::table::FieldV;
use crate::table::Table;
use crate::table::TableV;
use crate::table::clone_fields;
use crate::table::clone_row;
use crate::text::dec_rep;
use crate::text::str_eq;
use crate::text::u64_to_string;

verus! {

/// The mathematical content of the catalog: registered names and their
/// datasets, in registration order.
pub struct CatalogV {
    pub names: Seq<Seq<char>>,
    pub tables: Seq<TableV>,
}

/// The index of the first entry named `n`, if any.
pub open spec fn spec_find_name(ns: Seq<Seq<char>>, n: Seq<char>) -> Option<int>
    decreases ns.len(),
{
    if ns.len() == 0 {
        None
    } else if ns.first() == n {
        Some(0)
    } else {
        match spec_find_name(ns.drop_first(), n) {
            None => None,
            Some(i) => Some(i + 1),
        }
    }
}

/// `spec_find_name` finds an entry exactly when one exists, and the one
/// it finds is the first.
pub proof fn lemma_find_name(ns: Seq<Seq<char>>, n: Seq<char>)
    ensures
        match spec_find_name(ns, n) {
            Some(i) => 0 <= i < ns.len() && ns[i] == n && (forall|j: int|
                0 <= j < i ==> ns[j] != n),
            None => forall|j: int| 0 <= j < ns.len() ==> ns[j] != n,
        },
    decreases ns.len(),
{
    if ns.len() > 0 && ns.first() != n {
        let tail = ns.drop_first();
        lemma_find_name(tail, n);
        assert(forall|j: int| 0 <= j < tail.len() ==> #[trigger] tail[j] == ns[j + 1]);
        match spec_find_name(ns, n) {
            Some(i) => {
                assert(tail[i - 1] == n);
                assert forall|j: int| 0 <= j < i implies ns[j] != n by {
                    if j > 0 {
                        assert(tail[j - 1] != n);
                    }
                }
            },
            None => {
                assert forall|j: int| 0 <= j < ns.len() implies ns[j] != n by {
                    if j > 0 {
                        assert(tail[j - 1] != n);
                    }
                }
            },
        }
    }
}

/// The catalog after registering `t` under `n`: a reused name replaces
/// that entry, a fresh name is appended.
pub open spec fn spec_connect(c: CatalogV, n: Seq<char>, t: TableV) -> CatalogV {
    match spec_find_name(c.names, n) {
        Some(i) => CatalogV { names: c.names, tables: c.tables.update(i, t) },
        None => CatalogV { names: c.names.push(n), tables: c.tables.push(t) },
    }
}

/// The `list` result: one row per registered dataset, in registration
/// order, with its name and kind.
pub open spec fn spec_list(ns: Seq<Seq<char>>) -> TableV {
    TableV {
        fields: seq![
            FieldV { name: "table_name"@, numeric: false },
            FieldV { name: "table_type"@, numeric: false },
        ],
        rows: Seq::new(
            ns.len(),
            |i: int| seq![CellV::Text(ns[i]), CellV::Text("BASE TABLE"@)],
        ),
    }
}

/// The `schema` result for one dataset: one row per field with its name
/// and its type's name.
pub open spec fn spec_schema_table(t: TableV) -> TableV {
    TableV {
        fields: seq![
            FieldV { name: "column_name"@, numeric: false },
            FieldV { name: "data_type"@, numeric: false },
        ],
        rows: Seq::new(
            t.fields.len(),
            |i: int|
                seq![
                    CellV::Text(t.fields[i].name),
                    CellV::Text(
                        if t.fields[i].numeric {
                            "Float64"@
                        } else {
                            "Utf8"@
                        },
                    ),
                ],
        ),
    }
}

/// The `head` result: the dataset's own fields over its first `n` rows.
pub open spec fn spec_head(t: TableV, n: int) -> TableV {
    TableV {
        fields: t.fields,
        rows: t.rows.take(
            if n <= t.rows.len() {
                n
            } else {
                t.rows.len() as int
            },
        ),
    }
}

/// A preview of no rows still carries the dataset's full schema.
pub proof fn lemma_head_zero(t: TableV)
    ensures
        spec_head(t, 0).fields == t.fields,
        spec_head(t, 0).rows.len() == 0,
{
}

/// The backend capability over datasets held in memory: the catalog and
/// the operations that serve each command from it.
pub struct MemBackend {
    names: Vec<String>,
    tables: Vec<Table>,
}

impl View for MemBackend {
    type V = CatalogV;

    closed spec fn view(&self) -> CatalogV {
        CatalogV {
            names: self.names@.map_values(|s: String| s@),
            tables: self.tables@.map_values(|t: Table| t@),
        }
    }
}

impl MemBackend {
    /// Names are unique, every dataset is well-formed, and row counts
    /// stay within the engine's 64-bit signed counters.
    pub open spec fn wf(self) -> bool {
        &&& self@.names.len() == self@.tables.len()
        &&& forall|i: int, j: int|
            0 <= i < j < self@.names.len() ==> #[trigger] self@.names[i] != #[trigger] self@.names[j]
        &&& forall|i: int|
            0 <= i < self@.tables.len() ==> (#[trigger] self@.tables[i]).wf()
                && self@.tables[i].rows.len() <= i64::MAX
    }

    /// An empty catalog.
    pub fn new() -> (r: Self)
        ensures
            r.wf(),
            r@.names.len() == 0,
            r@.tables.len() == 0,
    {
        MemBackend { names: Vec::new(), tables: Vec::new() }
    }

    fn find(&self, name: &str) -> (r: Option<usize>)
        ensures
            match r {
                Some(i) => spec_find_name(self@.names, name@) == Some(i as int),
                None => spec_find_name(self@.names, name@) == None::<int>,
            },
    {
        let mut i: usize = 0;
        while i < self.names.len()
            invariant
                i <= self.names@.len(),
                forall|j: int| 0 <= j < i ==> self@.names[j] != name@,
            decreases self.names@.len() - i,
        {
            if str_eq(self.names[i].as_str(), name) {
                proof {
                    lemma_find_name(self@.names, name@);
                    match spec_find_name(self@.names, name@) {
                        Some(x) => {
                            if x < i as int {
                                assert(self@.names[x] != name@);
                            }
                            if x > i as int {
                                assert(self@.names[i as int] != name@);
                            }
                        },
                        None => {
                            assert(self@.names[i as int] != name@);
                        },
                    }
                }
                return Some(i);
            }
            i = i + 1;
        }
        proof {
            lemma_find_name(self@.names, name@);
            if let Some(x) = spec_find_name(self@.names, name@) {
                assert(self@.names[x] != name@);
            }
        }
        None
    }

    /// Registers a dataset under `name`: the catalog's only mutator.
    /// Reusing a registered name deterministically replaces that entry;
    /// a fresh name is appended in registration order.
    pub fn connect(&mut self, name: &str, table: Table)
        requires
            old(self).wf(),
            table.wf(),
            table@.rows.len() <= i64::MAX,
        ensures
            final(self).wf(),
            final(self)@ == spec_connect(old(self)@, name@, table@),
    {
        match self.find(name) {
            Some(i) => {
                proof {
                    lemma_find_name(self@.names, name@);
                }
                self.tables.set(i, table);
                proof {
                    assert(self@.names =~= old(self)@.names);
                    assert(self@.tables =~= old(self)@.tables.update(
                        spec_find_name(old(self)@.names, name@)->Some_0,
                        table@,
                    ));
                }
            },
            None => {
                self.names.push(String::from_str(name));
                self.tables.push(table);
                proof {
                    lemma_find_name(old(self)@.names, name@);
                    assert(self@.names =~= old(self)@.names.push(name@));
                    assert(self@.tables =~= old(self)@.tables.push(table@));
                }
            },
        }
    }

    /// Lists every registered dataset with its name and kind, in
    /// registration order.
    pub fn list(&self) -> (r: Table)
        ensures
            r@ == spec_list(self@.names),
            r.wf(),
    {
        let mut fields: Vec<Field> = Vec::new();
        fields.push(Field::new("table_name", false));
        fields.push(Field::new("table_type", false));
        let mut rows: Vec<Vec<Cell>> = Vec::new();
        let mut i: usize = 0;
        while i < self.names.len()
            invariant
                i <= self.names@.len(),
                rows@.len() == i,
                forall|j: int| 0 <= j < i ==> crate::table::row_view((#[trigger] rows@[j])@)
                    == seq![CellV::Text(self@.names[j]), CellV::Text("BASE TABLE"@)],
            decreases self.names@.len() - i,
        {
            let mut row: Vec<Cell> = Vec::new();
            row.push(Cell::Text(self.names[i].clone()));
            row.push(Cell::Text(String::from_str("BASE TABLE")));
            proof {
                assert(crate::table::row_view(row@) =~= seq![
                    CellV::Text(self@.names[i as int]),
                    CellV::Text("BASE TABLE"@),
                ]);
            }
            rows.push(row);
            i = i + 1;
        }
        let t = Table { fields, rows };
        proof {
            assert(t@.fields =~= spec_list(self@.names).fields);
            assert(t@.rows =~= spec_list(self@.names).rows);
            assert(t@ == spec_list(self@.names));
        }
        t
    }

    /// The schema of the named dataset: its fields' names and types.
    /// Fails with `NotFound` exactly when the name is unregistered.
    pub fn schema(&self, name: &str) -> (r: Result<Table, EngineError>)
        requires
            self.wf(),
        ensures
            match r {
                Ok(t) => spec_find_name(self@.names, name@) matches Some(i) && t@
                    == spec_schema_table(self@.tables[i]) && t.wf(),
                Err(e) => spec_find_name(self@.names, name@) is None && e@
                    == EngineErrorV::NotFound(name@),
            },
    {
        let i = match self.find(name) {
            None => {
                return Err(EngineError::NotFound(String::from_str(name)));
            },
            Some(i) => i,
        };
        proof {
            lemma_find_name(self@.names, name@);
        }
        let src = &self.tables[i];
        let mut fields: Vec<Field> = Vec::new();
        fields.push(Field::new("column_name", false));
        fields.push(Field::new("data_type", false));
        let ghost tv = self@.tables[i as int];
        let mut rows: Vec<Vec<Cell>> = Vec::new();
        let mut j: usize = 0;
        while j < src.fields.len()
            invariant
                j <= src.fields@.len(),
                tv == src@,
                rows@.len() == j,
                forall|x: int| 0 <= x < j ==> crate::table::row_view((#[trigger] rows@[x])@)
                    == spec_schema_table(tv).rows[x],
            decreases src.fields@.len() - j,
        {
            let mut row: Vec<Cell> = Vec::new();
            row.push(Cell::Text(src.fields[j].name.clone()));
            if src.fields[j].numeric {
                row.push(Cell::Text(String::from_str("Float64")));
            } else {
                row.push(Cell::Text(String::from_str("Utf8")));
            }
            proof {
                assert(crate::table::row_view(row@) =~= spec_schema_table(tv).rows[j as int]);
            }
            rows.push(row);
            j = j + 1;
        }
        let t = Table { fields, rows };
        proof {
            assert(t@.fields =~= spec_schema_table(tv).fields);
            assert(t@.rows =~= spec_schema_table(tv).rows);
            assert(t@ == spec_schema_table(tv));
        }
        Ok(t)
    }

    /// The first `size` rows of the named dataset under its own schema;
    /// fewer when the dataset is shorter, none when `size` is zero.
    /// Fails with `NotFound` exactly when the name is unregistered.
    pub fn head(&self, name: &str, size: usize) -> (r: Result<Table, EngineError>)
        requires
            self.wf(),
        ensures
            match r {
                Ok(t) => spec_find_name(self@.names, name@) matches Some(i) && t@ == spec_head(
                    self@.tables[i],
                    size as int,
                ) && t.wf(),
                Err(e) => spec_find_name(self@.names, name@) is None && e@
                    == EngineErrorV::NotFound(name@),
            },
    {
        let i = match self.find(name) {
            None => {
                return Err(EngineError::NotFound(String::from_str(name)));
            },
            Some(i) => i,
        };
        proof {
            lemma_find_name(self@.names, name@);
        }
        let src = &self.tables[i];
        let ghost tv = self@.tables[i as int];
        let fields = clone_fields(&src.fields);
        let n = if size <= src.rows.len() {
            size
        } else {
            src.rows.len()
        };
        let mut rows: Vec<Vec<Cell>> = Vec::new();
        let mut r: usize = 0;
        while r < n
            invariant
                r <= n,
                n <= src.rows@.len(),
                tv == src@,
                rows@.len() == r,
                forall|x: int| 0 <= x < r ==> crate::table::row_view((#[trigger] rows@[x])@)
                    == tv.rows[x],
            decreases n - r,
        {
            rows.push(clone_row(&src.rows[r]));
            r = r + 1;
        }
        let t = Table { fields, rows };
        proof {
            assert(t@.fields =~= spec_head(tv, size as int).fields);
            assert(t@.rows =~= spec_head(tv, size as int).rows);
            assert(t@ == spec_head(tv, size as int));
            assert(t.wf());
        }
        Ok(t)
    }

    /// The describe result for the named dataset (see the describe
    /// module). Fails with `NotFound` exactly when the name is
    /// unregistered.
    pub fn describe(&self, name: &str) -> (r: Result<Table, EngineError>)
        requires
            self.wf(),
        ensures
            match r {
                Ok(t) => spec_find_name(self@.names, name@) matches Some(i) && t@ == spec_describe(
                    self@.tables[i],
                ) && t.wf(),
                Err(e) => spec_find_name(self@.names, name@) is None && e@
                    == EngineErrorV::NotFound(name@),
            },
    {
        let i = match self.find(name) {
            None => {
                return Err(EngineError::NotFound(String::from_str(name)));
            },
            Some(i) => i,
        };
        proof {
            lemma_find_name(self@.names, name@);
            assert(self@.tables[i as int] == self.tables@[i as int]@);
        }
        Ok(describe_table(&self.tables[i]))
    }
}

/// The register action an outside engine must perform for a validated
/// file connection.
#[derive(Debug, Clone, PartialEq)]
pub enum LoadAction {
    Csv(FileOpts),
    NdJson(FileOpts),
    Parquet(String),
}

/// Maps a validated connection to the engine's register action, or
/// reports the Postgres capability as unsupported (it is parsed and
/// stored, but not implemented).
pub fn connect_plan(conn: &DatasetConn) -> (r: Result<LoadAction, EngineError>)
    ensures
        match conn@ {
            DatasetConnV::Postgres(_) => r matches Err(e) && e@ == EngineErrorV::Unsupported,
            DatasetConnV::Csv(o) => r matches Ok(a) && a matches LoadAction::Csv(f) && f@ == o,
            DatasetConnV::NdJson(o) => r matches Ok(a) && a matches LoadAction::NdJson(f) && f@
                == o,
            DatasetConnV::Parquet(p) => r matches Ok(a) && a matches LoadAction::Parquet(f) && f@
                == p,
        },
{
    match conn {
        DatasetConn::Postgres(_) => Err(EngineError::Unsupported),
        DatasetConn::Csv(o) => Ok(
            LoadAction::Csv(
                FileOpts {
                    filename: o.filename.clone(),
                    ext: o.ext.clone(),
                    compression: o.compression,
                },
            ),
        ),
        DatasetConn::NdJson(o) => Ok(
            LoadAction::NdJson(
                FileOpts {
                    filename: o.filename.clone(),
                    ext: o.ext.clone(),
                    compression: o.compression,
                },
            ),
        ),
        DatasetConn::Parquet(p) => Ok(LoadAction::Parquet(p.clone())),
    }
}

/// The catalog query an engine-held `list` runs.
pub fn list_query() -> (r: String)
    ensures
        r@
            == "select table_name, table_type from information_schema.tables where table_schema = 'public'"@,
{
    String::from_str(
        "select table_name, table_type from information_schema.tables where table_schema = 'public'",
    )
}

/// The query an engine-held `schema` runs for `name`.
pub fn schema_query(name: &str) -> (r: String)
    ensures
        r@ == "DESCRIBE "@ + name@,
{
    let mut q = String::from_str("DESCRIBE ");
    q.append(name);
    q
}

/// The query an engine-held `describe` scans the dataset with.
pub fn source_query(name: &str) -> (r: String)
    ensures
        r@ == "select * from "@ + name@,
{
    let mut q = String::from_str("select * from ");
    q.append(name);
    q
}

/// The query an engine-held `head` runs for `name` and `size`.
pub fn head_query(name: &str, size: usize) -> (r: String)
    ensures
        r@ == "SELECT * FROM "@ + name@ + " LIMIT "@ + dec_rep(size as nat),
{
    let mut q = String::from_str("SELECT * FROM ");
    q.append(name);
    q.append(" LIMIT ");
    let s = u64_to_string(size as u64);
    q.append(s.as_str());
    q
}

} // verus!
