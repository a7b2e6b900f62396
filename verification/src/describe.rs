//! The describe engine: per-column summary statistics over a registered
//! dataset, assembled into a fixed-shape result table.
//!
//! For each declared metric (`count`, then `null_count`) one aggregate
//! query runs over the whole dataset and yields one scalar per field.
//! The engine then assembles a table whose first column names the metric
//! and whose remaining columns carry, per original field, that field's
//! scalar under each metric: as a number when the field is numeric, as
//! decimal text otherwise. An aggregate that is structurally inapplicable
//! (the dataset has no rows or no fields) is not an error: the sentinel
//! text `null` is substituted for every field under that metric. Any
//! other aggregate failure aborts the whole describe call.

use vstd::prelude::*;

use crate::error::EngineError;
use crate::error::EngineErrorV;
use crate::table::Cell;
use crate::table::CellV;
use crate::table::Field;
use crate::table::FieldV;
use crate::table::Table;
use crate::table::TableV;
use crate::table::fields_view;
use crate::table::row_view;
use crate::table::rows_view;
use crate::text::dec_rep_int;
use crate::text::i64_to_string;

verus! {

/// The declared metrics, in declaration order.
pub open spec fn spec_metric_names() -> Seq<Seq<char>> {
    seq!["count"@, "null_count"@]
}

/// The declared metrics, in declaration order: `count`, then `null_count`.
pub fn metric_names() -> (r: Vec<String>)
    ensures
        r@.len() == spec_metric_names().len(),
        forall|m: int| 0 <= m < r@.len() ==> (#[trigger] r@[m])@ == spec_metric_names()[m],
{
    let v = vec![String::from_str("count"), String::from_str("null_count")];
    proof {
        assert(v@[0]@ == spec_metric_names()[0]);
        assert(v@[1]@ == spec_metric_names()[1]);
    }
    v
}

/// What one aggregate query reported: one scalar per field, a report
/// that no aggregate could be planned, or any other failure.
#[derive(Debug, Clone, PartialEq)]
pub enum AggOutcome {
    Row(Vec<i64>),
    NoAggregate,
    Failed(String),
}

/// The mathematical content of an [`AggOutcome`].
pub enum AggOutcomeV {
    Row(Seq<i64>),
    NoAggregate,
    Failed(Seq<char>),
}

impl View for AggOutcome {
    type V = AggOutcomeV;

    open spec fn view(&self) -> AggOutcomeV {
        match self {
            AggOutcome::Row(vs) => AggOutcomeV::Row(vs@),
            AggOutcome::NoAggregate => AggOutcomeV::NoAggregate,
            AggOutcome::Failed(s) => AggOutcomeV::Failed(s@),
        }
    }
}

/// The deep view of an outcome list.
pub open spec fn outcomes_view(ocs: Seq<AggOutcome>) -> Seq<AggOutcomeV> {
    ocs.map_values(|oc: AggOutcome| oc@)
}

/// Per-metric scalar rows are exactly as wide as the field list.
pub open spec fn outcomes_fit(ocs: Seq<AggOutcomeV>, k: nat) -> bool {
    forall|m: int|
        0 <= m < ocs.len() ==> ((#[trigger] ocs[m]) matches AggOutcomeV::Row(vs) ==> vs.len()
            == k)
}

/// The number of non-null cells in column `j`.
pub open spec fn spec_count_nonnull(rows: Seq<Seq<CellV>>, j: int) -> nat
    decreases rows.len(),
{
    if rows.len() == 0 {
        0
    } else {
        spec_count_nonnull(rows.drop_last(), j) + if rows.last()[j] is Null {
            0nat
        } else {
            1nat
        }
    }
}

/// The number of null cells in column `j`.
pub open spec fn spec_count_null(rows: Seq<Seq<CellV>>, j: int) -> nat
    decreases rows.len(),
{
    if rows.len() == 0 {
        0
    } else {
        spec_count_null(rows.drop_last(), j) + if rows.last()[j] is Null {
            1nat
        } else {
            0nat
        }
    }
}

proof fn lemma_count_bounds(rows: Seq<Seq<CellV>>, j: int)
    ensures
        spec_count_nonnull(rows, j) <= rows.len(),
        spec_count_null(rows, j) <= rows.len(),
    decreases rows.len(),
{
    if rows.len() > 0 {
        lemma_count_bounds(rows.drop_last(), j);
    }
}

/// An aggregate over the dataset is structurally inapplicable: there is
/// no row or no field to aggregate, and the engine reports a planning
/// error instead of a scalar row.
pub open spec fn spec_no_aggregate(t: TableV) -> bool {
    t.rows.len() == 0 || t.fields.len() == 0
}

/// What the two aggregate queries report for a dataset held in memory.
pub open spec fn spec_outcomes(t: TableV) -> Seq<AggOutcomeV> {
    if spec_no_aggregate(t) {
        seq![AggOutcomeV::NoAggregate, AggOutcomeV::NoAggregate]
    } else {
        seq![
            AggOutcomeV::Row(
                Seq::new(t.fields.len(), |j: int| spec_count_nonnull(t.rows, j) as i64),
            ),
            AggOutcomeV::Row(Seq::new(t.fields.len(), |j: int| spec_count_null(t.rows, j) as i64)),
        ]
    }
}

/// The field list of a describe result: a text column `describe` naming
/// the metric, then one column per original field under the original
/// name, numeric exactly when the original field is numeric.
pub open spec fn spec_describe_fields(fields: Seq<FieldV>) -> Seq<FieldV> {
    seq![FieldV { name: "describe"@, numeric: false }] + fields
}

/// One field's scalar under one metric: a number for a numeric field,
/// decimal text otherwise.
pub open spec fn spec_metric_cell(f: FieldV, v: i64) -> CellV {
    if f.numeric {
        CellV::Num(v as int)
    } else {
        CellV::Text(dec_rep_int(v as int))
    }
}

/// One result row: the metric's name, then one cell per field; the
/// sentinel text `null` everywhere when the aggregate was inapplicable.
pub open spec fn spec_assemble_row(fields: Seq<FieldV>, mname: Seq<char>, oc: AggOutcomeV) -> Seq<
    CellV,
> {
    seq![CellV::Text(mname)] + Seq::new(
        fields.len(),
        |j: int|
            match oc {
                AggOutcomeV::Row(vs) => spec_metric_cell(fields[j], vs[j]),
                _ => CellV::Text("null"@),
            },
    )
}

/// The message of the first failed aggregate, in metric order, if any.
pub open spec fn spec_first_failure(ocs: Seq<AggOutcomeV>) -> Option<Seq<char>>
    decreases ocs.len(),
{
    if ocs.len() == 0 {
        None
    } else {
        match ocs.first() {
            AggOutcomeV::Failed(m) => Some(m),
            _ => spec_first_failure(ocs.drop_first()),
        }
    }
}

/// A first failure of `None` means no outcome failed at all.
proof fn lemma_first_failure_none(ocs: Seq<AggOutcomeV>)
    requires
        spec_first_failure(ocs) is None,
    ensures
        forall|m: int| 0 <= m < ocs.len() ==> !((#[trigger] ocs[m]) is Failed),
    decreases ocs.len(),
{
    if ocs.len() > 0 {
        lemma_first_failure_none(ocs.drop_first());
        assert forall|m: int| 0 <= m < ocs.len() implies !((#[trigger] ocs[m]) is Failed) by {
            if m > 0 {
                assert(ocs.drop_first()[m - 1] == ocs[m]);
            }
        }
    }
}

/// When no outcome failed, the first failure is `None`.
proof fn lemma_no_failures(ocs: Seq<AggOutcomeV>)
    requires
        forall|m: int| 0 <= m < ocs.len() ==> !((#[trigger] ocs[m]) is Failed),
    ensures
        spec_first_failure(ocs) is None,
    decreases ocs.len(),
{
    if ocs.len() > 0 {
        assert forall|m: int| 0 <= m < ocs.drop_first().len() implies !((#[trigger] ocs.drop_first()[m])
            is Failed) by {
            assert(ocs.drop_first()[m] == ocs[m + 1]);
        }
        lemma_no_failures(ocs.drop_first());
    }
}

/// The assembled describe result for a field list and per-metric
/// outcomes, one row per metric.
pub open spec fn spec_assemble(fields: Seq<FieldV>, ocs: Seq<AggOutcomeV>) -> TableV {
    TableV {
        fields: spec_describe_fields(fields),
        rows: Seq::new(
            ocs.len(),
            |m: int| spec_assemble_row(fields, spec_metric_names()[m], ocs[m]),
        ),
    }
}

/// The describe result for a dataset held in memory.
pub open spec fn spec_describe(t: TableV) -> TableV {
    spec_assemble(t.fields, spec_outcomes(t))
}

fn sentinel_cell() -> (r: Cell)
    ensures
        r@ == CellV::Text("null"@),
{
    Cell::Text(String::from_str("null"))
}

fn metric_cell(f: &Field, v: i64) -> (r: Cell)
    ensures
        r@ == spec_metric_cell(f@, v),
{
    if f.numeric {
        Cell::Num(v)
    } else {
        Cell::Text(i64_to_string(v))
    }
}

/// The describe result's field list for an original field list.
pub fn describe_fields(fields: &Vec<Field>) -> (r: Vec<Field>)
    ensures
        fields_view(r@) == spec_describe_fields(fields_view(fields@)),
{
    let mut out: Vec<Field> = Vec::new();
    out.push(Field::new("describe", false));
    let mut i: usize = 0;
    while i < fields.len()
        invariant
            i <= fields@.len(),
            out@.len() == i + 1,
            out@[0]@ == (FieldV { name: "describe"@, numeric: false }),
            forall|j: int| 0 <= j < i ==> (#[trigger] out@[j + 1])@ == fields@[j]@,
        decreases fields@.len() - i,
    {
        out.push(fields[i].clone_field());
        i = i + 1;
    }
    proof {
        let fv = spec_describe_fields(fields_view(fields@));
        assert(fields_view(out@).len() == fv.len());
        assert(fields_view(out@)[0] == fv[0]);
        assert forall|idx: int| 1 <= idx < fv.len() implies fields_view(out@)[idx] == fv[idx] by {
            assert(out@[(idx - 1) + 1]@ == fields@[idx - 1]@);
        }
        assert(fields_view(out@) =~= fv);
    }
    out
}

/// Assembles the describe result from the per-metric aggregate outcomes,
/// exactly as the engine reported them. A failed outcome (other than the
/// inapplicable-aggregate report) is fatal for the whole describe call
/// and surfaces as the first failure's message.
pub fn assemble_describe(fields: &Vec<Field>, outcomes: &Vec<AggOutcome>) -> (r: Result<
    Table,
    EngineError,
>)
    requires
        outcomes@.len() == spec_metric_names().len(),
        outcomes_fit(outcomes_view(outcomes@), fields@.len() as nat),
    ensures
        match r {
            Ok(t) => spec_first_failure(outcomes_view(outcomes@)) is None && t@ == spec_assemble(
                fields_view(fields@),
                outcomes_view(outcomes@),
            ) && t.wf(),
            Err(e) => e@ matches EngineErrorV::Query(m) && spec_first_failure(
                outcomes_view(outcomes@),
            ) == Some(m),
        },
{
    let ghost ocs = outcomes_view(outcomes@);
    proof {
        assert(ocs.skip(0) =~= ocs);
    }
    // Surface the first fatal failure, if any.
    let mut m: usize = 0;
    while m < outcomes.len()
        invariant
            m <= outcomes@.len(),
            ocs == outcomes_view(outcomes@),
            spec_first_failure(ocs) == spec_first_failure(ocs.skip(m as int)),
        decreases outcomes@.len() - m,
    {
        proof {
            assert(ocs.skip(m as int).first() == ocs[m as int]);
            assert(ocs.skip(m as int).drop_first() =~= ocs.skip(m as int + 1));
        }
        if let AggOutcome::Failed(msg) = &outcomes[m] {
            return Err(EngineError::Query(msg.clone()));
        }
        m = m + 1;
    }
    proof {
        assert(ocs.skip(outcomes@.len() as int) =~= Seq::<AggOutcomeV>::empty());
        lemma_first_failure_none(ocs);
    }
    // One row per metric: the metric's name, then one cell per field.
    let names = metric_names();
    let k = fields.len();
    let mut rows: Vec<Vec<Cell>> = Vec::new();
    let mut m: usize = 0;
    while m < outcomes.len()
        invariant
            m <= outcomes@.len(),
            outcomes@.len() == spec_metric_names().len(),
            ocs == outcomes_view(outcomes@),
            spec_first_failure(ocs) is None,
            forall|i: int| 0 <= i < ocs.len() ==> !((#[trigger] ocs[i]) is Failed),
            outcomes_fit(ocs, fields@.len() as nat),
            k == fields@.len(),
            names@.len() == spec_metric_names().len(),
            forall|i: int| 0 <= i < names@.len() ==> (#[trigger] names@[i])@
                == spec_metric_names()[i],
            rows@.len() == m,
            forall|i: int| 0 <= i < m ==> row_view((#[trigger] rows@[i])@) == spec_assemble_row(
                fields_view(fields@),
                spec_metric_names()[i],
                ocs[i],
            ),
        decreases outcomes@.len() - m,
    {
        let mut row: Vec<Cell> = Vec::new();
        row.push(Cell::Text(names[m].clone()));
        let mut j: usize = 0;
        while j < k
            invariant
                j <= k,
                m < outcomes@.len(),
                outcomes@.len() == spec_metric_names().len(),
                ocs == outcomes_view(outcomes@),
                outcomes_fit(ocs, fields@.len() as nat),
                forall|i: int| 0 <= i < ocs.len() ==> !((#[trigger] ocs[i]) is Failed),
                k == fields@.len(),
                row@.len() == j + 1,
                row@[0]@ == CellV::Text(spec_metric_names()[m as int]),
                forall|i: int| 0 <= i < j ==> (#[trigger] row@[i + 1])@ == (match ocs[m as int] {
                    AggOutcomeV::Row(vs) => spec_metric_cell(fields_view(fields@)[i], vs[i]),
                    _ => CellV::Text("null"@),
                }),
            decreases k - j,
        {
            proof {
                assert(ocs[m as int] == outcomes@[m as int]@);
            }
            let c = match &outcomes[m] {
                AggOutcome::Row(vs) => metric_cell(&fields[j], vs[j]),
                _ => sentinel_cell(),
            };
            row.push(c);
            j = j + 1;
        }
        proof {
            let rowv = spec_assemble_row(
                fields_view(fields@),
                spec_metric_names()[m as int],
                ocs[m as int],
            );
            assert(row_view(row@).len() == rowv.len());
            assert(row_view(row@)[0] == rowv[0]);
            assert forall|idx: int| 1 <= idx < rowv.len() implies row_view(row@)[idx]
                == rowv[idx] by {
                assert(row@[(idx - 1) + 1]@ == (match ocs[m as int] {
                    AggOutcomeV::Row(vs) => spec_metric_cell(fields_view(fields@)[idx - 1], vs[idx - 1]),
                    _ => CellV::Text("null"@),
                }));
            }
            assert(row_view(row@) =~= rowv);
        }
        rows.push(row);
        m = m + 1;
    }
    let dfields = describe_fields(fields);
    let t = Table { fields: dfields, rows };
    proof {
        assert(rows_view(t.rows@) =~= spec_assemble(fields_view(fields@), ocs).rows);
        assert(t@ == spec_assemble(fields_view(fields@), ocs));
        assert forall|r: int| 0 <= r < t@.rows.len() implies (#[trigger] t@.rows[r]).len()
            == t@.fields.len() by {
            assert(t@.rows[r] == spec_assemble(fields_view(fields@), ocs).rows[r]);
        }
    }
    Ok(t)
}

/// Runs the two aggregate queries for a dataset held in memory: the
/// per-field non-null count and the per-field null count, or the
/// inapplicable-aggregate report when the dataset has no rows or no
/// fields.
pub fn aggregate_outcomes(t: &Table) -> (r: Vec<AggOutcome>)
    requires
        t.wf(),
        t@.rows.len() <= i64::MAX,
    ensures
        outcomes_view(r@) == spec_outcomes(t@),
{
    let k = t.fields.len();
    let n = t.rows.len();
    if n == 0 || k == 0 {
        let r = vec![AggOutcome::NoAggregate, AggOutcome::NoAggregate];
        proof {
            assert(outcomes_view(r@) =~= spec_outcomes(t@));
        }
        return r;
    }
    let ghost rv = rows_view(t.rows@);
    let mut counts: Vec<i64> = Vec::new();
    let mut nulls: Vec<i64> = Vec::new();
    let mut j: usize = 0;
    while j < k
        invariant
            j <= k,
            k == t@.fields.len(),
            n == t@.rows.len(),
            n <= i64::MAX,
            t.wf(),
            rv == rows_view(t.rows@),
            counts@.len() == j,
            nulls@.len() == j,
            forall|i: int| 0 <= i < j ==> #[trigger] counts@[i] == spec_count_nonnull(rv, i) as i64,
            forall|i: int| 0 <= i < j ==> #[trigger] nulls@[i] == spec_count_null(rv, i) as i64,
        decreases k - j,
    {
        let mut cnt: i64 = 0;
        let mut nul: i64 = 0;
        let mut r: usize = 0;
        while r < n
            invariant
                r <= n,
                j < k,
                k == t@.fields.len(),
                n == t@.rows.len(),
                n <= i64::MAX,
                t.wf(),
                rv == rows_view(t.rows@),
                cnt == spec_count_nonnull(rv.take(r as int), j as int) as i64,
                nul == spec_count_null(rv.take(r as int), j as int) as i64,
                cnt + nul == r,
            decreases n - r,
        {
            proof {
                lemma_count_bounds(rv.take(r as int), j as int);
                assert(rv[r as int] == row_view(t.rows@[r as int]@));
                assert(rv[r as int].len() == t@.fields.len());
                assert(rv.take(r as int + 1).drop_last() =~= rv.take(r as int));
                assert(rv.take(r as int + 1).last() == rv[r as int]);
            }
            let cell = &t.rows[r][j];
            match cell {
                Cell::Null => {
                    nul = nul + 1;
                },
                _ => {
                    cnt = cnt + 1;
                },
            }
            r = r + 1;
        }
        proof {
            assert(rv.take(n as int) =~= rv);
        }
        counts.push(cnt);
        nulls.push(nul);
        j = j + 1;
    }
    let r = vec![AggOutcome::Row(counts), AggOutcome::Row(nulls)];
    proof {
        assert(outcomes_view(r@)[0] == AggOutcomeV::Row(counts@));
        assert(counts@ =~= Seq::new(
            t@.fields.len(),
            |j: int| spec_count_nonnull(t@.rows, j) as i64,
        ));
        assert(nulls@ =~= Seq::new(
            t@.fields.len(),
            |j: int| spec_count_null(t@.rows, j) as i64,
        ));
        assert(outcomes_view(r@) =~= spec_outcomes(t@));
    }
    r
}

/// Describes a dataset held in memory: runs both aggregate queries and
/// assembles the fixed-shape result table.
pub fn describe_table(t: &Table) -> (r: Table)
    requires
        t.wf(),
        t@.rows.len() <= i64::MAX,
    ensures
        r@ == spec_describe(t@),
        r.wf(),
{
    let outcomes = aggregate_outcomes(t);
    proof {
        let ocs = spec_outcomes(t@);
        assert(ocs.len() == 2);
        assert(!(ocs[0] is Failed) && !(ocs[1] is Failed));
        lemma_no_failures(ocs);
        assert(outcomes_fit(ocs, t@.fields.len() as nat));
    }
    match assemble_describe(&t.fields, &outcomes) {
        Ok(r) => r,
        Err(_) => unreached(),
    }
}

/// Shape invariant: for a dataset with `k` fields the describe result has
/// exactly `1 + k` columns and exactly one row per declared metric,
/// whatever `k` is (including none).
pub proof fn lemma_describe_shape(t: TableV)
    ensures
        spec_describe(t).fields.len() == 1 + t.fields.len(),
        spec_describe(t).rows.len() == 2,
        forall|m: int| 0 <= m < 2 ==> (#[trigger] spec_describe(t).rows[m]).len() == 1
            + t.fields.len(),
        spec_describe(t).wf(),
{
}

/// Null substitution: a dataset with no rows yields the sentinel text
/// `null` for every field under every metric, not an error.
pub proof fn lemma_describe_empty(t: TableV)
    requires
        t.rows.len() == 0,
    ensures
        forall|m: int, j: int|
            0 <= m < 2 && 1 <= j < 1 + t.fields.len() ==> #[trigger] spec_describe(t).rows[m][j]
                == CellV::Text("null"@),
{
}

/// Idempotence: the describe result is a function of the dataset alone,
/// so describing an unmodified dataset twice yields identical tables.
pub proof fn lemma_describe_idempotent(t: TableV, r1: TableV, r2: TableV)
    requires
        r1 == spec_describe(t),
        r2 == spec_describe(t),
    ensures
        r1 == r2,
{
}

} // verus!
