//! The session step machine that the bridge's worker runs.
//!
//! The worker owns the single backend instance; the front-end never
//! touches it. Each request pairs one command with the outside engine's
//! contribution to it (an event): a decoded dataset for a file connect,
//! a query result for `sql`, nothing for the catalog operations the
//! backend serves itself. `step` executes one request to completion and
//! produces exactly one reply; `run` processes a whole queue strictly in
//! send order, one reply per request.

use vstd::prelude::*;

use crate::backend::CatalogV;
use crate::backend::MemBackend;
use crate::backend::spec_connect;
use crate::backend::spec_find_name;
use crate::backend::spec_head;
use crate::backend::spec_list;
use crate::backend::spec_schema_table;
use crate::command::ReplCommand;
use crate::conn::DatasetConn;
use crate::describe::spec_describe;
use crate::error::EngineError;
use crate::error::EngineErrorV;
use crate::render::render_table;
use crate::render::spec_render;
use crate::table::Table;
use crate::table::clone_table;

verus! {

/// What the outside engine contributed to one request: nothing, a
/// decoded dataset for a file connect, or a SQL query's result.
pub enum EngineEvent {
    Absent,
    Loaded(Result<Table, String>),
    SqlResult(Result<Table, String>),
}

/// The event a command needs: a load outcome for a file connect, a query
/// outcome for `sql`, nothing otherwise. `Exit` never reaches the
/// worker: the front-end terminates instead of sending it.
pub open spec fn event_fits(cmd: ReplCommand, ev: EngineEvent) -> bool {
    match cmd {
        ReplCommand::Connect(o) => match o.conn {
            DatasetConn::Postgres(_) => ev is Absent,
            _ => ev matches EngineEvent::Loaded(res) && (res matches Ok(t) ==> t.wf()
                && t@.rows.len() <= i64::MAX),
        },
        ReplCommand::Sql(_) => ev matches EngineEvent::SqlResult(res) && (res matches Ok(t)
            ==> t.wf()),
        ReplCommand::Exit(_) => false,
        _ => ev is Absent,
    }
}

/// The catalog after one request: only a successful file connect changes
/// it; every other command, and every failure, leaves it untouched.
pub open spec fn spec_step_catalog(c: CatalogV, cmd: ReplCommand, ev: EngineEvent) -> CatalogV {
    match cmd {
        ReplCommand::Connect(o) => match ev {
            EngineEvent::Loaded(Ok(t)) => spec_connect(c, o.name@, t@),
            _ => c,
        },
        _ => c,
    }
}

/// The reply to one request: the rendered result table, a confirmation
/// for `connect`, or the error that exact command failed with.
pub open spec fn spec_step_reply(c: CatalogV, cmd: ReplCommand, ev: EngineEvent) -> Result<
    Seq<char>,
    EngineErrorV,
> {
    match cmd {
        ReplCommand::Connect(o) => match o.conn {
            DatasetConn::Postgres(_) => Err(EngineErrorV::Unsupported),
            _ => match ev {
                EngineEvent::Loaded(Ok(_)) => Ok("Connected to database: "@ + o.name@),
                EngineEvent::Loaded(Err(m)) => Err(EngineErrorV::Query(m@)),
                _ => Err(EngineErrorV::Unsupported),
            },
        },
        ReplCommand::List(_) => Ok(spec_render(spec_list(c.names))),
        ReplCommand::Schema(o) => match spec_find_name(c.names, o.name@) {
            Some(i) => Ok(spec_render(spec_schema_table(c.tables[i]))),
            None => Err(EngineErrorV::NotFound(o.name@)),
        },
        ReplCommand::Describe(o) => match spec_find_name(c.names, o.name@) {
            Some(i) => Ok(spec_render(spec_describe(c.tables[i]))),
            None => Err(EngineErrorV::NotFound(o.name@)),
        },
        ReplCommand::Head(o) => match spec_find_name(c.names, o.name@) {
            Some(i) => Ok(spec_render(spec_head(c.tables[i], o.size as int))),
            None => Err(EngineErrorV::NotFound(o.name@)),
        },
        ReplCommand::Sql(_) => match ev {
            EngineEvent::SqlResult(Ok(t)) => Ok(spec_render(t@)),
            EngineEvent::SqlResult(Err(m)) => Err(EngineErrorV::Query(m@)),
            _ => Err(EngineErrorV::Unsupported),
        },
        ReplCommand::Exit(_) => Err(EngineErrorV::Unsupported),
    }
}

/// Executes one request to completion against the backend and produces
/// its one reply.
pub fn step(b: &mut MemBackend, cmd: &ReplCommand, ev: &EngineEvent) -> (r: Result<
    String,
    EngineError,
>)
    requires
        old(b).wf(),
        event_fits(*cmd, *ev),
    ensures
        final(b).wf(),
        final(b)@ == spec_step_catalog(old(b)@, *cmd, *ev),
        match r {
            Ok(s) => spec_step_reply(old(b)@, *cmd, *ev) == Ok::<Seq<char>, EngineErrorV>(s@),
            Err(e) => spec_step_reply(old(b)@, *cmd, *ev) == Err::<Seq<char>, EngineErrorV>(e@),
        },
{
    match cmd {
        ReplCommand::Connect(o) => match &o.conn {
            DatasetConn::Postgres(_) => Err(EngineError::Unsupported),
            _ => match ev {
                EngineEvent::Loaded(res) => match res {
                    Ok(t) => {
                        b.connect(o.name.as_str(), clone_table(t));
                        let mut m = String::from_str("Connected to database: ");
                        m.append(o.name.as_str());
                        Ok(m)
                    },
                    Err(msg) => Err(EngineError::Query(msg.clone())),
                },
                _ => unreached(),
            },
        },
        ReplCommand::List(_) => {
            let t = b.list();
            Ok(render_table(&t))
        },
        ReplCommand::Schema(o) => match b.schema(o.name.as_str()) {
            Ok(t) => Ok(render_table(&t)),
            Err(e) => Err(e),
        },
        ReplCommand::Describe(o) => match b.describe(o.name.as_str()) {
            Ok(t) => Ok(render_table(&t)),
            Err(e) => Err(e),
        },
        ReplCommand::Head(o) => match b.head(o.name.as_str(), o.size) {
            Ok(t) => Ok(render_table(&t)),
            Err(e) => Err(e),
        },
        ReplCommand::Sql(_) => match ev {
            EngineEvent::SqlResult(res) => match res {
                Ok(t) => Ok(render_table(t)),
                Err(msg) => Err(EngineError::Query(msg.clone())),
            },
            _ => unreached(),
        },
        ReplCommand::Exit(_) => unreached(),
    }
}

/// One request: a command and the engine's contribution to it.
pub struct SessionInput {
    pub cmd: ReplCommand,
    pub ev: EngineEvent,
}

/// The view of one reply.
pub open spec fn reply_view(r: Result<String, EngineError>) -> Result<Seq<char>, EngineErrorV> {
    match r {
        Ok(s) => Ok(s@),
        Err(e) => Err(e@),
    }
}

/// The view of a reply list.
pub open spec fn replies_view(rs: Seq<Result<String, EngineError>>) -> Seq<
    Result<Seq<char>, EngineErrorV>,
> {
    rs.map_values(|r: Result<String, EngineError>| reply_view(r))
}

/// Folding a whole request queue: the final catalog and one reply per
/// request, in order. Each request's reply depends only on the initial
/// catalog and the requests before it — never on a later one.
pub open spec fn spec_run(c: CatalogV, inputs: Seq<SessionInput>) -> (CatalogV, Seq<
    Result<Seq<char>, EngineErrorV>,
>)
    decreases inputs.len(),
{
    if inputs.len() == 0 {
        (c, Seq::empty())
    } else {
        let x = inputs.first();
        let c1 = spec_step_catalog(c, x.cmd, x.ev);
        let r1 = spec_step_reply(c, x.cmd, x.ev);
        let rest = spec_run(c1, inputs.drop_first());
        (rest.0, seq![r1] + rest.1)
    }
}

proof fn lemma_run_snoc(c: CatalogV, xs: Seq<SessionInput>, x: SessionInput)
    ensures
        spec_run(c, xs.push(x)).0 == spec_step_catalog(spec_run(c, xs).0, x.cmd, x.ev),
        spec_run(c, xs.push(x)).1 == spec_run(c, xs).1.push(
            spec_step_reply(spec_run(c, xs).0, x.cmd, x.ev),
        ),
    decreases xs.len(),
{
    reveal_with_fuel(spec_run, 3);
    if xs.len() == 0 {
        assert(xs.push(x).first() == x);
        assert(xs.push(x).drop_first() =~= Seq::<SessionInput>::empty());
        assert(spec_run(c, xs.push(x)).1 =~= spec_run(c, xs).1.push(
            spec_step_reply(spec_run(c, xs).0, x.cmd, x.ev),
        ));
    } else {
        let h = xs.first();
        let c1 = spec_step_catalog(c, h.cmd, h.ev);
        assert(xs.push(x).first() == h);
        assert(xs.push(x).drop_first() =~= xs.drop_first().push(x));
        lemma_run_snoc(c1, xs.drop_first(), x);
        assert(spec_run(c, xs.push(x)).1 =~= spec_run(c, xs).1.push(
            spec_step_reply(spec_run(c, xs).0, x.cmd, x.ev),
        ));
    }
}

/// Processes a whole request queue strictly in send order against the
/// single backend: one reply per request, each produced before the next
/// request starts, and none dropped or reordered.
pub fn run(b: &mut MemBackend, inputs: &Vec<SessionInput>) -> (replies: Vec<
    Result<String, EngineError>,
>)
    requires
        old(b).wf(),
        forall|i: int|
            0 <= i < inputs@.len() ==> event_fits(
                (#[trigger] inputs@[i]).cmd,
                inputs@[i].ev,
            ),
    ensures
        final(b).wf(),
        final(b)@ == spec_run(old(b)@, inputs@).0,
        replies@.len() == inputs@.len(),
        replies_view(replies@) == spec_run(old(b)@, inputs@).1,
{
    let ghost c0 = b@;
    let mut replies: Vec<Result<String, EngineError>> = Vec::new();
    proof {
        assert(inputs@.take(0) =~= Seq::<SessionInput>::empty());
        assert(replies_view(replies@) =~= spec_run(c0, inputs@.take(0)).1);
    }
    let mut i: usize = 0;
    while i < inputs.len()
        invariant
            i <= inputs@.len(),
            c0 == old(b)@,
            forall|x: int|
                0 <= x < inputs@.len() ==> event_fits(
                    (#[trigger] inputs@[x]).cmd,
                    inputs@[x].ev,
                ),
            b.wf(),
            b@ == spec_run(c0, inputs@.take(i as int)).0,
            replies@.len() == i,
            replies_view(replies@) == spec_run(c0, inputs@.take(i as int)).1,
        decreases inputs@.len() - i,
    {
        let x = &inputs[i];
        let r = step(b, &x.cmd, &x.ev);
        replies.push(r);
        proof {
            lemma_run_snoc(c0, inputs@.take(i as int), inputs@[i as int]);
            assert(inputs@.take(i as int).push(inputs@[i as int]) =~= inputs@.take(i as int + 1));
            assert(replies_view(replies@) =~= spec_run(c0, inputs@.take(i as int + 1)).1);
        }
        i = i + 1;
    }
    proof {
        assert(inputs@.take(inputs@.len() as int) =~= inputs@);
    }
    replies
}

/// Ordering: processing `xs` then `ys` back-to-back yields exactly the
/// replies of `xs` followed by the replies of `ys` run on the catalog
/// that `xs` left behind. A request's reply is produced, and fixed,
/// before any later request begins executing.
pub proof fn lemma_run_ordering(c: CatalogV, xs: Seq<SessionInput>, ys: Seq<SessionInput>)
    ensures
        spec_run(c, xs + ys).0 == spec_run(spec_run(c, xs).0, ys).0,
        spec_run(c, xs + ys).1 == spec_run(c, xs).1 + spec_run(spec_run(c, xs).0, ys).1,
    decreases xs.len(),
{
    if xs.len() == 0 {
        assert(xs + ys =~= ys);
        assert(spec_run(c, xs).1 =~= Seq::<Result<Seq<char>, EngineErrorV>>::empty());
        assert(spec_run(c, xs + ys).1 =~= spec_run(c, xs).1 + spec_run(spec_run(c, xs).0, ys).1);
    } else {
        let h = xs.first();
        let c1 = spec_step_catalog(c, h.cmd, h.ev);
        assert((xs + ys).first() == h);
        assert((xs + ys).drop_first() =~= xs.drop_first() + ys);
        lemma_run_ordering(c1, xs.drop_first(), ys);
        assert(spec_run(c, xs + ys).1 =~= spec_run(c, xs).1 + spec_run(spec_run(c, xs).0, ys).1);
    }
}

/// Failure isolation: a `sql` request the engine rejected yields an
/// error reply for that request alone and leaves the catalog untouched,
/// so any following request behaves exactly as if the failed one had
/// never been sent.
pub proof fn lemma_sql_isolation(
    c: CatalogV,
    bad: ReplCommand,
    bad_ev: EngineEvent,
    next_cmd: ReplCommand,
    next_ev: EngineEvent,
)
    requires
        bad is Sql,
        bad_ev matches EngineEvent::SqlResult(res) && res is Err,
    ensures
        spec_step_reply(c, bad, bad_ev) is Err,
        spec_step_catalog(c, bad, bad_ev) == c,
        spec_step_reply(spec_step_catalog(c, bad, bad_ev), next_cmd, next_ev) == spec_step_reply(
            c,
            next_cmd,
            next_ev,
        ),
        spec_step_catalog(spec_step_catalog(c, bad, bad_ev), next_cmd, next_ev)
            == spec_step_catalog(c, next_cmd, next_ev),
{
}

} // verus!
