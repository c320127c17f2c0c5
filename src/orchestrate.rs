//! The decisions of each generation iteration: which table, in which order
//! the inserts run, and when the transaction commits.

use vstd::prelude::*;
use crate::config::{Parameters, ParamsModel, RuleModel, last_rule, rule_for};
use crate::random::RandomSource;
use crate::schema::{Database, TableModel, strings_view};
use crate::synth::{Value, KeyKind, key_kind, key_kind_of};

verus! {

/// The tables that a draw chooses among: the allow-list when it is given,
/// else every table of the model.
pub open spec fn candidates(names: Seq<Seq<char>>, p: ParamsModel) -> Seq<Seq<char>> {
    if p.onlys.len() > 0 {
        p.onlys
    } else {
        names
    }
}

/// What one draw over the tables `names` with parameters `p` may give: a
/// candidate outside the deny-set, or `None` when there is no candidate or
/// the drawn one, a candidate, is denied (the caller draws again).
pub open spec fn draw_outcome(names: Seq<Seq<char>>, p: ParamsModel, r: Option<Seq<char>>) -> bool {
    &&& r is Some ==> candidates(names, p).contains(r->0) && !p.skips.contains(r->0)
    &&& r is None ==> candidates(names, p).len() == 0 || exists|i: int|
        0 <= i < candidates(names, p).len() && p.skips.contains(#[trigger] candidates(names, p)[i])
}

/// Whether `name` is in the deny-set `skips`.
pub fn is_skipped(skips: &Vec<String>, name: &String) -> (r: bool)
    ensures
        r == strings_view(skips@).contains(name@),
{
    let mut k: usize = 0;
    while k < skips.len()
        invariant
            k <= skips@.len(),
            forall|j: int| 0 <= j < k ==> (#[trigger] skips@[j])@ != name@,
        decreases skips@.len() - k,
    {
        if skips[k] == *name {
            assert(strings_view(skips@)[k as int] == name@);
            return true;
        }
        k = k + 1;
    }
    assert(!strings_view(skips@).contains(name@)) by {
        if strings_view(skips@).contains(name@) {
            let j = choose|j: int| 0 <= j < skips@.len() && strings_view(skips@)[j] == name@;
            assert(skips@[j]@ == name@);
        }
    }
    false
}

/// Draws the table of the next iteration.
pub fn draw_table(rng: &mut RandomSource, db: &Database, params: &Parameters) -> (r: Option<String>)
    ensures
        draw_outcome(
            db@.tables.map_values(|t: TableModel| t.name),
            params@,
            match r {
                Some(s) => Some(s@),
                None => None,
            },
        ),
{
    let names = db.table_names();
    let pool: &Vec<String> = if params.onlys.len() > 0 {
        &params.onlys
    } else {
        &names
    };
    let drawn = rng.pick(pool);
    match drawn {
        None => None,
        Some(t) => {
            let ghost cs = candidates(strings_view(names@), params@);
            proof {
                let i = choose|i: int| 0 <= i < pool@.len() && (#[trigger] pool@[i])@ == t@;
                assert(cs == strings_view(pool@));
                assert(cs[i] == t@);
            }
            if is_skipped(&params.skips, &t) {
                return None;
            }
            Some(t)
        },
    }
}

/// With the allow-list holding `only` alone, every draw gives `only`: over any
/// number of draws the tables drawn are exactly that one.
pub proof fn lemma_only_filter_draws_it(names: Seq<Seq<char>>, p: ParamsModel, only: Seq<char>, r: Option<Seq<char>>)
    requires
        p.wf(),
        p.onlys == seq![only],
        draw_outcome(names, p, r),
    ensures
        r == Some(only),
{
    assert(p.skips.len() == 0);
    if r is Some {
        assert(p.onlys.contains(r->0));
        assert(p.onlys[0] == only);
    }
}

/// How the rows of one iteration are inserted.
#[derive(Debug, PartialEq, Eq)]
pub enum IterationPlan {
    /// One insert into `table`.
    Plain { table: String },
    /// An insert into `related_table` that returns `related_column`, then an
    /// insert into `table` whose `local_column` holds the returned value.
    Linked { related_table: String, related_column: String, table: String, local_column: String },
}

pub enum PlanModel {
    Plain { table: Seq<char> },
    Linked { related_table: Seq<char>, related_column: Seq<char>, table: Seq<char>, local_column: Seq<char> },
}

impl View for IterationPlan {
    type V = PlanModel;

    open spec fn view(&self) -> PlanModel {
        match self {
            IterationPlan::Plain { table } => PlanModel::Plain { table: table@ },
            IterationPlan::Linked { related_table, related_column, table, local_column } => PlanModel::Linked {
                related_table: related_table@,
                related_column: related_column@,
                table: table@,
                local_column: local_column@,
            },
        }
    }
}

pub open spec fn linked(table: Seq<char>, m: RuleModel) -> PlanModel {
    PlanModel::Linked {
        related_table: m.related_table,
        related_column: m.related_column,
        table,
        local_column: m.local_column,
    }
}

/// The plan for `table`: its `RequireAfter` rule if it has one, else its
/// `RequireBefore` rule, else a single insert. Either rule creates the
/// related row first and feeds its key into the table's row.
pub open spec fn iteration_plan(p: ParamsModel, table: Seq<char>) -> PlanModel {
    match last_rule(p.afters, table) {
        Some(m) => linked(table, m),
        None => match last_rule(p.befores, table) {
            Some(m) => linked(table, m),
            None => PlanModel::Plain { table },
        },
    }
}

pub fn plan_iteration(params: &Parameters, table: &String) -> (r: IterationPlan)
    ensures
        r@ == iteration_plan(params@, table@),
{
    let rule = match rule_for(&params.require_afters, table) {
        Some(rule) => Some(rule),
        None => rule_for(&params.require_befores, table),
    };
    match rule {
        Some(rule) => IterationPlan::Linked {
            related_table: rule.related_table.clone(),
            related_column: rule.related_column.clone(),
            table: table.clone(),
            local_column: rule.local_column.clone(),
        },
        None => IterationPlan::Plain { table: table.clone() },
    }
}


/// One insert to run: the table, the column whose value is given (if any),
/// and the column whose value is to be returned (if any).
#[derive(Debug, PartialEq, Eq)]
pub struct InsertRequest {
    pub table: String,
    pub set_column: Option<(String, Value)>,
    pub returning: Option<String>,
}

/// What the caller does next within the iteration's transaction.
#[derive(Debug, PartialEq, Eq)]
pub enum Action {
    Insert(InsertRequest),
    /// Commit the transaction: every insert of the iteration succeeded.
    Commit,
    /// Drop the transaction: an insert failed or returned nothing.
    Abort,
}

/// The outcome of the insert that the last action asked for.
#[derive(Debug, PartialEq, Eq)]
pub enum Event {
    /// The insert succeeded, with the returned value if one was asked for.
    Inserted(Option<Value>),
    Failed,
}

#[derive(Clone, Copy, Debug, PartialEq, Eq, Structural)]
pub enum Stage {
    AwaitFirst,
    AwaitSecond,
    Done,
}

/// The state of one iteration: its plan and how far it has gone.
pub struct Iteration {
    pub plan: IterationPlan,
    pub stage: Stage,
}

/// `a` asks for an insert into `table`, with no value given, returning `returning`.
pub open spec fn asks_insert(a: Action, table: Seq<char>, returning: Option<Seq<char>>) -> bool {
    &&& a is Insert
    &&& a->Insert_0.table@ == table
    &&& a->Insert_0.set_column is None
    &&& match a->Insert_0.returning {
        Some(c) => returning == Some(c@),
        None => returning is None,
    }
}

/// `a` asks for an insert into `table` whose `column` holds `v`, returning nothing.
pub open spec fn asks_linked_insert(a: Action, table: Seq<char>, column: Seq<char>, v: Value) -> bool {
    &&& a is Insert
    &&& a->Insert_0.table@ == table
    &&& a->Insert_0.set_column is Some
    &&& (a->Insert_0.set_column->0).0@ == column
    &&& (a->Insert_0.set_column->0).1@ == v@
    &&& a->Insert_0.returning is None
}

impl Iteration {
    /// Starts an iteration: the first insert is into the related table,
    /// returning the related column, for a linked plan; else into the table.
    pub fn start(plan: IterationPlan) -> (r: (Iteration, Action))
        ensures
            r.0.plan@ == plan@,
            r.0.stage == Stage::AwaitFirst,
            match plan@ {
                PlanModel::Plain { table } => asks_insert(r.1, table, None),
                PlanModel::Linked { related_table, related_column, .. } => asks_insert(
                    r.1,
                    related_table,
                    Some(related_column),
                ),
            },
    {
        let action = match &plan {
            IterationPlan::Plain { table } => Action::Insert(
                InsertRequest { table: table.clone(), set_column: None, returning: None },
            ),
            IterationPlan::Linked { related_table, related_column, .. } => Action::Insert(
                InsertRequest {
                    table: related_table.clone(),
                    set_column: None,
                    returning: Some(related_column.clone()),
                },
            ),
        };
        (Iteration { plan, stage: Stage::AwaitFirst }, action)
    }

    /// Takes the outcome of the last insert and says what comes next. The
    /// second insert of a linked plan gets the value that the first returned;
    /// a failure, or a first insert that returned nothing, aborts; the
    /// transaction commits once every insert succeeded.
    pub fn advance(&mut self, event: Event) -> (r: Action)
        ensures
            final(self).plan@ == old(self).plan@,
            old(self).stage == Stage::Done ==> r is Abort && final(self).stage == Stage::Done,
            old(self).stage != Stage::Done && event is Failed ==> r is Abort && final(self).stage == Stage::Done,
            old(self).stage == Stage::AwaitFirst && old(self).plan is Plain && event is Inserted ==> r is Commit
                && final(self).stage == Stage::Done,
            old(self).stage == Stage::AwaitFirst && old(self).plan is Linked && event is Inserted ==> match event->Inserted_0 {
                Some(v) => asks_linked_insert(
                    r,
                    old(self).plan->Linked_table@,
                    old(self).plan->Linked_local_column@,
                    v,
                ) && final(self).stage == Stage::AwaitSecond,
                None => r is Abort && final(self).stage == Stage::Done,
            },
            old(self).stage == Stage::AwaitSecond && event is Inserted ==> r is Commit && final(self).stage
                == Stage::Done,
    {
        match self.stage {
            Stage::Done => Action::Abort,
            Stage::AwaitSecond => {
                self.stage = Stage::Done;
                match event {
                    Event::Inserted(_) => Action::Commit,
                    Event::Failed => Action::Abort,
                }
            },
            Stage::AwaitFirst => match event {
                Event::Failed => {
                    self.stage = Stage::Done;
                    Action::Abort
                },
                Event::Inserted(returned) => match &self.plan {
                    IterationPlan::Plain { .. } => {
                        self.stage = Stage::Done;
                        Action::Commit
                    },
                    IterationPlan::Linked { table, local_column, .. } => match returned {
                        Some(v) => {
                            let request = InsertRequest {
                                table: table.clone(),
                                set_column: Some((local_column.clone(), v)),
                                returning: None,
                            };
                            self.stage = Stage::AwaitSecond;
                            Action::Insert(request)
                        },
                        None => {
                            self.stage = Stage::Done;
                            Action::Abort
                        },
                    },
                },
            },
        }
    }
}

/// Iterations that committed and that failed, so far.
#[derive(Debug, PartialEq, Eq)]
pub struct Counters {
    pub committed: u64,
    pub failed: u64,
}

impl Counters {
    pub fn new() -> (r: Counters)
        ensures
            r.committed == 0,
            r.failed == 0,
    {
        Counters { committed: 0, failed: 0 }
    }

    /// Counts one more iteration, committed or failed (saturating at the
    /// largest count).
    pub fn record(&mut self, committed: bool)
        ensures
            committed ==> final(self).committed == if old(self).committed < u64::MAX {
                (old(self).committed + 1) as u64
            } else {
                old(self).committed
            } && final(self).failed == old(self).failed,
            !committed ==> final(self).failed == if old(self).failed < u64::MAX {
                (old(self).failed + 1) as u64
            } else {
                old(self).failed
            } && final(self).committed == old(self).committed,
    {
        if committed {
            self.committed = self.committed.saturating_add(1);
        } else {
            self.failed = self.failed.saturating_add(1);
        }
    }
}

/// Why an insert cannot be planned against the model.
#[derive(Debug, PartialEq, Eq)]
pub enum PlanError {
    UnknownTable { table: String },
    UnknownColumn { table: String, column: String },
    /// A returned column whose type is neither a 64-bit integer nor text.
    UnsupportedReturnType { table: String, column: String },
}

/// The kind of value that an insert into `table` returning `column` gives back.
pub fn returned_kind(db: &Database, table: &String, column: &String) -> (r: Result<KeyKind, PlanError>)
    ensures
        r is Ok ==> exists|i: int, j: int|
            0 <= i < db.tables@.len() && 0 <= j < db.tables@[i].columns@.len()
                && db.tables@[i].name@ == table@ && (#[trigger] db.tables@[i].columns@[j]).name@ == column@
                && key_kind(db.tables@[i].columns@[j].value_type@) == Some(r->Ok_0),
        r is Err && r->Err_0 is UnknownTable <==> !exists|i: int|
            0 <= i < db.tables@.len() && (#[trigger] db.tables@[i]).name@ == table@,
        r is Err && r->Err_0 is UnknownColumn ==> exists|i: int|
            0 <= i < db.tables@.len() && (#[trigger] db.tables@[i]).name@ == table@ && forall|j: int|
                0 <= j < db.tables@[i].columns@.len() ==> (#[trigger] db.tables@[i].columns@[j]).name@ != column@,
        r is Err && r->Err_0 is UnsupportedReturnType ==> exists|i: int, j: int|
            0 <= i < db.tables@.len() && 0 <= j < db.tables@[i].columns@.len()
                && db.tables@[i].name@ == table@ && (#[trigger] db.tables@[i].columns@[j]).name@ == column@
                && key_kind(db.tables@[i].columns@[j].value_type@) is None,
{
    match db.find_table(table) {
        None => Err(PlanError::UnknownTable { table: table.clone() }),
        Some(t) => match t.find_column(column) {
            None => {
                let ghost i = choose|i: int| 0 <= i < db.tables@.len() && (#[trigger] db.tables@[i]) == *t;
                assert(db.tables@[i] == *t);
                Err(PlanError::UnknownColumn { table: table.clone(), column: column.clone() })
            },
            Some(c) => match key_kind_of(&c.value_type) {
                Some(k) => {
                    let ghost i = choose|i: int| 0 <= i < db.tables@.len() && (#[trigger] db.tables@[i]) == *t;
                    let ghost j = choose|j: int| 0 <= j < t.columns@.len() && (#[trigger] t.columns@[j]) == *c;
                    assert(db.tables@[i].columns@[j] == *c);
                    Ok(k)
                },
                None => {
                    let ghost i = choose|i: int| 0 <= i < db.tables@.len() && (#[trigger] db.tables@[i]) == *t;
                    let ghost j = choose|j: int| 0 <= j < t.columns@.len() && (#[trigger] t.columns@[j]) == *c;
                    assert(db.tables@[i].columns@[j] == *c);
                    Err(PlanError::UnsupportedReturnType { table: table.clone(), column: column.clone() })
                },
            },
        },
    }
}

} // verus!
