//! The task graph engine: operations are registered, their dependencies are
//! discovered as they are registered, and an operation is handed out to run
//! only once everything it depends on has succeeded.
use crate::graph_model::{
    accept_model,
    can_accept,
    empty_model,
    enlist_model,
    failed_keys,
    launchable,
    lemma_accept,
    lemma_enlist,
    lemma_link_step,
    lemma_succeed,
    lemma_wake_step,
    link_model,
    linking,
    model_wf,
    nudge_model,
    occurrences,
    register_all_model,
    register_model,
    succeed_model,
    succeeded_count,
    wait_model,
    waiting_on,
    wake_model,
    waking,
    GraphModel,
    TaskModel,
};
use crate::graph_progress::{
    enrolled, knows, lemma_accept_live, lemma_register_live, model_live, stranded, waits,
};
use crate::keyed::{
    duplicate_all, key_views, option_view, position_of, Duplicate, Key, KeyedList,
};
use vstd::pervasive::unreached;
use crate::graph_run::{after, may, Move};
use vstd::prelude::*;

verus! {

/// An operation of the graph.
pub trait GraphIn: Key {
    /// The operations that must succeed before this one may run.
    spec fn spec_dependencies(key: Self::V) -> Seq<Self::V>;

    /// A measure that every dependency has less of than the operation that
    /// declares it: dependencies cannot form a cycle.
    spec fn rank(key: Self::V) -> nat;

    proof fn lemma_dependencies(key: Self::V)
        ensures
            Self::spec_dependencies(key).no_duplicates(),
            forall|i: int|
                0 <= i < Self::spec_dependencies(key).len() ==> Self::rank(
                    #[trigger] Self::spec_dependencies(key)[i],
                ) < Self::rank(key),
    ;

    fn graph_dependencies(&self) -> (dependencies: Vec<Self>)
        ensures
            key_views(dependencies@) == Self::spec_dependencies(self@),
    ;
}

/// The output of an operation.
pub trait GraphOut<TIn: GraphIn>: Duplicate {
    /// The operations that an output calls for.
    spec fn spec_follow_ups(out: Self::V) -> Seq<TIn::V>;

    fn graph_follow_ups(&self) -> (follow_ups: Vec<TIn>)
        ensures
            key_views(follow_ups@) == Self::spec_follow_ups(self@),
    ;
}

/// A store of outputs that are already known, asked before an operation runs.
pub trait GraphCache<TIn: GraphIn, TOut: View>: Sized {
    spec fn spec_cached(&self, key: TIn::V) -> Option<TOut::V>;

    fn graph_cache(&self, value: &TIn) -> (hit: Option<TOut>)
        ensures
            option_view(hit) == self.spec_cached(value@),
    ;
}

/// What a run of the graph produced: the output of every operation that
/// succeeded, and the error of every operation that failed.
pub struct GraphTaskResults<TIn, TOut, TErr> {
    pub success: KeyedList<TIn, TOut>,
    pub failed: Vec<(TIn, TErr)>,
}

impl<TIn: Key, TOut, TErr> GraphTaskResults<TIn, TOut, TErr> {
    pub fn new() -> (results: Self)
        ensures
            results.success.wf(),
            results.success.map() == Map::<TIn::V, TOut>::empty(),
            results.success.entries@.len() == 0,
            results.failed@.len() == 0,
    {
        GraphTaskResults { success: KeyedList::new(), failed: Vec::new() }
    }

    /// The outputs of a run in which nothing failed.
    pub fn unwrap(self) -> (success: KeyedList<TIn, TOut>)
        requires
            self.failed@.len() == 0,
        ensures
            success == self.success,
    {
        self.success
    }

    /// The outputs, or `err` when anything failed.
    pub fn ok_or<E>(self, err: E) -> (r: Result<KeyedList<TIn, TOut>, E>)
        ensures
            self.failed@.len() == 0 ==> r == Ok::<KeyedList<TIn, TOut>, E>(self.success),
            self.failed@.len() > 0 ==> r == Err::<KeyedList<TIn, TOut>, E>(err),
    {
        if self.failed.len() > 0 {
            Err(err)
        } else {
            Ok(self.success)
        }
    }

    /// The outputs, or what `f` makes of the failures when there are any.
    pub fn ok_or_else<E, F: FnOnce(Vec<(TIn, TErr)>) -> E>(self, f: F) -> (r: Result<
        KeyedList<TIn, TOut>,
        E,
    >)
        requires
            self.failed@.len() > 0 ==> f.requires((self.failed,)),
        ensures
            self.failed@.len() == 0 ==> r == Ok::<KeyedList<TIn, TOut>, E>(self.success),
            self.failed@.len() > 0 ==> r is Err && f.ensures((self.failed,), r->Err_0),
    {
        if self.failed.len() > 0 {
            Err(f(self.failed))
        } else {
            Ok(self.success)
        }
    }
}

/// A registered operation's bookkeeping.
pub struct Task<TIn> {
    pub resolved: usize,
    pub dependencies: Vec<TIn>,
}

pub open spec fn task_model<TIn: View>(t: Task<TIn>) -> TaskModel<TIn::V> {
    TaskModel { resolved: t.resolved as nat, dependencies: key_views(t.dependencies@) }
}

/// What the engine asks of its driver next.
pub enum Step<TIn, TOut> {
    /// Run this operation, with the outputs of its dependencies in the order
    /// it declares them, and report back with `complete`.
    Launch { op: TIn, dependencies: Vec<TOut> },
    /// The cache knew the output of this operation; it has been accepted.
    Served { op: TIn },
    /// Nothing is ready, or as many operations are in flight as may be.
    Idle,
}

/// How many operations may be in flight at once unless the driver says
/// otherwise.
pub const CONCURRENCY_CAP: usize = 100;

/// The engine. It owns the state of one run; the driver registers the roots,
/// then alternates `step` and `complete` until `is_done`.
pub struct GraphTasks<TIn, TOut, TErr, TCache> {
    pub cache: TCache,
    pub limit: usize,
    pub ready: Vec<TIn>,
    pub running: Vec<TIn>,
    pub results: GraphTaskResults<TIn, TOut, TErr>,
    pub tasks: KeyedList<TIn, Task<TIn>>,
    pub dependents: KeyedList<TIn, Vec<TIn>>,
}

impl<TIn: GraphIn, TOut: GraphOut<TIn>, TErr, TCache: GraphCache<TIn, TOut>> View for GraphTasks<
    TIn,
    TOut,
    TErr,
    TCache,
> {
    type V = GraphModel<TIn::V, TOut::V, TErr>;

    open spec fn view(&self) -> GraphModel<TIn::V, TOut::V, TErr> {
        GraphModel {
            tasks: self.tasks.map().map_values(|t: Task<TIn>| task_model(t)),
            dependents: self.dependents.map().map_values(|d: Vec<TIn>| key_views(d@)),
            ready: key_views(self.ready@),
            running: key_views(self.running@),
            success: self.results.success.map().map_values(|o: TOut| o@),
            failed: self.results.failed@.map_values(|f: (TIn, TErr)| (f.0@, f.1)),
        }
    }
}

/// `m` with the top of the ready stack taken off.
pub open spec fn popped_model<K, O, E>(m: GraphModel<K, O, E>) -> GraphModel<K, O, E> {
    GraphModel { ready: m.ready.drop_last(), ..m }
}

/// `m` with `k` no longer in flight.
pub open spec fn landed_model<K, O, E>(m: GraphModel<K, O, E>, k: K) -> GraphModel<K, O, E> {
    GraphModel { running: m.running.remove(m.running.index_of(k)), ..m }
}

pub proof fn lemma_pop_keeps<TIn: GraphIn, O, E>(m: GraphModel<TIn::V, O, E>)
    requires
        model_wf::<TIn, O, E>(m),
        m.ready.len() > 0,
    ensures
        model_wf::<TIn, O, E>(popped_model(m)),
        can_accept::<TIn, O, E>(popped_model(m), m.ready.last()),
        !failed_keys(m.failed).contains(m.ready.last()),
{
    let p = popped_model(m);
    let k = m.ready.last();
    assert(launchable::<TIn, O, E>(m, m.ready[m.ready.len() - 1]));
    assert forall|i: int| 0 <= i < p.ready.len() implies launchable::<TIn, O, E>(
        p,
        #[trigger] p.ready[i],
    ) && !p.success.contains_key(p.ready[i]) && !p.running.contains(p.ready[i]) && !failed_keys(
        p.failed,
    ).contains(p.ready[i]) && p.ready[i] != k by {
        assert(p.ready[i] == m.ready[i]);
        assert(launchable::<TIn, O, E>(m, m.ready[i]));
    }
    assert forall|i: int| 0 <= i < p.running.len() implies launchable::<TIn, O, E>(
        p,
        #[trigger] p.running[i],
    ) by {
        assert(launchable::<TIn, O, E>(m, m.running[i]));
    }
    assert forall|x: TIn::V| #[trigger] p.success.contains_key(x) implies launchable::<TIn, O, E>(
        p,
        x,
    ) by {
        assert(launchable::<TIn, O, E>(m, x));
    }
    assert forall|i: int| 0 <= i < p.failed.len() implies launchable::<TIn, O, E>(
        p,
        #[trigger] p.failed[i].0,
    ) by {
        assert(launchable::<TIn, O, E>(m, m.failed[i].0));
    }
    assert(crate::graph_model::tasks_wf::<TIn, O, E>(p));
    assert(crate::graph_model::dependents_wf::<TIn, O, E>(p));
}

pub proof fn lemma_takeoff_keeps<TIn: GraphIn, O, E>(m: GraphModel<TIn::V, O, E>)
    requires
        model_wf::<TIn, O, E>(m),
        m.ready.len() > 0,
    ensures
        model_wf::<TIn, O, E>(
            GraphModel { running: m.running.push(m.ready.last()), ..popped_model(m) },
        ),
{
    let k = m.ready.last();
    lemma_pop_keeps::<TIn, O, E>(m);
    let p = popped_model(m);
    let q = GraphModel { running: m.running.push(k), ..p };
    assert(q.running.no_duplicates()) by {
        assert forall|a: int, b: int|
            0 <= a < q.running.len() && 0 <= b < q.running.len() && a != b implies q.running[a]
            != q.running[b] by {
            if a < m.running.len() {
                assert(q.running[a] == m.running[a]);
            }
            if b < m.running.len() {
                assert(q.running[b] == m.running[b]);
            }
        }
    }
    assert forall|i: int| 0 <= i < q.ready.len() implies launchable::<TIn, O, E>(
        q,
        #[trigger] q.ready[i],
    ) && !q.success.contains_key(q.ready[i]) && !q.running.contains(q.ready[i]) && !failed_keys(
        q.failed,
    ).contains(q.ready[i]) by {
        assert(q.ready[i] == m.ready[i]);
        assert(launchable::<TIn, O, E>(p, p.ready[i]));
        if q.running.contains(q.ready[i]) {
            let a = choose|a: int| 0 <= a < q.running.len() && q.running[a] == q.ready[i];
            if a < m.running.len() {
                assert(m.running[a] == q.ready[i]);
            }
        }
    }
    assert forall|i: int| 0 <= i < q.running.len() implies launchable::<TIn, O, E>(
        q,
        #[trigger] q.running[i],
    ) && !q.success.contains_key(q.running[i]) && !failed_keys(q.failed).contains(
        q.running[i],
    ) by {
        if i < m.running.len() {
            assert(q.running[i] == m.running[i]);
            assert(launchable::<TIn, O, E>(p, p.running[i]));
        }
    }
    assert forall|x: TIn::V| #[trigger] q.success.contains_key(x) implies launchable::<TIn, O, E>(
        q,
        x,
    ) by {
        assert(launchable::<TIn, O, E>(p, x));
    }
    assert forall|i: int| 0 <= i < q.failed.len() implies launchable::<TIn, O, E>(
        q,
        #[trigger] q.failed[i].0,
    ) by {
        assert(launchable::<TIn, O, E>(p, p.failed[i].0));
    }
    assert(crate::graph_model::tasks_wf::<TIn, O, E>(q));
    assert(crate::graph_model::dependents_wf::<TIn, O, E>(q));
}

pub proof fn lemma_land_keeps<TIn: GraphIn, O, E>(m: GraphModel<TIn::V, O, E>, k: TIn::V, i: int)
    requires
        model_wf::<TIn, O, E>(m),
        0 <= i < m.running.len(),
        m.running[i] == k,
    ensures
        m.running.index_of(k) == i,
        model_wf::<TIn, O, E>(landed_model(m, k)),
        can_accept::<TIn, O, E>(landed_model(m, k), k),
        !failed_keys(m.failed).contains(k),
        !landed_model(m, k).running.contains(k),
{
    let j = m.running.index_of(k);
    assert(m.running[j] == k);
    let p = landed_model(m, k);
    assert(launchable::<TIn, O, E>(m, m.running[i]));
    assert forall|a: int| 0 <= a < p.running.len() implies launchable::<TIn, O, E>(
        p,
        #[trigger] p.running[a],
    ) && !p.success.contains_key(p.running[a]) && !failed_keys(p.failed).contains(p.running[a])
        && p.running[a] != k by {
        let b = if a < i {
            a
        } else {
            a + 1
        };
        assert(p.running[a] == m.running[b]);
        assert(launchable::<TIn, O, E>(m, m.running[b]));
    }
    assert(p.running.no_duplicates()) by {
        assert forall|a: int, b: int|
            0 <= a < p.running.len() && 0 <= b < p.running.len() && a != b implies p.running[a]
            != p.running[b] by {
            let a1 = if a < i {
                a
            } else {
                a + 1
            };
            let b1 = if b < i {
                b
            } else {
                b + 1
            };
            assert(p.running[a] == m.running[a1]);
            assert(p.running[b] == m.running[b1]);
        }
    }
    assert forall|a: int| 0 <= a < p.ready.len() implies launchable::<TIn, O, E>(
        p,
        #[trigger] p.ready[a],
    ) && !p.success.contains_key(p.ready[a]) && !p.running.contains(p.ready[a]) && !failed_keys(
        p.failed,
    ).contains(p.ready[a]) && p.ready[a] != k by {
        assert(launchable::<TIn, O, E>(m, m.ready[a]));
        assert(!m.running.contains(m.ready[a]));
        if p.running.contains(p.ready[a]) {
            let c = choose|c: int| 0 <= c < p.running.len() && p.running[c] == p.ready[a];
            let c1 = if c < i {
                c
            } else {
                c + 1
            };
            assert(m.running[c1] == p.ready[a]);
        }
    }
    assert forall|x: TIn::V| #[trigger] p.success.contains_key(x) implies launchable::<TIn, O, E>(
        p,
        x,
    ) by {
        assert(launchable::<TIn, O, E>(m, x));
    }
    assert forall|a: int| 0 <= a < p.failed.len() implies launchable::<TIn, O, E>(
        p,
        #[trigger] p.failed[a].0,
    ) by {
        assert(launchable::<TIn, O, E>(m, m.failed[a].0));
    }
    assert(crate::graph_model::tasks_wf::<TIn, O, E>(p));
    assert(crate::graph_model::dependents_wf::<TIn, O, E>(p));
}

pub proof fn lemma_fail_keeps<TIn: GraphIn, O, E>(m: GraphModel<TIn::V, O, E>, k: TIn::V, e: E)
    requires
        model_wf::<TIn, O, E>(m),
        can_accept::<TIn, O, E>(m, k),
    ensures
        model_wf::<TIn, O, E>(GraphModel { failed: m.failed.push((k, e)), ..m }),
{
    let q = GraphModel { failed: m.failed.push((k, e)), ..m };
    assert forall|x: TIn::V| failed_keys(q.failed).contains(x) implies failed_keys(
        m.failed,
    ).contains(x) || x == k by {
        let a = choose|a: int| 0 <= a < failed_keys(q.failed).len() && failed_keys(q.failed)[a] == x;
        if a < m.failed.len() {
            assert(failed_keys(m.failed)[a] == x);
        }
    }
    assert forall|i: int| 0 <= i < q.ready.len() implies launchable::<TIn, O, E>(
        q,
        #[trigger] q.ready[i],
    ) && !failed_keys(q.failed).contains(q.ready[i]) by {
        assert(launchable::<TIn, O, E>(m, m.ready[i]));
    }
    assert forall|i: int| 0 <= i < q.running.len() implies launchable::<TIn, O, E>(
        q,
        #[trigger] q.running[i],
    ) && !failed_keys(q.failed).contains(q.running[i]) by {
        assert(launchable::<TIn, O, E>(m, m.running[i]));
    }
    assert forall|x: TIn::V| #[trigger] q.success.contains_key(x) implies launchable::<TIn, O, E>(
        q,
        x,
    ) by {
        assert(launchable::<TIn, O, E>(m, x));
    }
    assert forall|i: int| 0 <= i < q.failed.len() implies launchable::<TIn, O, E>(
        q,
        #[trigger] q.failed[i].0,
    ) && !q.success.contains_key(q.failed[i].0) by {
        if i < m.failed.len() {
            assert(launchable::<TIn, O, E>(m, m.failed[i].0));
        }
    }
    assert(failed_keys(q.failed).no_duplicates()) by {
        assert forall|a: int, b: int|
            0 <= a < q.failed.len() && 0 <= b < q.failed.len() && a != b implies failed_keys(
            q.failed,
        )[a] != failed_keys(q.failed)[b] by {
            if a < m.failed.len() {
                assert(failed_keys(m.failed)[a] == q.failed[a].0);
            }
            if b < m.failed.len() {
                assert(failed_keys(m.failed)[b] == q.failed[b].0);
            }
        }
    }
    assert(crate::graph_model::tasks_wf::<TIn, O, E>(q));
    assert(crate::graph_model::dependents_wf::<TIn, O, E>(q));
}

proof fn lemma_pop_live<TIn: GraphIn, O, E>(m: GraphModel<TIn::V, O, E>)
    requires
        model_wf::<TIn, O, E>(m),
        model_live::<TIn, O, E>(m, Set::empty(), Set::empty()),
        m.ready.len() > 0,
    ensures
        model_live::<TIn, O, E>(popped_model(m), Set::empty(), set![m.ready.last()]),
{
    let p = popped_model(m);
    let k = m.ready.last();
    assert forall|x: TIn::V| #[trigger]
        p.tasks.contains_key(x) && p.tasks[x].resolved == p.tasks[x].dependencies.len() && x
            != k implies enrolled(p, x) by {
        assert(enrolled(m, x));
        if m.ready.contains(x) {
            let i = choose|i: int| 0 <= i < m.ready.len() && m.ready[i] == x;
            assert(p.ready[i] == x);
        }
    }
    assert forall|x: TIn::V, j: int|
        p.tasks.contains_key(x) && 0 <= j < TIn::spec_dependencies(x).len()
            && !p.success.contains_key(
            TIn::spec_dependencies(x)[j],
        ) implies #[trigger] waits::<TIn, O, E>(p, x, j) by {
        assert(waits::<TIn, O, E>(m, x, j));
    }
    assert forall|x: TIn::V, j: int|
        p.tasks.contains_key(x) && 0 <= j < TIn::spec_dependencies(
            x,
        ).len() implies #[trigger] knows::<TIn, O, E>(p, x, j) by {
        assert(knows::<TIn, O, E>(m, x, j));
    }
}

proof fn lemma_takeoff_live<TIn: GraphIn, O, E>(m: GraphModel<TIn::V, O, E>)
    requires
        model_wf::<TIn, O, E>(m),
        model_live::<TIn, O, E>(m, Set::empty(), Set::empty()),
        m.ready.len() > 0,
    ensures
        model_live::<TIn, O, E>(
            GraphModel { running: m.running.push(m.ready.last()), ..popped_model(m) },
            Set::empty(),
            Set::empty(),
        ),
{
    let k = m.ready.last();
    let q = GraphModel { running: m.running.push(k), ..popped_model(m) };
    assert(q.running[m.running.len() as int] == k);
    assert forall|x: TIn::V| #[trigger]
        q.tasks.contains_key(x) && q.tasks[x].resolved
            == q.tasks[x].dependencies.len() implies enrolled(q, x) by {
        assert(enrolled(m, x));
        if m.ready.contains(x) && x != k {
            let i = choose|i: int| 0 <= i < m.ready.len() && m.ready[i] == x;
            assert(q.ready[i] == x);
        }
        if m.running.contains(x) {
            let i = choose|i: int| 0 <= i < m.running.len() && m.running[i] == x;
            assert(q.running[i] == x);
        }
    }
    assert forall|x: TIn::V, j: int|
        q.tasks.contains_key(x) && 0 <= j < TIn::spec_dependencies(x).len()
            && !q.success.contains_key(
            TIn::spec_dependencies(x)[j],
        ) implies #[trigger] waits::<TIn, O, E>(q, x, j) by {
        assert(waits::<TIn, O, E>(m, x, j));
    }
    assert forall|x: TIn::V, j: int|
        q.tasks.contains_key(x) && 0 <= j < TIn::spec_dependencies(
            x,
        ).len() implies #[trigger] knows::<TIn, O, E>(q, x, j) by {
        assert(knows::<TIn, O, E>(m, x, j));
    }
}

proof fn lemma_land_live<TIn: GraphIn, O, E>(m: GraphModel<TIn::V, O, E>, k: TIn::V, i: int)
    requires
        model_wf::<TIn, O, E>(m),
        model_live::<TIn, O, E>(m, Set::empty(), Set::empty()),
        0 <= i < m.running.len(),
        m.running[i] == k,
    ensures
        model_live::<TIn, O, E>(landed_model(m, k), Set::empty(), set![k]),
{
    let p = landed_model(m, k);
    let at = m.running.index_of(k);
    assert(m.running[at] == k);
    assert forall|x: TIn::V| #[trigger]
        p.tasks.contains_key(x) && p.tasks[x].resolved == p.tasks[x].dependencies.len() && x
            != k implies enrolled(p, x) by {
        assert(enrolled(m, x));
        if m.running.contains(x) {
            let j = choose|j: int| 0 <= j < m.running.len() && m.running[j] == x;
            let j1 = if j < at {
                j
            } else {
                j - 1
            };
            assert(p.running[j1] == x);
        }
    }
    assert forall|x: TIn::V, j: int|
        p.tasks.contains_key(x) && 0 <= j < TIn::spec_dependencies(x).len()
            && !p.success.contains_key(
            TIn::spec_dependencies(x)[j],
        ) implies #[trigger] waits::<TIn, O, E>(p, x, j) by {
        assert(waits::<TIn, O, E>(m, x, j));
    }
    assert forall|x: TIn::V, j: int|
        p.tasks.contains_key(x) && 0 <= j < TIn::spec_dependencies(
            x,
        ).len() implies #[trigger] knows::<TIn, O, E>(p, x, j) by {
        assert(knows::<TIn, O, E>(m, x, j));
    }
}

proof fn lemma_fail_live<TIn: GraphIn, O, E>(m: GraphModel<TIn::V, O, E>, k: TIn::V, e: E)
    requires
        model_live::<TIn, O, E>(m, Set::empty(), set![k]),
    ensures
        model_live::<TIn, O, E>(
            GraphModel { failed: m.failed.push((k, e)), ..m },
            Set::empty(),
            Set::empty(),
        ),
{
    let q = GraphModel { failed: m.failed.push((k, e)), ..m };
    assert(failed_keys(q.failed)[m.failed.len() as int] == k);
    assert forall|x: TIn::V| #[trigger]
        q.tasks.contains_key(x) && q.tasks[x].resolved
            == q.tasks[x].dependencies.len() implies enrolled(q, x) by {
        if x != k {
            assert(enrolled(m, x));
            if failed_keys(m.failed).contains(x) {
                let j = choose|j: int|
                    0 <= j < failed_keys(m.failed).len() && failed_keys(m.failed)[j] == x;
                assert(failed_keys(q.failed)[j] == x);
            }
        }
    }
    assert forall|x: TIn::V, j: int|
        q.tasks.contains_key(x) && 0 <= j < TIn::spec_dependencies(x).len()
            && !q.success.contains_key(
            TIn::spec_dependencies(x)[j],
        ) implies #[trigger] waits::<TIn, O, E>(q, x, j) by {
        assert(waits::<TIn, O, E>(m, x, j));
    }
    assert forall|x: TIn::V, j: int|
        q.tasks.contains_key(x) && 0 <= j < TIn::spec_dependencies(
            x,
        ).len() implies #[trigger] knows::<TIn, O, E>(q, x, j) by {
        assert(knows::<TIn, O, E>(m, x, j));
    }
}

impl<TIn: GraphIn, TOut: GraphOut<TIn>, TErr, TCache: GraphCache<TIn, TOut>> GraphTasks<
    TIn,
    TOut,
    TErr,
    TCache,
> {
    /// What holds at every moment, also in the middle of registering: no
    /// key twice in any of the maps, and whatever is ready, in flight or
    /// finished had its dependencies succeed first.
    pub open spec fn inv(&self) -> bool {
        &&& self.tasks.wf()
        &&& self.dependents.wf()
        &&& self.results.success.wf()
        &&& model_wf::<TIn, TOut::V, TErr>(self@)
    }

    /// The invariant between two calls: besides `inv`, nothing is
    /// forgotten. Every task has counted its successes exactly, waits
    /// on whatever it still depends on, and is ready, in flight or finished
    /// once it waits no more.
    pub open spec fn wf(&self) -> bool {
        self.inv() && model_live::<TIn, TOut::V, TErr>(self@, Set::empty(), Set::empty())
    }

    /// Cache and cap are as in `other`.
    pub open spec fn same_setup(&self, other: &Self) -> bool {
        self.cache == other.cache && self.limit == other.limit
    }

    pub fn new(cache: TCache) -> (graph: Self)
        ensures
            graph.wf(),
            graph@ == empty_model::<TIn::V, TOut::V, TErr>(),
            graph.cache == cache,
            graph.limit == CONCURRENCY_CAP,
    {
        let graph = GraphTasks {
            cache,
            limit: CONCURRENCY_CAP,
            ready: Vec::new(),
            running: Vec::new(),
            results: GraphTaskResults::new(),
            tasks: KeyedList::new(),
            dependents: KeyedList::new(),
        };
        proof {
            let e = empty_model::<TIn::V, TOut::V, TErr>();
            assert(graph@.tasks =~= e.tasks);
            assert(graph@.dependents =~= e.dependents);
            assert(graph@.success =~= e.success);
            assert(graph@.ready =~= e.ready);
            assert(graph@.running =~= e.running);
            assert(graph@.failed =~= e.failed);
        }
        graph
    }

    /// Sets how many operations may be in flight at once.
    pub fn with_limit(self, limit: usize) -> (graph: Self)
        ensures
            graph@ == self@,
            graph.wf() == self.wf(),
            graph.cache == self.cache,
            graph.limit == limit,
    {
        let mut graph = self;
        graph.limit = limit;
        graph
    }

    fn count_succeeded(&self, deps: &Vec<TIn>) -> (n: usize)
        ensures
            n == succeeded_count(key_views(deps@), self@.success),
    {
        let mut n: usize = 0;
        let mut i: usize = 0;
        assert(key_views(deps@).take(0) =~= Seq::empty());
        while i < deps.len()
            invariant
                i <= deps.len(),
                n <= i,
                n == succeeded_count(key_views(deps@).take(i as int), self@.success),
            decreases deps.len() - i,
        {
            let ghost next = key_views(deps@).take(i + 1);
            assert(next.drop_last() =~= key_views(deps@).take(i as int));
            assert(next.last() == deps@[i as int]@);
            if self.results.success.contains(&deps[i]) {
                n += 1;
            }
            i += 1;
        }
        assert(key_views(deps@).take(deps.len() as int) =~= key_views(deps@));
        n
    }

    fn add_dependent(&mut self, dependency: &TIn, op: TIn)
        requires
            old(self).dependents.wf(),
        ensures
            final(self).dependents.wf(),
            final(self)@ == wait_model(old(self)@, dependency@, op@),
            final(self).same_setup(old(self)),
            final(self).tasks == old(self).tasks,
            final(self).results == old(self).results,
    {
        let ghost m = self@;
        let waiting = self.dependents.remove(dependency);
        let mut list: Vec<TIn> = match waiting {
            Some(list) => list,
            None => Vec::new(),
        };
        assert(key_views(list@) =~= waiting_on(m, dependency@));
        list.push(op);
        assert(key_views(list@) =~= waiting_on(m, dependency@).push(op@));
        self.dependents.insert(dependency.duplicate(), list);
        assert(self@.dependents =~= wait_model(m, dependency@, op@).dependents);
    }

    /// Makes `op` known to the graph, and with it whatever it depends on.
    /// Registering a known operation changes nothing.
    pub fn register(&mut self, op: TIn)
        requires
            old(self).wf(),
        ensures
            final(self).wf(),
            final(self)@ == register_model::<TIn, TOut::V, TErr>(old(self)@, op@),
            final(self).same_setup(old(self)),
    {
        proof {
            lemma_register_live::<TIn, TOut::V, TErr>(self@, op@, Set::empty(), Set::empty());
        }
        self.enroll(op);
    }

    fn enroll(&mut self, op: TIn)
        requires
            old(self).inv(),
        ensures
            final(self).inv(),
            final(self)@ == register_model::<TIn, TOut::V, TErr>(old(self)@, op@),
            final(self).same_setup(old(self)),
        decreases TIn::rank(op@),
    {
        let ghost m = self@;
        if self.tasks.contains(&op) {
            return ;
        }
        let deps = op.graph_dependencies();
        let resolved = self.count_succeeded(&deps);
        if resolved == deps.len() {
            self.ready.push(op.duplicate());
        }
        let task = Task { resolved, dependencies: duplicate_all(&deps) };
        self.tasks.insert(op.duplicate(), task);
        proof {
            let m1 = enlist_model::<TIn, TOut::V, TErr>(m, op@);
            assert(self@.tasks =~= m1.tasks);
            assert(self@.ready =~= m1.ready);
            assert(self@ == m1);
            lemma_enlist::<TIn, TOut::V, TErr>(m, op@);
        }
        let mut i: usize = 0;
        while i < deps.len()
            invariant
                i <= deps.len(),
                key_views(deps@) == TIn::spec_dependencies(op@),
                self.tasks.wf(),
                self.dependents.wf(),
                self.results.success.wf(),
                linking::<TIn, TOut::V, TErr>(self@, op@, i as nat),
                link_model::<TIn, TOut::V, TErr>(self@, op@, i as nat) == register_model::<
                    TIn,
                    TOut::V,
                    TErr,
                >(m, op@),
                self.same_setup(old(self)),
            decreases deps.len() - i,
        {
            proof {
                lemma_link_step::<TIn, TOut::V, TErr>(self@, op@, i as nat);
            }
            self.add_dependent(&deps[i], op.duplicate());
            self.enroll(deps[i].duplicate());
            i += 1;
        }
    }

    fn count_occurrences(deps: &Vec<TIn>, op: &TIn) -> (n: usize)
        ensures
            n == occurrences(key_views(deps@), op@),
    {
        let mut n: usize = 0;
        let mut i: usize = 0;
        assert(key_views(deps@).take(0) =~= Seq::empty());
        while i < deps.len()
            invariant
                i <= deps.len(),
                n <= i,
                n == occurrences(key_views(deps@).take(i as int), op@),
            decreases deps.len() - i,
        {
            let ghost next = key_views(deps@).take(i + 1);
            assert(next.drop_last() =~= key_views(deps@).take(i as int));
            assert(next.last() == deps@[i as int]@);
            if deps[i].same(op) {
                n += 1;
            }
            i += 1;
        }
        assert(key_views(deps@).take(deps.len() as int) =~= key_views(deps@));
        n
    }

    fn nudge(&mut self, op: &TIn, waiting: &TIn)
        requires
            old(self).tasks.wf(),
            old(self)@.tasks.contains_key(waiting@),
            old(self)@.tasks[waiting@].resolved + occurrences(
                old(self)@.tasks[waiting@].dependencies,
                op@,
            ) <= old(self)@.tasks[waiting@].dependencies.len(),
        ensures
            final(self).tasks.wf(),
            final(self)@ == nudge_model(old(self)@, op@, waiting@),
            final(self).same_setup(old(self)),
            final(self).dependents == old(self).dependents,
            final(self).results == old(self).results,
    {
        let ghost m = self@;
        let ghost known = self.tasks.map();
        match self.tasks.remove(waiting) {
            Some(task) => {
                assert(known.contains_key(waiting@));
                assert(m.tasks[waiting@] == task_model(known[waiting@]));
                let count = Self::count_occurrences(&task.dependencies, op);
                assert(key_views(task.dependencies@).len() == task.dependencies.len());
                let resolved = task.resolved + count;
                if resolved == task.dependencies.len() {
                    self.ready.push(waiting.duplicate());
                }
                self.tasks.insert(
                    waiting.duplicate(),
                    Task { resolved, dependencies: task.dependencies },
                );
                proof {
                    let m1 = nudge_model(m, op@, waiting@);
                    assert(self@.tasks =~= m1.tasks);
                    assert(self@.ready =~= m1.ready);
                }
            },
            None => {},
        }
    }

    /// Records that `op` succeeded with `out`, wakes the operations that
    /// waited on it, and registers what `out` calls for.
    pub fn accept(&mut self, op: TIn, out: TOut)
        requires
            old(self).inv(),
            can_accept::<TIn, TOut::V, TErr>(old(self)@, op@),
            model_live::<TIn, TOut::V, TErr>(old(self)@, Set::empty(), set![op@]),
        ensures
            final(self).wf(),
            final(self)@ == accept_model::<TIn, TOut::V, TErr>(
                old(self)@,
                op@,
                out@,
                TOut::spec_follow_ups(out@),
            ),
            final(self).same_setup(old(self)),
        decreases 0nat,
    {
        let ghost m = self@;
        let ghost o = out@;
        proof {
            lemma_accept_live::<TIn, TOut::V, TErr>(m, op@, o, TOut::spec_follow_ups(o));
        }
        let follow_ups = out.graph_follow_ups();
        let waiting = self.dependents.remove(&op);
        self.results.success.insert(op.duplicate(), out);
        let list: Vec<TIn> = match waiting {
            Some(list) => list,
            None => Vec::new(),
        };
        proof {
            let m1 = succeed_model(m, op@, o);
            assert(key_views(list@) =~= waiting_on(m, op@));
            assert(self@.success =~= m1.success);
            assert(self@.dependents =~= m1.dependents);
            assert(self@ == m1);
            lemma_succeed::<TIn, TOut::V, TErr>(m, op@, o);
        }
        let mut i: usize = 0;
        while i < list.len()
            invariant
                i <= list.len(),
                self.tasks.wf(),
                self.dependents.wf(),
                self.results.success.wf(),
                waking::<TIn, TOut::V, TErr>(self@, op@, key_views(list@), i as nat),
                wake_model(self@, op@, key_views(list@), i as nat) == wake_model(
                    succeed_model(m, op@, o),
                    op@,
                    waiting_on(m, op@),
                    0,
                ),
                self.same_setup(old(self)),
            decreases list.len() - i,
        {
            proof {
                lemma_wake_step::<TIn, TOut::V, TErr>(self@, op@, key_views(list@), i as nat);
            }
            self.nudge(&op, &list[i]);
            i += 1;
        }
        let ghost m2 = self@;
        let mut j: usize = 0;
        while j < follow_ups.len()
            invariant
                j <= follow_ups.len(),
                self.inv(),
                key_views(follow_ups@) == TOut::spec_follow_ups(o),
                register_all_model::<TIn, TOut::V, TErr>(
                    self@,
                    key_views(follow_ups@),
                    j as nat,
                ) == register_all_model::<TIn, TOut::V, TErr>(m2, key_views(follow_ups@), 0),
                self.same_setup(old(self)),
            decreases follow_ups.len() - j,
        {
            self.enroll(follow_ups[j].duplicate());
            j += 1;
        }
    }

    fn outputs_of(&self, op: &TIn) -> (outputs: Vec<TOut>)
        requires
            self.inv(),
            launchable::<TIn, TOut::V, TErr>(self@, op@),
        ensures
            key_views(outputs@) == TIn::spec_dependencies(op@).map_values(
                |d: TIn::V| self@.success[d],
            ),
    {
        let ghost deps = TIn::spec_dependencies(op@);
        let ghost wanted = deps.map_values(|d: TIn::V| self@.success[d]);
        let mut outputs: Vec<TOut> = Vec::new();
        match self.tasks.get(op) {
            Some(task) => {
                assert(self@.tasks[op@] == task_model(*task));
                assert(key_views(task.dependencies@) == deps);
                let mut i: usize = 0;
                while i < task.dependencies.len()
                    invariant
                        i <= task.dependencies.len(),
                        self.inv(),
                        key_views(task.dependencies@) == deps,
                        forall|j: int| 0 <= j < deps.len() ==> self@.success.contains_key(#[trigger] deps[j]),
                        wanted == deps.map_values(|d: TIn::V| self@.success[d]),
                        outputs.len() == i,
                        forall|j: int| 0 <= j < i ==> outputs@[j]@ == wanted[j],
                    decreases task.dependencies.len() - i,
                {
                    assert(deps[i as int] == task.dependencies@[i as int]@);
                    assert(self@.success.contains_key(deps[i as int]));
                    match self.results.success.get(&task.dependencies[i]) {
                        Some(out) => {
                            outputs.push(out.duplicate());
                        },
                        None => unreached(),
                    }
                    i += 1;
                }
                assert(key_views(outputs@) =~= wanted);
                outputs
            },
            None => unreached(),
        }
    }

    /// The next thing to do. The operation on top of the ready stack is taken
    /// off, as long as the cap on flights allows: the cache is asked first,
    /// and only an operation it does not know is handed out to be run.
    pub fn step(&mut self) -> (next: Step<TIn, TOut>)
        requires
            old(self).wf(),
        ensures
            final(self).wf(),
            final(self).same_setup(old(self)),
            match next {
                Step::Idle => {
                    &&& final(self)@ == old(self)@
                    &&& (old(self)@.ready.len() == 0 || old(self)@.running.len() >= old(
                        self,
                    ).limit)
                },
                Step::Served { op } => {
                    &&& old(self)@.ready.len() > 0
                    &&& old(self)@.running.len() < old(self).limit
                    &&& op@ == old(self)@.ready.last()
                    &&& old(self).cache.spec_cached(op@) is Some
                    &&& final(self)@ == accept_model::<TIn, TOut::V, TErr>(
                        popped_model(old(self)@),
                        op@,
                        old(self).cache.spec_cached(op@)->0,
                        TOut::spec_follow_ups(old(self).cache.spec_cached(op@)->0),
                    )
                },
                Step::Launch { op, dependencies } => {
                    &&& old(self)@.ready.len() > 0
                    &&& old(self)@.running.len() < old(self).limit
                    &&& op@ == old(self)@.ready.last()
                    &&& old(self).cache.spec_cached(op@) is None
                    &&& final(self)@ == GraphModel {
                        running: old(self)@.running.push(op@),
                        ..popped_model(old(self)@)
                    }
                    &&& launchable::<TIn, TOut::V, TErr>(old(self)@, op@)
                    &&& key_views(dependencies@) == TIn::spec_dependencies(op@).map_values(
                        |d: TIn::V| old(self)@.success[d],
                    )
                },
            },
            // said as a move of a run
            next matches Step::Served { .. } ==> may::<TIn, TOut, TErr, TCache>(
                old(self).cache,
                old(self).limit as nat,
                old(self)@,
                Move::Serve,
            ) && final(self)@ == after::<TIn, TOut, TErr, TCache>(
                old(self).cache,
                old(self)@,
                Move::Serve,
            ),
            next matches Step::Launch { .. } ==> may::<TIn, TOut, TErr, TCache>(
                old(self).cache,
                old(self).limit as nat,
                old(self)@,
                Move::Launch,
            ) && final(self)@ == after::<TIn, TOut, TErr, TCache>(
                old(self).cache,
                old(self)@,
                Move::Launch,
            ),
    {
        let ghost m = self@;
        if self.running.len() >= self.limit {
            return Step::Idle;
        }
        match self.ready.pop() {
            None => Step::Idle,
            Some(op) => {
                proof {
                    assert(self@.ready =~= m.ready.drop_last());
                    assert(op@ == m.ready.last());
                    assert(self@ == popped_model(m));
                    lemma_pop_keeps::<TIn, TOut::V, TErr>(m);
                    lemma_pop_live::<TIn, TOut::V, TErr>(m);
                }
                match self.cache.graph_cache(&op) {
                    Some(out) => {
                        self.accept(op.duplicate(), out);
                        proof {
                            lemma_accept::<TIn, TOut::V, TErr>(
                                popped_model(m),
                                op@,
                                out@,
                                TOut::spec_follow_ups(out@),
                            );
                        }
                        Step::Served { op }
                    },
                    None => {
                        let dependencies = self.outputs_of(&op);
                        self.running.push(op.duplicate());
                        proof {
                            assert(self@.running =~= m.running.push(op@));
                            lemma_takeoff_keeps::<TIn, TOut::V, TErr>(m);
                            lemma_takeoff_live::<TIn, TOut::V, TErr>(m);
                            assert(launchable::<TIn, TOut::V, TErr>(m, m.ready[m.ready.len() - 1]));
                        }
                        Step::Launch { op, dependencies }
                    },
                }
            },
        }
    }

    /// Reports the end of a flight. An operation that is not in flight is
    /// refused and nothing changes; otherwise a success is accepted, and a
    /// failure is put on the failed list, where it wakes nobody.
    pub fn complete(&mut self, op: TIn, result: Result<TOut, TErr>) -> (known: bool)
        requires
            old(self).wf(),
        ensures
            final(self).wf(),
            final(self).same_setup(old(self)),
            known == old(self)@.running.contains(op@),
            !known ==> final(self)@ == old(self)@,
            known ==> match result {
                Ok(out) => final(self)@ == accept_model::<TIn, TOut::V, TErr>(
                    landed_model(old(self)@, op@),
                    op@,
                    out@,
                    TOut::spec_follow_ups(out@),
                ),
                Err(err) => final(self)@ == GraphModel {
                    failed: old(self)@.failed.push((op@, err)),
                    ..landed_model(old(self)@, op@)
                },
            },
            // said as a move of a run
            known ==> final(self)@ == after::<TIn, TOut, TErr, TCache>(
                old(self).cache,
                old(self)@,
                match result {
                    Ok(out) => Move::Succeed { op: op@, output: out@ },
                    Err(err) => Move::Fail { op: op@, error: err },
                },
            ),
    {
        let ghost m = self@;
        match position_of(&self.running, &op) {
            None => false,
            Some(i) => {
                self.running.remove(i);
                proof {
                    lemma_land_keeps::<TIn, TOut::V, TErr>(m, op@, i as int);
                    assert(self@.running =~= m.running.remove(i as int));
                    assert(self@ == landed_model(m, op@));
                    lemma_land_live::<TIn, TOut::V, TErr>(m, op@, i as int);
                }
                match result {
                    Ok(out) => {
                        self.accept(op, out);
                    },
                    Err(err) => {
                        proof {
                            lemma_fail_keeps::<TIn, TOut::V, TErr>(self@, op@, err);
                            lemma_fail_live::<TIn, TOut::V, TErr>(self@, op@, err);
                        }
                        let ghost before = self@;
                        self.results.failed.push((op, err));
                        assert(self@.failed =~= before.failed.push((op@, err)));
                    },
                }
                true
            },
        }
    }

    fn has_failed(&self, op: &TIn) -> (found: bool)
        ensures
            found == failed_keys(self@.failed).contains(op@),
    {
        let mut i: usize = 0;
        while i < self.results.failed.len()
            invariant
                i <= self.results.failed.len(),
                forall|j: int| 0 <= j < i ==> failed_keys(self@.failed)[j] != op@,
            decreases self.results.failed.len() - i,
        {
            if self.results.failed[i].0.same(op) {
                assert(failed_keys(self@.failed)[i as int] == op@);
                return true;
            }
            i += 1;
        }
        false
    }

    /// The operations that are known but nowhere, in the order in which they
    /// were registered. When the run is done these are the ones that wait on
    /// something that failed (or on something that waits in turn).
    pub fn blocked(&self) -> (left: Vec<TIn>)
        requires
            self.wf(),
        ensures
            key_views(left@) == self.tasks.keys().filter(|k: TIn::V| stranded(self@, k)),
    {
        let ghost pred = |k: TIn::V| stranded(self@, k);
        let ghost keys = self.tasks.keys();
        let mut left: Vec<TIn> = Vec::new();
        let mut i: usize = 0;
        proof {
            reveal(Seq::filter);
            assert(keys.take(0) =~= Seq::empty());
        }
        assert(key_views(left@) =~= keys.take(0).filter(pred));
        while i < self.tasks.len()
            invariant
                i <= self.tasks.entries@.len(),
                keys == self.tasks.keys(),
                pred == (|k: TIn::V| stranded(self@, k)),
                key_views(left@) == keys.take(i as int).filter(pred),
            decreases self.tasks.entries@.len() - i,
        {
            let op = &self.tasks.entries[i].0;
            proof {
                reveal(Seq::filter);
                let next = keys.take(i + 1);
                assert(next.drop_last() =~= keys.take(i as int));
                assert(next.last() == op@);
                assert(keys[i as int] == op@);
                assert(self.tasks.map().contains_key(op@));
                assert(self@.tasks.contains_key(op@));
            }
            let idle = !self.results.success.contains(op) && !self.has_failed(op) && position_of(
                &self.ready,
                op,
            ).is_none() && position_of(&self.running, op).is_none();
            if idle {
                let ghost before = key_views(left@);
                left.push(op.duplicate());
                assert(key_views(left@) =~= before.push(op@));
            }
            i += 1;
        }
        assert(keys.take(self.tasks.entries@.len() as int) =~= keys);
        left
    }

    /// Whether the run is over: nothing is ready and nothing is in flight.
    pub fn is_done(&self) -> (done: bool)
        ensures
            done == (self@.ready.len() == 0 && self@.running.len() == 0),
    {
        self.ready.len() == 0 && self.running.len() == 0
    }

    /// The results of the run.
    pub fn finish(self) -> (results: GraphTaskResults<TIn, TOut, TErr>)
        ensures
            results == self.results,
            results.success.map().map_values(|o: TOut| o@) == self@.success,
            results.failed@.map_values(|f: (TIn, TErr)| (f.0@, f.1)) == self@.failed,
    {
        self.results
    }
}

} // verus!
