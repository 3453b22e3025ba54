//! The task graph as a mathematical state machine: what the engine's state
//! is, how registering and accepting operations change it, and which
//! invariant those changes keep.
use crate::graph::GraphIn;
use vstd::prelude::*;

verus! {

/// One known operation: how many of its dependencies have succeeded so far,
/// and the dependencies themselves.
pub struct TaskModel<K> {
    pub resolved: nat,
    pub dependencies: Seq<K>,
}

/// The state of the engine, keyed by the view of an operation.
#[verifier::reject_recursive_types(K)]
pub struct GraphModel<K, O, E> {
    /// Every operation that was ever registered.
    pub tasks: Map<K, TaskModel<K>>,
    /// For a dependency, the operations that wait on it.
    pub dependents: Map<K, Seq<K>>,
    /// The stack of operations whose dependencies have all succeeded.
    pub ready: Seq<K>,
    /// The operations in flight.
    pub running: Seq<K>,
    pub success: Map<K, O>,
    pub failed: Seq<(K, E)>,
}

pub open spec fn empty_model<K, O, E>() -> GraphModel<K, O, E> {
    GraphModel {
        tasks: Map::empty(),
        dependents: Map::empty(),
        ready: Seq::empty(),
        running: Seq::empty(),
        success: Map::empty(),
        failed: Seq::empty(),
    }
}

/// How many entries of `deps` have succeeded.
pub open spec fn succeeded_count<K, O>(deps: Seq<K>, success: Map<K, O>) -> nat
    decreases deps.len(),
{
    if deps.len() == 0 {
        0
    } else {
        succeeded_count(deps.drop_last(), success) + if success.contains_key(deps.last()) {
            1nat
        } else {
            0nat
        }
    }
}

/// How many entries of `deps` are `k`.
pub open spec fn occurrences<K>(deps: Seq<K>, k: K) -> nat
    decreases deps.len(),
{
    if deps.len() == 0 {
        0
    } else {
        occurrences(deps.drop_last(), k) + if deps.last() == k {
            1nat
        } else {
            0nat
        }
    }
}

/// The operations that wait on `d`.
pub open spec fn waiting_on<K, O, E>(m: GraphModel<K, O, E>, d: K) -> Seq<K> {
    if m.dependents.contains_key(d) {
        m.dependents[d]
    } else {
        Seq::empty()
    }
}

/// The keys of the failed list.
pub open spec fn failed_keys<K, E>(failed: Seq<(K, E)>) -> Seq<K> {
    failed.map_values(|f: (K, E)| f.0)
}

/// The first half of registering an unknown `k`: it becomes a task, and goes
/// on the ready stack when all its dependencies have already succeeded.
pub open spec fn enlist_model<TIn: GraphIn, O, E>(
    m: GraphModel<TIn::V, O, E>,
    k: TIn::V,
) -> GraphModel<TIn::V, O, E> {
    let deps = TIn::spec_dependencies(k);
    let resolved = succeeded_count(deps, m.success);
    GraphModel {
        ready: if resolved == deps.len() {
            m.ready.push(k)
        } else {
            m.ready
        },
        tasks: m.tasks.insert(k, TaskModel { resolved, dependencies: deps }),
        ..m
    }
}

/// `k` joins those that wait on `d`.
pub open spec fn wait_model<K, O, E>(m: GraphModel<K, O, E>, d: K, k: K) -> GraphModel<K, O, E> {
    GraphModel { dependents: m.dependents.insert(d, waiting_on(m, d).push(k)), ..m }
}

/// Registering `k`: nothing happens when it is known. Otherwise it becomes a
/// task, goes on the ready stack when all its dependencies have already
/// succeeded, and each dependency in turn is told that `k` waits on it and is
/// registered itself.
pub open spec fn register_model<TIn: GraphIn, O, E>(
    m: GraphModel<TIn::V, O, E>,
    k: TIn::V,
) -> GraphModel<TIn::V, O, E>
    decreases TIn::rank(k), 1nat, 0nat,
{
    if m.tasks.contains_key(k) {
        m
    } else {
        link_model::<TIn, O, E>(enlist_model::<TIn, O, E>(m, k), k, 0)
    }
}

/// The second half of registering `k`: its dependencies from the `i`-th on
/// are linked and registered. (A dependency always ranks below the operation
/// that declares it, which is what makes the descent end.)
pub open spec fn link_model<TIn: GraphIn, O, E>(
    m: GraphModel<TIn::V, O, E>,
    k: TIn::V,
    i: nat,
) -> GraphModel<TIn::V, O, E>
    decreases TIn::rank(k), 0nat, TIn::spec_dependencies(k).len() - i,
{
    let deps = TIn::spec_dependencies(k);
    if i >= deps.len() {
        m
    } else {
        let d = deps[i as int];
        let m1 = wait_model(m, d, k);
        if TIn::rank(d) < TIn::rank(k) {
            link_model::<TIn, O, E>(register_model::<TIn, O, E>(m1, d), k, i + 1)
        } else {
            m1
        }
    }
}

/// Registering the operations `ops[i..]` one after the other.
pub open spec fn register_all_model<TIn: GraphIn, O, E>(
    m: GraphModel<TIn::V, O, E>,
    ops: Seq<TIn::V>,
    i: nat,
) -> GraphModel<TIn::V, O, E>
    decreases ops.len() - i,
{
    if i >= ops.len() {
        m
    } else {
        register_all_model::<TIn, O, E>(register_model::<TIn, O, E>(m, ops[i as int]), ops, i + 1)
    }
}

/// Telling `x` that its dependency `k` has succeeded: it counts the success,
/// and goes on the ready stack when that was its last open dependency.
pub open spec fn nudge_model<K, O, E>(m: GraphModel<K, O, E>, k: K, x: K) -> GraphModel<K, O, E> {
    if m.tasks.contains_key(x) {
        let t = m.tasks[x];
        let resolved = t.resolved + occurrences(t.dependencies, k);
        GraphModel {
            tasks: m.tasks.insert(x, TaskModel { resolved, dependencies: t.dependencies }),
            ready: if resolved == t.dependencies.len() {
                m.ready.push(x)
            } else {
                m.ready
            },
            ..m
        }
    } else {
        m
    }
}

/// Telling the operations `waiting[i..]`, one after the other, that their
/// dependency `k` has succeeded.
pub open spec fn wake_model<K, O, E>(
    m: GraphModel<K, O, E>,
    k: K,
    waiting: Seq<K>,
    i: nat,
) -> GraphModel<K, O, E>
    decreases waiting.len() - i,
{
    if i >= waiting.len() {
        m
    } else {
        wake_model(nudge_model(m, k, waiting[i as int]), k, waiting, i + 1)
    }
}

/// The success of `k` is recorded, and nobody waits on it any more.
pub open spec fn succeed_model<K, O, E>(m: GraphModel<K, O, E>, k: K, o: O) -> GraphModel<K, O, E> {
    GraphModel { success: m.success.insert(k, o), dependents: m.dependents.remove(k), ..m }
}

/// Accepting the output `o` of `k`: the success is recorded, the operations
/// that waited on `k` are woken, and the follow-ups are registered.
pub open spec fn accept_model<TIn: GraphIn, O, E>(
    m: GraphModel<TIn::V, O, E>,
    k: TIn::V,
    o: O,
    follow_ups: Seq<TIn::V>,
) -> GraphModel<TIn::V, O, E> {
    let m2 = wake_model(succeed_model(m, k, o), k, waiting_on(m, k), 0);
    register_all_model::<TIn, O, E>(m2, follow_ups, 0)
}

/// `k` is known and every dependency it declares has succeeded.
pub open spec fn launchable<TIn: GraphIn, O, E>(m: GraphModel<TIn::V, O, E>, k: TIn::V) -> bool {
    &&& m.tasks.contains_key(k)
    &&& forall|i: int|
        0 <= i < TIn::spec_dependencies(k).len() ==> m.success.contains_key(
            #[trigger] TIn::spec_dependencies(k)[i],
        )
}

/// Every task holds the dependencies its operation declares, and has counted
/// no more successes than there were.
pub open spec fn tasks_wf<TIn: GraphIn, O, E>(m: GraphModel<TIn::V, O, E>) -> bool {
    forall|k: TIn::V| #[trigger]
        m.tasks.contains_key(k) ==> m.tasks[k].dependencies == TIn::spec_dependencies(k)
            && m.tasks[k].resolved <= succeeded_count(m.tasks[k].dependencies, m.success)
}

/// Whoever waits on `d` is a task that declares `d`, and waits once.
pub open spec fn dependents_wf<TIn: GraphIn, O, E>(m: GraphModel<TIn::V, O, E>) -> bool {
    &&& forall|d: TIn::V| #[trigger]
        m.dependents.contains_key(d) ==> m.dependents[d].no_duplicates()
    &&& forall|d: TIn::V, i: int|
        m.dependents.contains_key(d) && 0 <= i < m.dependents[d].len() ==> m.tasks.contains_key(
            #[trigger] m.dependents[d][i],
        ) && TIn::spec_dependencies(m.dependents[d][i]).contains(d)
}

/// Whatever is ready, in flight, succeeded or failed had all its dependencies
/// succeed first, and no operation is in two of these places or twice in one.
pub open spec fn queues_wf<TIn: GraphIn, O, E>(m: GraphModel<TIn::V, O, E>) -> bool {
    &&& m.ready.no_duplicates()
    &&& m.running.no_duplicates()
    &&& forall|i: int|
        0 <= i < m.ready.len() ==> launchable::<TIn, O, E>(m, #[trigger] m.ready[i])
            && !m.success.contains_key(m.ready[i]) && !m.running.contains(m.ready[i])
            && !failed_keys(m.failed).contains(m.ready[i])
    &&& forall|i: int|
        0 <= i < m.running.len() ==> launchable::<TIn, O, E>(m, #[trigger] m.running[i])
            && !m.success.contains_key(m.running[i]) && !failed_keys(m.failed).contains(
            m.running[i],
        )
    &&& forall|k: TIn::V| #[trigger] m.success.contains_key(k) ==> launchable::<TIn, O, E>(m, k)
    &&& failed_keys(m.failed).no_duplicates()
    &&& forall|i: int|
        0 <= i < m.failed.len() ==> launchable::<TIn, O, E>(m, #[trigger] m.failed[i].0)
            && !m.success.contains_key(m.failed[i].0)
}

/// The invariant of the engine.
pub open spec fn model_wf<TIn: GraphIn, O, E>(m: GraphModel<TIn::V, O, E>) -> bool {
    &&& tasks_wf::<TIn, O, E>(m)
    &&& dependents_wf::<TIn, O, E>(m)
    &&& queues_wf::<TIn, O, E>(m)
}

/// `b` is `a` after more operations were registered: results and flights are
/// untouched, known tasks are as they were, and whatever was added to the
/// ready stack or to a waiting list was unknown to `a` (or is in `except`).
pub open spec fn grows<K, O, E>(
    a: GraphModel<K, O, E>,
    b: GraphModel<K, O, E>,
    except: Set<K>,
) -> bool {
    &&& b.success == a.success
    &&& b.running == a.running
    &&& b.failed == a.failed
    &&& forall|k: K| #[trigger] a.tasks.contains_key(k) ==> b.tasks.contains_key(k) && b.tasks[k] == a.tasks[k]
    &&& a.ready.len() <= b.ready.len()
    &&& forall|i: int| 0 <= i < a.ready.len() ==> #[trigger] b.ready[i] == a.ready[i]
    &&& forall|i: int| a.ready.len() <= i < b.ready.len() ==> !a.tasks.contains_key(#[trigger] b.ready[i])
    &&& forall|d: K, i: int|
        b.dependents.contains_key(d) && 0 <= i < b.dependents[d].len() ==> waiting_on(a, d).contains(
            #[trigger] b.dependents[d][i],
        ) || !a.tasks.contains_key(b.dependents[d][i]) || except.contains(b.dependents[d][i])
}

pub proof fn lemma_count_bound<K, O>(deps: Seq<K>, success: Map<K, O>)
    ensures
        succeeded_count(deps, success) <= deps.len(),
        succeeded_count(deps, success) == deps.len() ==> forall|i: int|
            0 <= i < deps.len() ==> success.contains_key(#[trigger] deps[i]),
    decreases deps.len(),
{
    if deps.len() > 0 {
        lemma_count_bound(deps.drop_last(), success);
        if succeeded_count(deps, success) == deps.len() {
            assert forall|i: int| 0 <= i < deps.len() implies success.contains_key(
                #[trigger] deps[i],
            ) by {
                if i < deps.len() - 1 {
                    assert(deps.drop_last()[i] == deps[i]);
                }
            }
        }
    }
}

/// One more success raises the count by the number of times it is declared.
pub proof fn lemma_count_insert<K, O>(deps: Seq<K>, success: Map<K, O>, k: K, o: O)
    requires
        !success.contains_key(k),
    ensures
        succeeded_count(deps, success.insert(k, o)) == succeeded_count(deps, success)
            + occurrences(deps, k),
    decreases deps.len(),
{
    if deps.len() > 0 {
        lemma_count_insert(deps.drop_last(), success, k, o);
    }
}

/// A success that was already there changes no count.
pub proof fn lemma_count_same_domain<K, O>(deps: Seq<K>, s1: Map<K, O>, s2: Map<K, O>)
    requires
        s1.dom() == s2.dom(),
    ensures
        succeeded_count(deps, s1) == succeeded_count(deps, s2),
    decreases deps.len(),
{
    if deps.len() > 0 {
        lemma_count_same_domain(deps.drop_last(), s1, s2);
        assert(s1.contains_key(deps.last()) == s2.dom().contains(deps.last()));
    }
}

pub proof fn lemma_occurrences_none<K>(deps: Seq<K>, k: K)
    requires
        !deps.contains(k),
    ensures
        occurrences(deps, k) == 0,
    decreases deps.len(),
{
    if deps.len() > 0 {
        assert(deps.last() == deps[deps.len() - 1]);
        assert forall|j: int| 0 <= j < deps.drop_last().len() implies deps.drop_last()[j]
            != k by {
            assert(deps.drop_last()[j] == deps[j]);
        }
        lemma_occurrences_none(deps.drop_last(), k);
    }
}

/// In a list without repetition a member occurs once.
pub proof fn lemma_occurrences_distinct<K>(deps: Seq<K>, k: K)
    requires
        deps.no_duplicates(),
    ensures
        occurrences(deps, k) == if deps.contains(k) {
            1nat
        } else {
            0nat
        },
    decreases deps.len(),
{
    if deps.len() > 0 {
        let front = deps.drop_last();
        assert forall|i: int, j: int| 0 <= i < front.len() && 0 <= j < front.len() && i
            != j implies front[i] != front[j] by {
            assert(front[i] == deps[i] && front[j] == deps[j]);
        }
        lemma_occurrences_distinct(front, k);
        if deps.last() == k {
            assert(deps[deps.len() - 1] == k);
            if front.contains(k) {
                let j = choose|j: int| 0 <= j < front.len() && front[j] == k;
                assert(deps[j] == k);
            }
        } else {
            if deps.contains(k) {
                let j = choose|j: int| 0 <= j < deps.len() && deps[j] == k;
                assert(front[j] == k);
            } else {
                if front.contains(k) {
                    let j = choose|j: int| 0 <= j < front.len() && front[j] == k;
                    assert(deps[j] == k);
                }
            }
        }
    } else {
        lemma_occurrences_none(deps, k);
    }
}

pub proof fn lemma_grows_refl<K, O, E>(a: GraphModel<K, O, E>, except: Set<K>)
    ensures
        grows(a, a, except),
{
    assert forall|d: K, i: int|
        a.dependents.contains_key(d) && 0 <= i < a.dependents[d].len() implies waiting_on(
        a,
        d,
    ).contains(#[trigger] a.dependents[d][i]) by {}
}

pub proof fn lemma_grows_trans<K, O, E>(
    a: GraphModel<K, O, E>,
    b: GraphModel<K, O, E>,
    c: GraphModel<K, O, E>,
    s1: Set<K>,
    s2: Set<K>,
    s: Set<K>,
)
    requires
        grows(a, b, s1),
        grows(b, c, s2),
        s1.subset_of(s),
        s2.subset_of(s),
    ensures
        grows(a, c, s),
{
    assert forall|i: int| a.ready.len() <= i < c.ready.len() implies !a.tasks.contains_key(
        #[trigger] c.ready[i],
    ) by {
        if i < b.ready.len() {
            assert(c.ready[i] == b.ready[i]);
        }
    }
    assert forall|d: K, i: int|
        c.dependents.contains_key(d) && 0 <= i < c.dependents[d].len() implies waiting_on(
        a,
        d,
    ).contains(#[trigger] c.dependents[d][i]) || !a.tasks.contains_key(c.dependents[d][i])
        || s.contains(c.dependents[d][i]) by {
        let x = c.dependents[d][i];
        if waiting_on(b, d).contains(x) {
            let j = choose|j: int| 0 <= j < waiting_on(b, d).len() && waiting_on(b, d)[j] == x;
            assert(b.dependents[d][j] == x);
        }
    }
}

/// The state in the middle of registering `k`, before its `i`-th dependency
/// is linked: `k` is a task, and waits only on dependencies before the `i`-th.
pub open spec fn linking<TIn: GraphIn, O, E>(m: GraphModel<TIn::V, O, E>, k: TIn::V, i: nat) -> bool {
    &&& model_wf::<TIn, O, E>(m)
    &&& m.tasks.contains_key(k)
    &&& i <= TIn::spec_dependencies(k).len()
    &&& forall|d: TIn::V| #[trigger]
        waiting_on(m, d).contains(k) ==> TIn::spec_dependencies(k).take(i as int).contains(d)
}

proof fn lemma_launchable_kept<TIn: GraphIn, O, E>(
    a: GraphModel<TIn::V, O, E>,
    b: GraphModel<TIn::V, O, E>,
)
    requires
        queues_wf::<TIn, O, E>(a),
        forall|k: TIn::V| #[trigger] a.tasks.contains_key(k) ==> b.tasks.contains_key(k),
        forall|k: TIn::V| #[trigger] a.success.contains_key(k) ==> b.success.contains_key(k),
        b.running == a.running,
        b.failed == a.failed,
    ensures
        forall|i: int| 0 <= i < a.ready.len() ==> launchable::<TIn, O, E>(b, #[trigger] a.ready[i]),
        forall|i: int|
            0 <= i < b.running.len() ==> launchable::<TIn, O, E>(b, #[trigger] b.running[i]),
        forall|k: TIn::V| #[trigger] a.success.contains_key(k) ==> launchable::<TIn, O, E>(b, k),
        forall|i: int|
            0 <= i < b.failed.len() ==> launchable::<TIn, O, E>(b, #[trigger] b.failed[i].0),
{
    assert forall|i: int| 0 <= i < a.ready.len() implies launchable::<TIn, O, E>(
        b,
        #[trigger] a.ready[i],
    ) by {
        assert(launchable::<TIn, O, E>(a, a.ready[i]));
    }
    assert forall|i: int| 0 <= i < b.running.len() implies launchable::<TIn, O, E>(
        b,
        #[trigger] b.running[i],
    ) by {
        assert(launchable::<TIn, O, E>(a, a.running[i]));
    }
    assert forall|k: TIn::V| #[trigger] a.success.contains_key(k) implies launchable::<TIn, O, E>(
        b,
        k,
    ) by {
        assert(launchable::<TIn, O, E>(a, k));
    }
    assert forall|i: int| 0 <= i < b.failed.len() implies launchable::<TIn, O, E>(
        b,
        #[trigger] b.failed[i].0,
    ) by {
        assert(launchable::<TIn, O, E>(a, a.failed[i].0));
    }
}

proof fn lemma_push_distinct<K>(s: Seq<K>, k: K)
    requires
        s.no_duplicates(),
        !s.contains(k),
    ensures
        s.push(k).no_duplicates(),
{
    assert forall|a: int, b: int|
        0 <= a < s.push(k).len() && 0 <= b < s.push(k).len() && a != b implies s.push(k)[a]
        != s.push(k)[b] by {
        if a < s.len() {
            assert(s.push(k)[a] == s[a]);
        }
        if b < s.len() {
            assert(s.push(k)[b] == s[b]);
        }
    }
}

/// What is launchable is in none of the places that hold operations which
/// are not.
proof fn lemma_not_launchable_is_idle<TIn: GraphIn, O, E>(m: GraphModel<TIn::V, O, E>, x: TIn::V)
    requires
        queues_wf::<TIn, O, E>(m),
        !launchable::<TIn, O, E>(m, x),
    ensures
        !m.ready.contains(x),
        !m.running.contains(x),
        !m.success.contains_key(x),
        !failed_keys(m.failed).contains(x),
{
    if m.ready.contains(x) {
        let a = choose|a: int| 0 <= a < m.ready.len() && m.ready[a] == x;
        assert(launchable::<TIn, O, E>(m, m.ready[a]));
    }
    if m.running.contains(x) {
        let a = choose|a: int| 0 <= a < m.running.len() && m.running[a] == x;
        assert(launchable::<TIn, O, E>(m, m.running[a]));
    }
    if failed_keys(m.failed).contains(x) {
        let a = choose|a: int| 0 <= a < failed_keys(m.failed).len() && failed_keys(m.failed)[a] == x;
        assert(launchable::<TIn, O, E>(m, m.failed[a].0));
    }
}

/// Adding an unknown operation as a task keeps the invariant, and the
/// operation waits on nothing yet.
pub proof fn lemma_enlist<TIn: GraphIn, O, E>(m: GraphModel<TIn::V, O, E>, k: TIn::V)
    requires
        model_wf::<TIn, O, E>(m),
        !m.tasks.contains_key(k),
    ensures
        linking::<TIn, O, E>(enlist_model::<TIn, O, E>(m, k), k, 0),
        grows(m, enlist_model::<TIn, O, E>(m, k), Set::empty()),
{
    let deps = TIn::spec_dependencies(k);
    let m1 = enlist_model::<TIn, O, E>(m, k);
    lemma_count_bound(deps, m.success);
    lemma_not_launchable_is_idle::<TIn, O, E>(m, k);
    lemma_launchable_kept::<TIn, O, E>(m, m1);
    assert(tasks_wf::<TIn, O, E>(m1));
    assert(dependents_wf::<TIn, O, E>(m1));
    if m1.ready.len() > m.ready.len() {
        lemma_push_distinct(m.ready, k);
    }
    assert forall|i: int| 0 <= i < m1.ready.len() implies launchable::<TIn, O, E>(
        m1,
        #[trigger] m1.ready[i],
    ) && !m1.success.contains_key(m1.ready[i]) && !m1.running.contains(m1.ready[i])
        && !failed_keys(m1.failed).contains(m1.ready[i]) by {
        if i < m.ready.len() {
            assert(m1.ready[i] == m.ready[i]);
        }
    }
    assert(queues_wf::<TIn, O, E>(m1));
    assert(grows(m, m1, Set::<TIn::V>::empty())) by {
        assert forall|d: TIn::V, i: int|
            m1.dependents.contains_key(d) && 0 <= i < m1.dependents[d].len() implies waiting_on(
            m,
            d,
        ).contains(#[trigger] m1.dependents[d][i]) by {}
    }
    assert forall|d: TIn::V| #[trigger] waiting_on(m1, d).contains(k) implies deps.take(
        0,
    ).contains(d) by {
        let j = choose|j: int| 0 <= j < waiting_on(m1, d).len() && waiting_on(m1, d)[j] == k;
        assert(m.tasks.contains_key(m.dependents[d][j]));
    }
}

/// Linking one dependency and registering it keeps the invariant and leads
/// to the state before the next dependency.
pub proof fn lemma_link_step<TIn: GraphIn, O, E>(m: GraphModel<TIn::V, O, E>, k: TIn::V, i: nat)
    requires
        linking::<TIn, O, E>(m, k, i),
        i < TIn::spec_dependencies(k).len(),
    ensures
        TIn::rank(TIn::spec_dependencies(k)[i as int]) < TIn::rank(k),
        model_wf::<TIn, O, E>(wait_model(m, TIn::spec_dependencies(k)[i as int], k)),
        linking::<TIn, O, E>(
            register_model::<TIn, O, E>(
                wait_model(m, TIn::spec_dependencies(k)[i as int], k),
                TIn::spec_dependencies(k)[i as int],
            ),
            k,
            i + 1,
        ),
        grows(
            m,
            register_model::<TIn, O, E>(
                wait_model(m, TIn::spec_dependencies(k)[i as int], k),
                TIn::spec_dependencies(k)[i as int],
            ),
            set![k],
        ),
    decreases TIn::rank(k), 0nat, TIn::spec_dependencies(k).len() - i, 0nat,
{
    let deps = TIn::spec_dependencies(k);
    let d = deps[i as int];
    let before = waiting_on(m, d);
    let m1 = wait_model(m, d, k);
    TIn::lemma_dependencies(k);
    assert(!before.contains(k)) by {
        if before.contains(k) {
            assert(deps.take(i as int).contains(d));
            let j = choose|j: int| 0 <= j < deps.take(i as int).len() && deps.take(i as int)[j] == d;
            assert(deps[j] == d);
        }
    }
    assert(before.no_duplicates());
    lemma_push_distinct(before, k);
    assert(deps.contains(d));
    assert(dependents_wf::<TIn, O, E>(m1)) by {
        assert forall|e: TIn::V, j: int|
            m1.dependents.contains_key(e) && 0 <= j
                < m1.dependents[e].len() implies m1.tasks.contains_key(
            #[trigger] m1.dependents[e][j],
        ) && TIn::spec_dependencies(m1.dependents[e][j]).contains(e) by {
            if e == d {
                if j < before.len() {
                    assert(m1.dependents[e][j] == before[j]);
                    assert(m.dependents[d][j] == before[j]);
                }
            } else {
                assert(m1.dependents[e][j] == m.dependents[e][j]);
            }
        }
    }
    assert(tasks_wf::<TIn, O, E>(m1));
    lemma_launchable_kept::<TIn, O, E>(m, m1);
    assert(queues_wf::<TIn, O, E>(m1));
    assert(grows(m, m1, set![k])) by {
        assert forall|e: TIn::V, j: int|
            m1.dependents.contains_key(e) && 0 <= j < m1.dependents[e].len() implies waiting_on(
            m,
            e,
        ).contains(#[trigger] m1.dependents[e][j]) || set![k].contains(m1.dependents[e][j]) by {
            if e == d {
                if j < before.len() {
                    assert(m1.dependents[e][j] == before[j]);
                }
            } else {
                assert(m1.dependents[e][j] == m.dependents[e][j]);
            }
        }
    }
    lemma_register::<TIn, O, E>(m1, d);
    let m2 = register_model::<TIn, O, E>(m1, d);
    assert forall|e: TIn::V| #[trigger] waiting_on(m2, e).contains(k) implies deps.take(
        i as int + 1,
    ).contains(e) by {
        let j = choose|j: int| 0 <= j < waiting_on(m2, e).len() && waiting_on(m2, e)[j] == k;
        assert(m2.dependents[e][j] == k);
        assert(waiting_on(m1, e).contains(k));
        if e == d {
            assert(deps.take(i as int + 1)[i as int] == d);
        } else {
            assert(waiting_on(m, e).contains(k));
            assert(deps.take(i as int).contains(e));
            let l = choose|l: int| 0 <= l < deps.take(i as int).len() && deps.take(i as int)[l] == e;
            assert(deps.take(i as int + 1)[l] == e);
        }
    }
    lemma_grows_trans(m, m1, m2, set![k], Set::empty(), set![k]);
}

/// Registering keeps the invariant, adds the operation, and touches nothing
/// that was known before.
pub proof fn lemma_register<TIn: GraphIn, O, E>(m: GraphModel<TIn::V, O, E>, k: TIn::V)
    requires
        model_wf::<TIn, O, E>(m),
    ensures
        model_wf::<TIn, O, E>(register_model::<TIn, O, E>(m, k)),
        grows(m, register_model::<TIn, O, E>(m, k), Set::empty()),
        register_model::<TIn, O, E>(m, k).tasks.contains_key(k),
    decreases TIn::rank(k), 1nat, 0nat, 0nat,
{
    if m.tasks.contains_key(k) {
        lemma_grows_refl(m, Set::empty());
    } else {
        let m1 = enlist_model::<TIn, O, E>(m, k);
        lemma_enlist::<TIn, O, E>(m, k);
        lemma_link::<TIn, O, E>(m1, k, 0);
        let m2 = link_model::<TIn, O, E>(m1, k, 0);
        assert(grows(m, m2, Set::<TIn::V>::empty())) by {
            lemma_grows_trans(m, m1, m2, Set::empty(), set![k], set![k]);
            assert forall|d: TIn::V, i: int|
                m2.dependents.contains_key(d) && 0 <= i
                    < m2.dependents[d].len() implies waiting_on(m, d).contains(
                #[trigger] m2.dependents[d][i],
            ) || !m.tasks.contains_key(m2.dependents[d][i]) by {}
        }
    }
}

/// Linking the dependencies of a task that was just added keeps the
/// invariant; besides unknown operations only `k` itself joins waiting lists.
pub proof fn lemma_link<TIn: GraphIn, O, E>(m: GraphModel<TIn::V, O, E>, k: TIn::V, i: nat)
    requires
        linking::<TIn, O, E>(m, k, i),
    ensures
        model_wf::<TIn, O, E>(link_model::<TIn, O, E>(m, k, i)),
        grows(m, link_model::<TIn, O, E>(m, k, i), set![k]),
    decreases TIn::rank(k), 0nat, TIn::spec_dependencies(k).len() - i, 1nat,
{
    let deps = TIn::spec_dependencies(k);
    if i >= deps.len() {
        lemma_grows_refl(m, set![k]);
    } else {
        let d = deps[i as int];
        lemma_link_step::<TIn, O, E>(m, k, i);
        let m2 = register_model::<TIn, O, E>(wait_model(m, d, k), d);
        lemma_link::<TIn, O, E>(m2, k, i + 1);
        let m3 = link_model::<TIn, O, E>(m2, k, i + 1);
        lemma_grows_trans(m, m2, m3, set![k], set![k], set![k]);
    }
}

pub proof fn lemma_register_all<TIn: GraphIn, O, E>(
    m: GraphModel<TIn::V, O, E>,
    ops: Seq<TIn::V>,
    i: nat,
)
    requires
        model_wf::<TIn, O, E>(m),
    ensures
        model_wf::<TIn, O, E>(register_all_model::<TIn, O, E>(m, ops, i)),
        grows(m, register_all_model::<TIn, O, E>(m, ops, i), Set::empty()),
    decreases ops.len() - i,
{
    if i >= ops.len() {
        lemma_grows_refl(m, Set::empty());
    } else {
        lemma_register::<TIn, O, E>(m, ops[i as int]);
        let m1 = register_model::<TIn, O, E>(m, ops[i as int]);
        lemma_register_all::<TIn, O, E>(m1, ops, i + 1);
        lemma_grows_trans(
            m,
            m1,
            register_all_model::<TIn, O, E>(m1, ops, i + 1),
            Set::empty(),
            Set::empty(),
            Set::empty(),
        );
    }
}

/// `k` may be accepted: it is known, everything it depends on has succeeded,
/// it has neither succeeded nor failed yet, and it is neither ready nor in
/// flight.
pub open spec fn can_accept<TIn: GraphIn, O, E>(m: GraphModel<TIn::V, O, E>, k: TIn::V) -> bool {
    &&& launchable::<TIn, O, E>(m, k)
    &&& !m.success.contains_key(k)
    &&& !failed_keys(m.failed).contains(k)
    &&& !m.ready.contains(k)
    &&& !m.running.contains(k)
}

/// The part of the state that waking does not touch.
pub open spec fn wake_frame<K, O, E>(a: GraphModel<K, O, E>, b: GraphModel<K, O, E>) -> bool {
    &&& b.success == a.success
    &&& b.running == a.running
    &&& b.failed == a.failed
    &&& b.dependents == a.dependents
    &&& b.tasks.dom() == a.tasks.dom()
}

/// The state in the middle of waking those that waited on `k`, before the
/// `i`-th of them is told: the success of `k` is recorded, and those still to
/// be told have not counted it and are idle.
pub open spec fn waking<TIn: GraphIn, O, E>(
    s: GraphModel<TIn::V, O, E>,
    k: TIn::V,
    waiting: Seq<TIn::V>,
    i: nat,
) -> bool {
    &&& model_wf::<TIn, O, E>(s)
    &&& s.success.contains_key(k)
    &&& waiting.no_duplicates()
    &&& i <= waiting.len()
    &&& forall|j: int| 0 <= j < waiting.len() ==> s.tasks.contains_key(#[trigger] waiting[j])
    &&& forall|j: int|
        i <= j < waiting.len() ==> s.tasks[#[trigger] waiting[j]].resolved + occurrences(
            TIn::spec_dependencies(waiting[j]),
            k,
        ) <= succeeded_count(TIn::spec_dependencies(waiting[j]), s.success)
    &&& forall|j: int|
        i <= j < waiting.len() ==> !s.ready.contains(#[trigger] waiting[j]) && !s.running.contains(
            waiting[j],
        ) && !s.success.contains_key(waiting[j]) && !failed_keys(s.failed).contains(waiting[j])
}

/// Telling one waiting operation keeps the invariant and leads to the state
/// before the next one; its new count is within the number of its
/// dependencies.
pub proof fn lemma_wake_step<TIn: GraphIn, O, E>(
    s: GraphModel<TIn::V, O, E>,
    k: TIn::V,
    waiting: Seq<TIn::V>,
    i: nat,
)
    requires
        waking::<TIn, O, E>(s, k, waiting, i),
        i < waiting.len(),
    ensures
        waking::<TIn, O, E>(nudge_model(s, k, waiting[i as int]), k, waiting, i + 1),
        wake_frame(s, nudge_model(s, k, waiting[i as int])),
        s.tasks[waiting[i as int]].resolved + occurrences(
            s.tasks[waiting[i as int]].dependencies,
            k,
        ) <= s.tasks[waiting[i as int]].dependencies.len(),
{
    let x = waiting[i as int];
    let t = s.tasks[x];
    let deps = TIn::spec_dependencies(x);
    assert(s.tasks.contains_key(x));
    assert(t.dependencies == deps);
    let s1 = nudge_model(s, k, x);
    lemma_count_bound(deps, s.success);
    assert(s1.tasks.dom() =~= s.tasks.dom());
    assert(tasks_wf::<TIn, O, E>(s1));
    assert(dependents_wf::<TIn, O, E>(s1));
    lemma_launchable_kept::<TIn, O, E>(s, s1);
    if s1.ready.len() > s.ready.len() {
        lemma_push_distinct(s.ready, x);
    }
    assert forall|j: int| 0 <= j < s1.ready.len() implies launchable::<TIn, O, E>(
        s1,
        #[trigger] s1.ready[j],
    ) && !s1.success.contains_key(s1.ready[j]) && !s1.running.contains(s1.ready[j])
        && !failed_keys(s1.failed).contains(s1.ready[j]) by {
        if j < s.ready.len() {
            assert(s1.ready[j] == s.ready[j]);
        }
    }
    assert(queues_wf::<TIn, O, E>(s1));
    assert forall|j: int| i + 1 <= j < waiting.len() implies !s1.ready.contains(
        #[trigger] waiting[j],
    ) by {
        assert(!s.ready.contains(waiting[j]));
        assert(waiting[j] != x);
        if s1.ready.contains(waiting[j]) {
            let a = choose|a: int| 0 <= a < s1.ready.len() && s1.ready[a] == waiting[j];
            if a < s.ready.len() {
                assert(s.ready[a] == waiting[j]);
            }
        }
    }
    assert forall|j: int| i + 1 <= j < waiting.len() implies s1.tasks[#[trigger] waiting[j]]
        == s.tasks[waiting[j]] by {
        assert(waiting[j] != x);
    }
}

pub proof fn lemma_wake<TIn: GraphIn, O, E>(
    s: GraphModel<TIn::V, O, E>,
    k: TIn::V,
    waiting: Seq<TIn::V>,
    i: nat,
)
    requires
        waking::<TIn, O, E>(s, k, waiting, i),
    ensures
        model_wf::<TIn, O, E>(wake_model(s, k, waiting, i)),
        wake_frame(s, wake_model(s, k, waiting, i)),
    decreases waiting.len() - i,
{
    if i < waiting.len() {
        lemma_wake_step::<TIn, O, E>(s, k, waiting, i);
        lemma_wake::<TIn, O, E>(nudge_model(s, k, waiting[i as int]), k, waiting, i + 1);
    }
}

/// Recording the success of an operation that may be accepted keeps the
/// invariant, and those that waited on it are ready to be told.
pub proof fn lemma_succeed<TIn: GraphIn, O, E>(m: GraphModel<TIn::V, O, E>, k: TIn::V, o: O)
    requires
        model_wf::<TIn, O, E>(m),
        can_accept::<TIn, O, E>(m, k),
    ensures
        waking::<TIn, O, E>(succeed_model(m, k, o), k, waiting_on(m, k), 0),
{
    let m1 = succeed_model(m, k, o);
    let waiting = waiting_on(m, k);
    assert(tasks_wf::<TIn, O, E>(m1)) by {
        assert forall|x: TIn::V| #[trigger] m1.tasks.contains_key(x) implies m1.tasks[x].resolved
            <= succeeded_count(m1.tasks[x].dependencies, m1.success) by {
            lemma_count_insert(m.tasks[x].dependencies, m.success, k, o);
        }
    }
    assert(dependents_wf::<TIn, O, E>(m1)) by {
        assert forall|d: TIn::V, j: int|
            m1.dependents.contains_key(d) && 0 <= j
                < m1.dependents[d].len() implies m1.tasks.contains_key(
            #[trigger] m1.dependents[d][j],
        ) && TIn::spec_dependencies(m1.dependents[d][j]).contains(d) by {
            assert(m1.dependents[d][j] == m.dependents[d][j]);
        }
    }
    lemma_launchable_kept::<TIn, O, E>(m, m1);
    assert(queues_wf::<TIn, O, E>(m1)) by {
        assert forall|y: TIn::V| #[trigger] m1.success.contains_key(y) implies launchable::<
            TIn,
            O,
            E,
        >(m1, y) by {
            if y != k {
                assert(m.success.contains_key(y));
            }
        }
        assert forall|a: int| 0 <= a < m1.failed.len() implies launchable::<TIn, O, E>(
            m1,
            #[trigger] m1.failed[a].0,
        ) && !m1.success.contains_key(m1.failed[a].0) by {
            assert(failed_keys(m.failed)[a] == m.failed[a].0);
            assert(launchable::<TIn, O, E>(m, m.failed[a].0));
        }
    }
    // Whoever waits on `k` declares it, so it was not launchable before.
    assert forall|j: int| 0 <= j < waiting.len() implies m1.tasks.contains_key(
        #[trigger] waiting[j],
    ) && !launchable::<TIn, O, E>(m, waiting[j]) by {
        let x = waiting[j];
        assert(x == m.dependents[k][j]);
        let deps = TIn::spec_dependencies(x);
        assert(deps.contains(k));
        let l = choose|l: int| 0 <= l < deps.len() && deps[l] == k;
        assert(!m.success.contains_key(deps[l]));
    }
    assert forall|j: int| 0 <= j < waiting.len() implies m1.tasks[#[trigger] waiting[j]].resolved
        + occurrences(TIn::spec_dependencies(waiting[j]), k) <= succeeded_count(
        TIn::spec_dependencies(waiting[j]),
        m1.success,
    ) by {
        lemma_count_insert(TIn::spec_dependencies(waiting[j]), m.success, k, o);
    }
    assert forall|j: int| 0 <= j < waiting.len() implies !m1.ready.contains(#[trigger] waiting[j])
        && !m1.running.contains(waiting[j]) && !m1.success.contains_key(waiting[j])
        && !failed_keys(m1.failed).contains(waiting[j]) by {
        lemma_not_launchable_is_idle::<TIn, O, E>(m, waiting[j]);
    }
}

/// Accepting an operation that may be accepted keeps the invariant.
pub proof fn lemma_accept<TIn: GraphIn, O, E>(
    m: GraphModel<TIn::V, O, E>,
    k: TIn::V,
    o: O,
    follow_ups: Seq<TIn::V>,
)
    requires
        model_wf::<TIn, O, E>(m),
        can_accept::<TIn, O, E>(m, k),
    ensures
        model_wf::<TIn, O, E>(accept_model::<TIn, O, E>(m, k, o, follow_ups)),
        accept_model::<TIn, O, E>(m, k, o, follow_ups).success == m.success.insert(k, o),
        accept_model::<TIn, O, E>(m, k, o, follow_ups).running == m.running,
        accept_model::<TIn, O, E>(m, k, o, follow_ups).failed == m.failed,
{
    let m1 = succeed_model(m, k, o);
    let waiting = waiting_on(m, k);
    lemma_succeed::<TIn, O, E>(m, k, o);
    lemma_wake::<TIn, O, E>(m1, k, waiting, 0);
    let m2 = wake_model(m1, k, waiting, 0);
    lemma_register_all::<TIn, O, E>(m2, follow_ups, 0);
}

/// Registering an operation a second time changes nothing: it stays one
/// task.
pub proof fn law_register_idempotent<TIn: GraphIn, O, E>(m: GraphModel<TIn::V, O, E>, k: TIn::V)
    requires
        model_wf::<TIn, O, E>(m),
    ensures
        register_model::<TIn, O, E>(register_model::<TIn, O, E>(m, k), k) == register_model::<
            TIn,
            O,
            E,
        >(m, k),
{
    lemma_register::<TIn, O, E>(m, k);
}

/// Registering never puts a known operation on the ready stack again, so an
/// operation is handed out at most once: it is ready at most once, and while
/// it is ready it is neither in flight nor finished.
pub proof fn law_ready_once<TIn: GraphIn, O, E>(m: GraphModel<TIn::V, O, E>, k: TIn::V, x: TIn::V)
    requires
        model_wf::<TIn, O, E>(m),
        m.tasks.contains_key(x),
    ensures
        m.ready.no_duplicates(),
        m.ready.contains(x) ==> !m.running.contains(x) && !m.success.contains_key(x)
            && !failed_keys(m.failed).contains(x),
        register_model::<TIn, O, E>(m, k).ready.contains(x) ==> m.ready.contains(x),
{
    lemma_register::<TIn, O, E>(m, k);
    let r = register_model::<TIn, O, E>(m, k);
    if r.ready.contains(x) {
        let i = choose|i: int| 0 <= i < r.ready.len() && r.ready[i] == x;
        if i < m.ready.len() {
            assert(m.ready[i] == x);
        } else {
            assert(!m.tasks.contains_key(r.ready[i]));
        }
    }
    if m.ready.contains(x) {
        let i = choose|i: int| 0 <= i < m.ready.len() && m.ready[i] == x;
        assert(!m.running.contains(m.ready[i]));
    }
}

/// An operation is ready, in flight, succeeded or failed only after every
/// dependency it declares has succeeded.
pub proof fn law_dependencies_first<TIn: GraphIn, O, E>(
    m: GraphModel<TIn::V, O, E>,
    k: TIn::V,
    i: int,
)
    requires
        model_wf::<TIn, O, E>(m),
        m.ready.contains(k) || m.running.contains(k) || m.success.contains_key(k) || failed_keys(
            m.failed,
        ).contains(k),
        0 <= i < TIn::spec_dependencies(k).len(),
    ensures
        m.success.contains_key(TIn::spec_dependencies(k)[i]),
{
    if !launchable::<TIn, O, E>(m, k) {
        lemma_not_launchable_is_idle::<TIn, O, E>(m, k);
    }
}

/// With nothing registered there are no tasks, nothing to run and no
/// results.
pub proof fn law_nothing_registered<TIn: GraphIn, O, E>()
    ensures
        model_wf::<TIn, O, E>(empty_model::<TIn::V, O, E>()),
        register_all_model::<TIn, O, E>(empty_model::<TIn::V, O, E>(), Seq::empty(), 0)
            == empty_model::<TIn::V, O, E>(),
        empty_model::<TIn::V, O, E>().tasks.dom().is_empty(),
        empty_model::<TIn::V, O, E>().success.dom().is_empty(),
        empty_model::<TIn::V, O, E>().failed.len() == 0,
        empty_model::<TIn::V, O, E>().ready.len() == 0,
        empty_model::<TIn::V, O, E>().running.len() == 0,
{
}

} // verus!
