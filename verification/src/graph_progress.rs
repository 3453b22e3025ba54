//! Nothing is forgotten: an operation whose dependencies have all
//! succeeded is ready, in flight or finished. So an operation that is left
//! over in the end waits on something that did not succeed.
use crate::graph::GraphIn;
use crate::graph_model::{
    accept_model,
    can_accept,
    enlist_model,
    failed_keys,
    lemma_count_insert,
    lemma_enlist,
    lemma_link_step,
    lemma_occurrences_none,
    lemma_register,
    lemma_succeed,
    lemma_wake,
    lemma_wake_step,
    link_model,
    linking,
    model_wf,
    nudge_model,
    occurrences,
    register_all_model,
    register_model,
    succeed_model,
    succeeded_count,
    wait_model,
    waiting_on,
    wake_model,
    waking,
    GraphModel,
};
use vstd::prelude::*;

verus! {

/// `k` is ready, in flight, succeeded or failed.
pub open spec fn enrolled<K, O, E>(m: GraphModel<K, O, E>, k: K) -> bool {
    m.ready.contains(k) || m.running.contains(k) || m.success.contains_key(k) || failed_keys(
        m.failed,
    ).contains(k)
}

/// Every task has counted exactly the successes among its dependencies.
pub open spec fn counted<K, O, E>(m: GraphModel<K, O, E>) -> bool {
    forall|k: K| #[trigger]
        m.tasks.contains_key(k) ==> m.tasks[k].resolved == succeeded_count(
            m.tasks[k].dependencies,
            m.success,
        )
}

/// Every task that has counted all its dependencies is enrolled, but for
/// those that are `homeless`: taken off the stack or out of flight, and
/// about to be put somewhere.
pub open spec fn placed<K, O, E>(m: GraphModel<K, O, E>, homeless: Set<K>) -> bool {
    forall|k: K| #[trigger]
        m.tasks.contains_key(k) && m.tasks[k].resolved == m.tasks[k].dependencies.len()
            && !homeless.contains(k) ==> enrolled(m, k)
}

/// `x` waits on its `i`-th dependency.
pub open spec fn waits<TIn: GraphIn, O, E>(m: GraphModel<TIn::V, O, E>, x: TIn::V, i: int) -> bool {
    waiting_on(m, TIn::spec_dependencies(x)[i]).contains(x)
}

/// Every task waits on each of its dependencies that has not succeeded,
/// but for those that are `pending`: in the middle of being registered.
pub open spec fn linked<TIn: GraphIn, O, E>(m: GraphModel<TIn::V, O, E>, pending: Set<TIn::V>) -> bool {
    forall|x: TIn::V, i: int|
        m.tasks.contains_key(x) && !pending.contains(x) && 0 <= i < TIn::spec_dependencies(
            x,
        ).len() && !m.success.contains_key(TIn::spec_dependencies(x)[i]) ==> #[trigger] waits::<
            TIn,
            O,
            E,
        >(m, x, i)
}

/// The `i`-th dependency of `x` is a task.
pub open spec fn knows<TIn: GraphIn, O, E>(m: GraphModel<TIn::V, O, E>, x: TIn::V, i: int) -> bool {
    m.tasks.contains_key(TIn::spec_dependencies(x)[i])
}

/// Whatever a task depends on is a task too, but for the tasks that are
/// `pending`.
pub open spec fn closed<TIn: GraphIn, O, E>(m: GraphModel<TIn::V, O, E>, pending: Set<TIn::V>) -> bool {
    forall|x: TIn::V, i: int|
        m.tasks.contains_key(x) && !pending.contains(x) && 0 <= i < TIn::spec_dependencies(
            x,
        ).len() ==> #[trigger] knows::<TIn, O, E>(m, x, i)
}

/// `k` waits on each of its first `n` dependencies that has not succeeded.
pub open spec fn linked_upto<TIn: GraphIn, O, E>(
    m: GraphModel<TIn::V, O, E>,
    k: TIn::V,
    n: nat,
) -> bool {
    forall|i: int|
        0 <= i < n && i < TIn::spec_dependencies(k).len() && !m.success.contains_key(
            TIn::spec_dependencies(k)[i],
        ) ==> #[trigger] waits::<TIn, O, E>(m, k, i)
}

/// The first `n` dependencies of `k` are tasks.
pub open spec fn closed_upto<TIn: GraphIn, O, E>(
    m: GraphModel<TIn::V, O, E>,
    k: TIn::V,
    n: nat,
) -> bool {
    forall|i: int|
        0 <= i < n && i < TIn::spec_dependencies(k).len() ==> #[trigger] knows::<TIn, O, E>(
            m,
            k,
            i,
        )
}

/// The engine forgets nothing.
pub open spec fn model_live<TIn: GraphIn, O, E>(
    m: GraphModel<TIn::V, O, E>,
    pending: Set<TIn::V>,
    homeless: Set<TIn::V>,
) -> bool {
    &&& counted(m)
    &&& placed(m, homeless)
    &&& linked::<TIn, O, E>(m, pending)
    &&& closed::<TIn, O, E>(m, pending)
}

/// Whoever waited in `a` still waits in `b`, tasks and what is enrolled
/// stay, and results are the same.
pub open spec fn keeps<K, O, E>(a: GraphModel<K, O, E>, b: GraphModel<K, O, E>) -> bool {
    &&& b.success == a.success
    &&& b.running == a.running
    &&& b.failed == a.failed
    &&& forall|d: K, x: K| #[trigger]
        waiting_on(a, d).contains(x) ==> waiting_on(b, d).contains(x)
    &&& forall|k: K| #[trigger]
        a.tasks.contains_key(k) ==> b.tasks.contains_key(k) && b.tasks[k] == a.tasks[k]
    &&& forall|k: K| #[trigger] a.ready.contains(k) ==> b.ready.contains(k)
}

proof fn lemma_keeps_trans<K, O, E>(
    a: GraphModel<K, O, E>,
    b: GraphModel<K, O, E>,
    c: GraphModel<K, O, E>,
)
    requires
        keeps(a, b),
        keeps(b, c),
    ensures
        keeps(a, c),
{
}

proof fn lemma_count_all<K, O>(deps: Seq<K>, success: Map<K, O>)
    requires
        forall|i: int| 0 <= i < deps.len() ==> success.contains_key(#[trigger] deps[i]),
    ensures
        succeeded_count(deps, success) == deps.len(),
    decreases deps.len(),
{
    if deps.len() > 0 {
        assert forall|i: int| 0 <= i < deps.drop_last().len() implies success.contains_key(
            #[trigger] deps.drop_last()[i],
        ) by {
            assert(deps.drop_last()[i] == deps[i]);
        }
        lemma_count_all(deps.drop_last(), success);
        assert(deps.last() == deps[deps.len() - 1]);
    }
}

proof fn lemma_push_contains<K>(s: Seq<K>, k: K, x: K)
    ensures
        s.push(k).contains(k),
        s.contains(x) ==> s.push(k).contains(x),
        s.push(k).contains(x) ==> s.contains(x) || x == k,
{
    assert(s.push(k)[s.len() as int] == k);
    if s.contains(x) {
        let i = choose|i: int| 0 <= i < s.len() && s[i] == x;
        assert(s.push(k)[i] == x);
    }
    if s.push(k).contains(x) {
        let i = choose|i: int| 0 <= i < s.push(k).len() && s.push(k)[i] == x;
        if i < s.len() {
            assert(s[i] == x);
        }
    }
}

proof fn lemma_enlist_live<TIn: GraphIn, O, E>(
    m: GraphModel<TIn::V, O, E>,
    k: TIn::V,
    pending: Set<TIn::V>,
    homeless: Set<TIn::V>,
)
    requires
        model_wf::<TIn, O, E>(m),
        model_live::<TIn, O, E>(m, pending, homeless),
        !m.tasks.contains_key(k),
    ensures
        model_live::<TIn, O, E>(enlist_model::<TIn, O, E>(m, k), pending.insert(k), homeless),
        keeps(m, enlist_model::<TIn, O, E>(m, k)),
{
    let m1 = enlist_model::<TIn, O, E>(m, k);
    assert forall|x: TIn::V| #[trigger] m.ready.contains(x) implies m1.ready.contains(x) by {
        lemma_push_contains(m.ready, k, x);
    }
    lemma_push_contains(m.ready, k, k);
    assert forall|x: TIn::V, i: int|
        m1.tasks.contains_key(x) && !pending.insert(k).contains(x) && 0 <= i
            < TIn::spec_dependencies(x).len() && !m1.success.contains_key(
            TIn::spec_dependencies(x)[i],
        ) implies #[trigger] waits::<TIn, O, E>(m1, x, i) by {
        assert(waits::<TIn, O, E>(m, x, i));
    }
    assert forall|x: TIn::V, i: int|
        m1.tasks.contains_key(x) && !pending.insert(k).contains(x) && 0 <= i
            < TIn::spec_dependencies(x).len() implies #[trigger] knows::<TIn, O, E>(m1, x, i) by {
        assert(knows::<TIn, O, E>(m, x, i));
    }
}

/// Linking one dependency of `k` and registering it forgets nothing, and
/// `k` then waits on one dependency more.
proof fn lemma_link_step_live<TIn: GraphIn, O, E>(
    m: GraphModel<TIn::V, O, E>,
    k: TIn::V,
    i: nat,
    pending: Set<TIn::V>,
    homeless: Set<TIn::V>,
)
    requires
        linking::<TIn, O, E>(m, k, i),
        i < TIn::spec_dependencies(k).len(),
        model_live::<TIn, O, E>(m, pending.insert(k), homeless),
        linked_upto::<TIn, O, E>(m, k, i),
        closed_upto::<TIn, O, E>(m, k, i),
    ensures
        model_live::<TIn, O, E>(
            register_model::<TIn, O, E>(
                wait_model(m, TIn::spec_dependencies(k)[i as int], k),
                TIn::spec_dependencies(k)[i as int],
            ),
            pending.insert(k),
            homeless,
        ),
        closed_upto::<TIn, O, E>(
            register_model::<TIn, O, E>(
                wait_model(m, TIn::spec_dependencies(k)[i as int], k),
                TIn::spec_dependencies(k)[i as int],
            ),
            k,
            i + 1,
        ),
        linked_upto::<TIn, O, E>(
            register_model::<TIn, O, E>(
                wait_model(m, TIn::spec_dependencies(k)[i as int], k),
                TIn::spec_dependencies(k)[i as int],
            ),
            k,
            i + 1,
        ),
        keeps(
            m,
            register_model::<TIn, O, E>(
                wait_model(m, TIn::spec_dependencies(k)[i as int], k),
                TIn::spec_dependencies(k)[i as int],
            ),
        ),
    decreases TIn::rank(k), 0nat, TIn::spec_dependencies(k).len() - i, 0nat,
{
    let deps = TIn::spec_dependencies(k);
    let d = deps[i as int];
    let m1 = wait_model(m, d, k);
    lemma_link_step::<TIn, O, E>(m, k, i);
    assert(keeps(m, m1)) by {
        assert forall|e: TIn::V, x: TIn::V| #[trigger]
            waiting_on(m, e).contains(x) implies waiting_on(m1, e).contains(x) by {
            if e == d {
                lemma_push_contains(waiting_on(m, d), k, x);
            }
        }
    }
    assert(waiting_on(m1, d).contains(k)) by {
        lemma_push_contains(waiting_on(m, d), k, k);
    }
    assert(linked::<TIn, O, E>(m1, pending.insert(k))) by {
        assert forall|x: TIn::V, j: int|
            m1.tasks.contains_key(x) && !pending.insert(k).contains(x) && 0 <= j
                < TIn::spec_dependencies(x).len() && !m1.success.contains_key(
                TIn::spec_dependencies(x)[j],
            ) implies #[trigger] waits::<TIn, O, E>(m1, x, j) by {
            assert(waits::<TIn, O, E>(m, x, j));
        }
    }
    assert(linked_upto::<TIn, O, E>(m1, k, i + 1)) by {
        assert forall|j: int|
            0 <= j < i + 1 && j < deps.len() && !m1.success.contains_key(
                deps[j],
            ) implies #[trigger] waits::<TIn, O, E>(m1, k, j) by {
            if j < i {
                assert(waits::<TIn, O, E>(m, k, j));
            }
        }
    }
    assert(counted(m1));
    assert(placed(m1, homeless));
    assert(closed::<TIn, O, E>(m1, pending.insert(k))) by {
        assert forall|x: TIn::V, j: int|
            m1.tasks.contains_key(x) && !pending.insert(k).contains(x) && 0 <= j
                < TIn::spec_dependencies(x).len() implies #[trigger] knows::<TIn, O, E>(
            m1,
            x,
            j,
        ) by {
            assert(knows::<TIn, O, E>(m, x, j));
        }
    }
    lemma_register_live::<TIn, O, E>(m1, d, pending.insert(k), homeless);
    lemma_register::<TIn, O, E>(m1, d);
    let m2 = register_model::<TIn, O, E>(m1, d);
    assert(closed_upto::<TIn, O, E>(m2, k, i + 1)) by {
        assert forall|j: int| 0 <= j < i + 1 && j < deps.len() implies #[trigger] knows::<
            TIn,
            O,
            E,
        >(m2, k, j) by {
            if j < i {
                assert(knows::<TIn, O, E>(m, k, j));
                assert(m1.tasks.contains_key(deps[j]));
            }
        }
    }
    assert(linked_upto::<TIn, O, E>(m2, k, i + 1)) by {
        assert forall|j: int|
            0 <= j < i + 1 && j < deps.len() && !m2.success.contains_key(
                deps[j],
            ) implies #[trigger] waits::<TIn, O, E>(m2, k, j) by {
            assert(waits::<TIn, O, E>(m1, k, j));
        }
    }
    lemma_keeps_trans(m, m1, m2);
}

/// Registering forgets nothing.
pub proof fn lemma_register_live<TIn: GraphIn, O, E>(
    m: GraphModel<TIn::V, O, E>,
    k: TIn::V,
    pending: Set<TIn::V>,
    homeless: Set<TIn::V>,
)
    requires
        model_wf::<TIn, O, E>(m),
        model_live::<TIn, O, E>(m, pending, homeless),
    ensures
        model_live::<TIn, O, E>(register_model::<TIn, O, E>(m, k), pending, homeless),
        keeps(m, register_model::<TIn, O, E>(m, k)),
    decreases TIn::rank(k), 1nat, 0nat, 0nat,
{
    if !m.tasks.contains_key(k) {
        let m1 = enlist_model::<TIn, O, E>(m, k);
        lemma_enlist::<TIn, O, E>(m, k);
        lemma_enlist_live::<TIn, O, E>(m, k, pending, homeless);
        assert(linked_upto::<TIn, O, E>(m1, k, 0));
        assert(closed_upto::<TIn, O, E>(m1, k, 0));
        lemma_link_live::<TIn, O, E>(m1, k, 0, pending, homeless);
        lemma_keeps_trans(m, m1, link_model::<TIn, O, E>(m1, k, 0));
        if pending.contains(k) {
            assert(pending.insert(k) =~= pending);
        }
    }
}

proof fn lemma_link_live<TIn: GraphIn, O, E>(
    m: GraphModel<TIn::V, O, E>,
    k: TIn::V,
    i: nat,
    pending: Set<TIn::V>,
    homeless: Set<TIn::V>,
)
    requires
        linking::<TIn, O, E>(m, k, i),
        model_live::<TIn, O, E>(m, pending.insert(k), homeless),
        linked_upto::<TIn, O, E>(m, k, i),
        closed_upto::<TIn, O, E>(m, k, i),
    ensures
        model_live::<TIn, O, E>(link_model::<TIn, O, E>(m, k, i), pending, homeless)
            || pending.contains(k),
        model_live::<TIn, O, E>(link_model::<TIn, O, E>(m, k, i), pending.insert(k), homeless),
        linked_upto::<TIn, O, E>(
            link_model::<TIn, O, E>(m, k, i),
            k,
            TIn::spec_dependencies(k).len(),
        ),
        keeps(m, link_model::<TIn, O, E>(m, k, i)),
    decreases TIn::rank(k), 0nat, TIn::spec_dependencies(k).len() - i, 1nat,
{
    let deps = TIn::spec_dependencies(k);
    if i >= deps.len() {
        if !pending.contains(k) {
            assert(linked::<TIn, O, E>(m, pending)) by {
                assert forall|x: TIn::V, j: int|
                    m.tasks.contains_key(x) && !pending.contains(x) && 0 <= j
                        < TIn::spec_dependencies(x).len() && !m.success.contains_key(
                        TIn::spec_dependencies(x)[j],
                    ) implies #[trigger] waits::<TIn, O, E>(m, x, j) by {
                    if x != k {
                        assert(pending.insert(k).contains(x) == pending.contains(x));
                    }
                }
            }
            assert(closed::<TIn, O, E>(m, pending)) by {
                assert forall|x: TIn::V, j: int|
                    m.tasks.contains_key(x) && !pending.contains(x) && 0 <= j
                        < TIn::spec_dependencies(x).len() implies #[trigger] knows::<TIn, O, E>(
                    m,
                    x,
                    j,
                ) by {
                    if x != k {
                        assert(pending.insert(k).contains(x) == pending.contains(x));
                    }
                }
            }
        }
    } else {
        let d = deps[i as int];
        lemma_link_step::<TIn, O, E>(m, k, i);
        lemma_link_step_live::<TIn, O, E>(m, k, i, pending, homeless);
        let m2 = register_model::<TIn, O, E>(wait_model(m, d, k), d);
        lemma_link_live::<TIn, O, E>(m2, k, i + 1, pending, homeless);
        lemma_keeps_trans(m, m2, link_model::<TIn, O, E>(m2, k, i + 1));
    }
}

pub proof fn lemma_register_all_live<TIn: GraphIn, O, E>(
    m: GraphModel<TIn::V, O, E>,
    ops: Seq<TIn::V>,
    i: nat,
    homeless: Set<TIn::V>,
)
    requires
        model_wf::<TIn, O, E>(m),
        model_live::<TIn, O, E>(m, Set::empty(), homeless),
    ensures
        model_live::<TIn, O, E>(
            register_all_model::<TIn, O, E>(m, ops, i),
            Set::empty(),
            homeless,
        ),
    decreases ops.len() - i,
{
    if i < ops.len() {
        lemma_register::<TIn, O, E>(m, ops[i as int]);
        lemma_register_live::<TIn, O, E>(m, ops[i as int], Set::empty(), homeless);
        lemma_register_all_live::<TIn, O, E>(
            register_model::<TIn, O, E>(m, ops[i as int]),
            ops,
            i + 1,
            homeless,
        );
    }
}

/// In the middle of waking: those still to be told have yet to count the
/// success of `k`; everybody else has counted everything.
pub open spec fn waking_live<TIn: GraphIn, O, E>(
    s: GraphModel<TIn::V, O, E>,
    k: TIn::V,
    waiting: Seq<TIn::V>,
    i: nat,
) -> bool {
    &&& forall|x: TIn::V| #[trigger]
        s.tasks.contains_key(x) ==> s.tasks[x].resolved + (if waiting.skip(i as int).contains(x) {
            occurrences(TIn::spec_dependencies(x), k)
        } else {
            0
        }) == succeeded_count(TIn::spec_dependencies(x), s.success)
    &&& placed(s, Set::empty())
    &&& linked::<TIn, O, E>(s, Set::empty())
    &&& closed::<TIn, O, E>(s, Set::empty())
}

proof fn lemma_succeed_live<TIn: GraphIn, O, E>(m: GraphModel<TIn::V, O, E>, k: TIn::V, o: O)
    requires
        model_wf::<TIn, O, E>(m),
        can_accept::<TIn, O, E>(m, k),
        model_live::<TIn, O, E>(m, Set::empty(), set![k]),
    ensures
        waking_live::<TIn, O, E>(succeed_model(m, k, o), k, waiting_on(m, k), 0),
{
    let m1 = succeed_model(m, k, o);
    let waiting = waiting_on(m, k);
    assert(waiting.skip(0) =~= waiting);
    assert forall|x: TIn::V| #[trigger] m1.tasks.contains_key(x) implies m1.tasks[x].resolved + (
    if waiting.skip(0).contains(x) {
        occurrences(TIn::spec_dependencies(x), k)
    } else {
        0
    }) == succeeded_count(TIn::spec_dependencies(x), m1.success) by {
        let deps = TIn::spec_dependencies(x);
        lemma_count_insert(deps, m.success, k, o);
        if !waiting.contains(x) {
            if deps.contains(k) {
                let i = choose|i: int| 0 <= i < deps.len() && deps[i] == k;
                assert(waits::<TIn, O, E>(m, x, i));
            }
            lemma_occurrences_none(deps, k);
        }
    }
    assert(placed(m1, Set::empty()));
    assert(linked::<TIn, O, E>(m1, Set::empty())) by {
        assert forall|x: TIn::V, j: int|
            m1.tasks.contains_key(x) && 0 <= j < TIn::spec_dependencies(x).len()
                && !m1.success.contains_key(
                TIn::spec_dependencies(x)[j],
            ) implies #[trigger] waits::<TIn, O, E>(m1, x, j) by {
            assert(waits::<TIn, O, E>(m, x, j));
        }
    }
    assert(closed::<TIn, O, E>(m1, Set::empty())) by {
        assert forall|x: TIn::V, j: int|
            m1.tasks.contains_key(x) && 0 <= j < TIn::spec_dependencies(
                x,
            ).len() implies #[trigger] knows::<TIn, O, E>(m1, x, j) by {
            assert(knows::<TIn, O, E>(m, x, j));
        }
    }
}

proof fn lemma_wake_live<TIn: GraphIn, O, E>(
    s: GraphModel<TIn::V, O, E>,
    k: TIn::V,
    waiting: Seq<TIn::V>,
    i: nat,
)
    requires
        waking::<TIn, O, E>(s, k, waiting, i),
        waking_live::<TIn, O, E>(s, k, waiting, i),
    ensures
        model_live::<TIn, O, E>(wake_model(s, k, waiting, i), Set::empty(), Set::empty()),
    decreases waiting.len() - i,
{
    if i >= waiting.len() {
        assert(waiting.skip(i as int) =~= Seq::empty());
        assert forall|x: TIn::V| #[trigger] s.tasks.contains_key(x) implies s.tasks[x].resolved
            == succeeded_count(s.tasks[x].dependencies, s.success) by {
            assert(!waiting.skip(i as int).contains(x));
        }
    } else {
        let x = waiting[i as int];
        let s1 = nudge_model(s, k, x);
        lemma_wake_step::<TIn, O, E>(s, k, waiting, i);
        let rest = waiting.skip(i as int);
        let next = waiting.skip(i as int + 1);
        assert(rest[0] == x);
        assert(rest.contains(x));
        assert(!next.contains(x)) by {
            if next.contains(x) {
                let j = choose|j: int| 0 <= j < next.len() && next[j] == x;
                assert(waiting[i as int + 1 + j] == x);
            }
        }
        assert forall|y: TIn::V| y != x implies rest.contains(y) == next.contains(y) by {
            if rest.contains(y) {
                let j = choose|j: int| 0 <= j < rest.len() && rest[j] == y;
                assert(next[j - 1] == y);
            }
            if next.contains(y) {
                let j = choose|j: int| 0 <= j < next.len() && next[j] == y;
                assert(rest[j + 1] == y);
            }
        }
        assert forall|y: TIn::V| #[trigger] s1.tasks.contains_key(y) implies s1.tasks[y].resolved
            + (if next.contains(y) {
            occurrences(TIn::spec_dependencies(y), k)
        } else {
            0
        }) == succeeded_count(TIn::spec_dependencies(y), s1.success) by {
            assert(s.tasks.contains_key(y));
        }
        assert(placed(s1, Set::empty())) by {
            assert forall|y: TIn::V| #[trigger]
                s1.tasks.contains_key(y) && s1.tasks[y].resolved
                    == s1.tasks[y].dependencies.len() implies enrolled(s1, y) by {
                if y == x {
                    lemma_push_contains(s.ready, x, x);
                } else {
                    assert(s.tasks.contains_key(y));
                    assert(enrolled(s, y));
                    lemma_push_contains(s.ready, x, y);
                }
            }
        }
        assert(linked::<TIn, O, E>(s1, Set::empty())) by {
            assert forall|y: TIn::V, j: int|
                s1.tasks.contains_key(y) && 0 <= j < TIn::spec_dependencies(y).len()
                    && !s1.success.contains_key(
                    TIn::spec_dependencies(y)[j],
                ) implies #[trigger] waits::<TIn, O, E>(s1, y, j) by {
                assert(s.tasks.contains_key(y));
                assert(waits::<TIn, O, E>(s, y, j));
            }
        }
        assert(closed::<TIn, O, E>(s1, Set::empty())) by {
            assert forall|y: TIn::V, j: int|
                s1.tasks.contains_key(y) && 0 <= j < TIn::spec_dependencies(
                    y,
                ).len() implies #[trigger] knows::<TIn, O, E>(s1, y, j) by {
                assert(s.tasks.contains_key(y));
                assert(knows::<TIn, O, E>(s, y, j));
            }
        }
        lemma_wake_live::<TIn, O, E>(s1, k, waiting, i + 1);
    }
}

/// Accepting forgets nothing, and gives the accepted operation its place.
pub proof fn lemma_accept_live<TIn: GraphIn, O, E>(
    m: GraphModel<TIn::V, O, E>,
    k: TIn::V,
    o: O,
    follow_ups: Seq<TIn::V>,
)
    requires
        model_wf::<TIn, O, E>(m),
        can_accept::<TIn, O, E>(m, k),
        model_live::<TIn, O, E>(m, Set::empty(), set![k]),
    ensures
        model_live::<TIn, O, E>(
            accept_model::<TIn, O, E>(m, k, o, follow_ups),
            Set::empty(),
            Set::empty(),
        ),
{
    let m1 = succeed_model(m, k, o);
    let waiting = waiting_on(m, k);
    lemma_succeed::<TIn, O, E>(m, k, o);
    lemma_succeed_live::<TIn, O, E>(m, k, o);
    lemma_wake::<TIn, O, E>(m1, k, waiting, 0);
    lemma_wake_live::<TIn, O, E>(m1, k, waiting, 0);
    lemma_register_all_live::<TIn, O, E>(
        wake_model(m1, k, waiting, 0),
        follow_ups,
        0,
        Set::empty(),
    );
}

/// `k` is known but is nowhere: it has neither succeeded nor failed, and is
/// neither ready nor in flight.
pub open spec fn stranded<K, O, E>(m: GraphModel<K, O, E>, k: K) -> bool {
    m.tasks.contains_key(k) && !enrolled(m, k)
}

/// An operation that is nowhere waits on a dependency that has not
/// succeeded. When nothing is ready or in flight any more, that is why it
/// was never run.
pub proof fn law_stranded_waits<TIn: GraphIn, O, E>(m: GraphModel<TIn::V, O, E>, k: TIn::V)
    requires
        model_wf::<TIn, O, E>(m),
        model_live::<TIn, O, E>(m, Set::empty(), Set::empty()),
        stranded(m, k),
    ensures
        exists|i: int|
            0 <= i < TIn::spec_dependencies(k).len() && !m.success.contains_key(
                #[trigger] TIn::spec_dependencies(k)[i],
            ),
{
    let deps = TIn::spec_dependencies(k);
    assert(m.tasks[k].dependencies == deps);
    if forall|i: int| 0 <= i < deps.len() ==> m.success.contains_key(#[trigger] deps[i]) {
        lemma_count_all(deps, m.success);
        assert(enrolled(m, k));
    }
}

/// A chain from `k` down to a failure: each operation in it depends on the
/// next, all but the last are nowhere, and the last has failed.
pub open spec fn blocked_chain<TIn: GraphIn, O, E>(
    m: GraphModel<TIn::V, O, E>,
    k: TIn::V,
    chain: Seq<TIn::V>,
) -> bool {
    &&& chain.len() >= 2
    &&& chain[0] == k
    &&& forall|i: int|
        0 <= i < chain.len() - 1 ==> stranded(m, #[trigger] chain[i]) && TIn::spec_dependencies(
            chain[i],
        ).contains(chain[i + 1])
    &&& failed_keys(m.failed).contains(chain.last())
}

/// When nothing is ready or in flight any more, every operation that is
/// left over is blocked by a failure: from it a chain of dependencies leads
/// to an operation that failed.
pub proof fn law_blocked_by_failure<TIn: GraphIn, O, E>(m: GraphModel<TIn::V, O, E>, k: TIn::V) -> (chain:
    Seq<TIn::V>)
    requires
        model_wf::<TIn, O, E>(m),
        model_live::<TIn, O, E>(m, Set::empty(), Set::empty()),
        m.ready.len() == 0,
        m.running.len() == 0,
        stranded(m, k),
    ensures
        blocked_chain::<TIn, O, E>(m, k, chain),
    decreases TIn::rank(k),
{
    law_stranded_waits::<TIn, O, E>(m, k);
    let deps = TIn::spec_dependencies(k);
    let i = choose|i: int| 0 <= i < deps.len() && !m.success.contains_key(#[trigger] deps[i]);
    let d = deps[i];
    assert(knows::<TIn, O, E>(m, k, i));
    TIn::lemma_dependencies(k);
    assert(deps.contains(d));
    if failed_keys(m.failed).contains(d) {
        let chain = seq![k, d];
        assert(chain[0] == k && chain[1] == d);
        chain
    } else {
        assert(stranded(m, d));
        let rest = law_blocked_by_failure::<TIn, O, E>(m, d);
        let chain = seq![k] + rest;
        assert(chain[0] == k);
        assert(chain.last() == rest.last());
        assert forall|j: int| 0 <= j < chain.len() - 1 implies stranded(m, #[trigger] chain[j])
            && TIn::spec_dependencies(chain[j]).contains(chain[j + 1]) by {
            if j == 0 {
                assert(chain[1] == rest[0]);
            } else {
                assert(chain[j] == rest[j - 1]);
                assert(chain[j + 1] == rest[j]);
            }
        }
        chain
    }
}

} // verus!
