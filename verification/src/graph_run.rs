//! Runs of the engine: what holds of every sequence of moves, whatever the
//! order in which flights end and whatever they bring back.
use crate::graph::{
    landed_model, lemma_fail_keeps, lemma_land_keeps, lemma_pop_keeps, lemma_takeoff_keeps,
    popped_model, GraphCache, GraphIn, GraphOut,
};
use crate::graph_model::{
    accept_model, failed_keys, lemma_accept, lemma_register, model_wf, register_model, GraphModel,
};
use vstd::prelude::*;

verus! {

/// One move of the engine.
pub enum Move<K, O, E> {
    /// An operation is made known.
    Register { op: K },
    /// The operation on top of the ready stack is handed out to be run.
    Launch,
    /// The operation on top of the ready stack is served from the cache.
    Serve,
    /// A flight ends with an output.
    Succeed { op: K, output: O },
    /// A flight ends with an error.
    Fail { op: K, error: E },
}

/// Whether the engine may make the move in the state `m`. An operation
/// leaves the ready stack only while there is room under the cap, to be
/// run where the cache does not know it and to be served where it does;
/// only a flight can end.
pub open spec fn may<TIn: GraphIn, TOut: GraphOut<TIn>, TErr, C: GraphCache<TIn, TOut>>(
    cache: C,
    limit: nat,
    m: GraphModel<TIn::V, TOut::V, TErr>,
    mv: Move<TIn::V, TOut::V, TErr>,
) -> bool {
    match mv {
        Move::Register { .. } => true,
        Move::Launch => m.ready.len() > 0 && m.running.len() < limit && cache.spec_cached(
            m.ready.last(),
        ) is None,
        Move::Serve => m.ready.len() > 0 && m.running.len() < limit && cache.spec_cached(
            m.ready.last(),
        ) is Some,
        Move::Succeed { op, .. } => m.running.contains(op),
        Move::Fail { op, .. } => m.running.contains(op),
    }
}

/// The state after the move.
pub open spec fn after<TIn: GraphIn, TOut: GraphOut<TIn>, TErr, C: GraphCache<TIn, TOut>>(
    cache: C,
    m: GraphModel<TIn::V, TOut::V, TErr>,
    mv: Move<TIn::V, TOut::V, TErr>,
) -> GraphModel<TIn::V, TOut::V, TErr> {
    match mv {
        Move::Register { op } => register_model::<TIn, TOut::V, TErr>(m, op),
        Move::Launch => GraphModel { running: m.running.push(m.ready.last()), ..popped_model(m) },
        Move::Serve => accept_model::<TIn, TOut::V, TErr>(
            popped_model(m),
            m.ready.last(),
            cache.spec_cached(m.ready.last())->0,
            TOut::spec_follow_ups(cache.spec_cached(m.ready.last())->0),
        ),
        Move::Succeed { op, output } => accept_model::<TIn, TOut::V, TErr>(
            landed_model(m, op),
            op,
            output,
            TOut::spec_follow_ups(output),
        ),
        Move::Fail { op, error } => GraphModel {
            failed: m.failed.push((op, error)),
            ..landed_model(m, op)
        },
    }
}

/// The state after the first `n` moves.
pub open spec fn state_at<TIn: GraphIn, TOut: GraphOut<TIn>, TErr, C: GraphCache<TIn, TOut>>(
    cache: C,
    start: GraphModel<TIn::V, TOut::V, TErr>,
    moves: Seq<Move<TIn::V, TOut::V, TErr>>,
    n: nat,
) -> GraphModel<TIn::V, TOut::V, TErr>
    decreases n,
{
    if n == 0 {
        start
    } else {
        after::<TIn, TOut, TErr, C>(
            cache,
            state_at::<TIn, TOut, TErr, C>(cache, start, moves, (n - 1) as nat),
            moves[n - 1],
        )
    }
}

/// Whether the moves are a run from `start`: each may be made in the state
/// that the moves before it lead to.
pub open spec fn is_run<TIn: GraphIn, TOut: GraphOut<TIn>, TErr, C: GraphCache<TIn, TOut>>(
    cache: C,
    limit: nat,
    start: GraphModel<TIn::V, TOut::V, TErr>,
    moves: Seq<Move<TIn::V, TOut::V, TErr>>,
) -> bool {
    forall|i: nat|
        i < moves.len() ==> may::<TIn, TOut, TErr, C>(
            cache,
            limit,
            #[trigger] state_at::<TIn, TOut, TErr, C>(cache, start, moves, i),
            moves[i as int],
        )
}

/// Whether the `i`-th move hands `k` out to be run.
pub open spec fn launches<TIn: GraphIn, TOut: GraphOut<TIn>, TErr, C: GraphCache<TIn, TOut>>(
    cache: C,
    start: GraphModel<TIn::V, TOut::V, TErr>,
    moves: Seq<Move<TIn::V, TOut::V, TErr>>,
    i: nat,
    k: TIn::V,
) -> bool {
    i < moves.len() && moves[i as int] is Launch && state_at::<TIn, TOut, TErr, C>(
        cache,
        start,
        moves,
        i,
    ).ready.last() == k
}

/// Whether the `i`-th move serves `k` from the cache.
pub open spec fn serves<TIn: GraphIn, TOut: GraphOut<TIn>, TErr, C: GraphCache<TIn, TOut>>(
    cache: C,
    start: GraphModel<TIn::V, TOut::V, TErr>,
    moves: Seq<Move<TIn::V, TOut::V, TErr>>,
    i: nat,
    k: TIn::V,
) -> bool {
    i < moves.len() && moves[i as int] is Serve && state_at::<TIn, TOut, TErr, C>(
        cache,
        start,
        moves,
        i,
    ).ready.last() == k
}

/// Whether `k` has left the ready stack for good: it is in flight, has
/// succeeded or has failed.
pub open spec fn handled<K, O, E>(m: GraphModel<K, O, E>, k: K) -> bool {
    m.running.contains(k) || m.success.contains_key(k) || failed_keys(m.failed).contains(k)
}

/// A move that may be made keeps the invariant, and what was handled stays
/// handled.
pub proof fn lemma_move<TIn: GraphIn, TOut: GraphOut<TIn>, TErr, C: GraphCache<TIn, TOut>>(
    cache: C,
    limit: nat,
    m: GraphModel<TIn::V, TOut::V, TErr>,
    mv: Move<TIn::V, TOut::V, TErr>,
)
    requires
        model_wf::<TIn, TOut::V, TErr>(m),
        may::<TIn, TOut, TErr, C>(cache, limit, m, mv),
    ensures
        model_wf::<TIn, TOut::V, TErr>(after::<TIn, TOut, TErr, C>(cache, m, mv)),
        forall|k: TIn::V| handled(m, k) ==> handled(after::<TIn, TOut, TErr, C>(cache, m, mv), k),
        (mv is Launch || mv is Serve) ==> handled(
            after::<TIn, TOut, TErr, C>(cache, m, mv),
            m.ready.last(),
        ),
{
    let n = after::<TIn, TOut, TErr, C>(cache, m, mv);
    match mv {
        Move::Register { op } => {
            lemma_register::<TIn, TOut::V, TErr>(m, op);
        },
        Move::Launch => {
            lemma_takeoff_keeps::<TIn, TOut::V, TErr>(m);
            assert(n.running.last() == m.ready.last());
            assert forall|k: TIn::V| handled(m, k) implies handled(n, k) by {
                if m.running.contains(k) {
                    let i = choose|i: int| 0 <= i < m.running.len() && m.running[i] == k;
                    assert(n.running[i] == k);
                }
            }
        },
        Move::Serve => {
            let top = m.ready.last();
            let out = cache.spec_cached(top)->0;
            lemma_pop_keeps::<TIn, TOut::V, TErr>(m);
            lemma_accept::<TIn, TOut::V, TErr>(
                popped_model(m),
                top,
                out,
                TOut::spec_follow_ups(out),
            );
        },
        Move::Succeed { op, output } => {
            let i = choose|i: int| 0 <= i < m.running.len() && m.running[i] == op;
            lemma_land_keeps::<TIn, TOut::V, TErr>(m, op, i);
            let landed = landed_model(m, op);
            lemma_accept::<TIn, TOut::V, TErr>(landed, op, output, TOut::spec_follow_ups(output));
            assert forall|k: TIn::V| handled(m, k) implies handled(n, k) by {
                if m.running.contains(k) && k != op {
                    lemma_still_in_flight(m.running, i, k);
                }
            }
        },
        Move::Fail { op, error } => {
            let i = choose|i: int| 0 <= i < m.running.len() && m.running[i] == op;
            lemma_land_keeps::<TIn, TOut::V, TErr>(m, op, i);
            let landed = landed_model(m, op);
            lemma_fail_keeps::<TIn, TOut::V, TErr>(landed, op, error);
            assert(failed_keys(n.failed)[m.failed.len() as int] == op);
            assert forall|k: TIn::V| handled(m, k) implies handled(n, k) by {
                if m.running.contains(k) && k != op {
                    lemma_still_in_flight(m.running, i, k);
                }
                if failed_keys(m.failed).contains(k) {
                    let j = choose|j: int|
                        0 <= j < failed_keys(m.failed).len() && failed_keys(m.failed)[j] == k;
                    assert(failed_keys(n.failed)[j] == k);
                }
            }
        },
    }
}

proof fn lemma_still_in_flight<K>(running: Seq<K>, i: int, k: K)
    requires
        0 <= i < running.len(),
        running.contains(k),
        running[i] != k,
    ensures
        running.remove(i).contains(k),
{
    let j = choose|j: int| 0 <= j < running.len() && running[j] == k;
    if j < i {
        assert(running.remove(i)[j] == k);
    } else {
        assert(running.remove(i)[j - 1] == k);
    }
}

/// The invariant of the engine holds all along a run that starts where it
/// holds; so at every point of a run no operation is ready twice, in two
/// places at once, or both succeeded and failed.
pub proof fn law_run_keeps_invariant<
    TIn: GraphIn,
    TOut: GraphOut<TIn>,
    TErr,
    C: GraphCache<TIn, TOut>,
>(
    cache: C,
    limit: nat,
    start: GraphModel<TIn::V, TOut::V, TErr>,
    moves: Seq<Move<TIn::V, TOut::V, TErr>>,
    n: nat,
)
    requires
        model_wf::<TIn, TOut::V, TErr>(start),
        is_run::<TIn, TOut, TErr, C>(cache, limit, start, moves),
        n <= moves.len(),
    ensures
        model_wf::<TIn, TOut::V, TErr>(state_at::<TIn, TOut, TErr, C>(cache, start, moves, n)),
    decreases n,
{
    if n > 0 {
        let before = (n - 1) as nat;
        law_run_keeps_invariant::<TIn, TOut, TErr, C>(cache, limit, start, moves, before);
        lemma_move::<TIn, TOut, TErr, C>(
            cache,
            limit,
            state_at::<TIn, TOut, TErr, C>(cache, start, moves, before),
            moves[before as int],
        );
    }
}

/// What is handled at one point of a run is handled at every later point.
pub proof fn lemma_handled_for_good<
    TIn: GraphIn,
    TOut: GraphOut<TIn>,
    TErr,
    C: GraphCache<TIn, TOut>,
>(
    cache: C,
    limit: nat,
    start: GraphModel<TIn::V, TOut::V, TErr>,
    moves: Seq<Move<TIn::V, TOut::V, TErr>>,
    i: nat,
    j: nat,
    k: TIn::V,
)
    requires
        model_wf::<TIn, TOut::V, TErr>(start),
        is_run::<TIn, TOut, TErr, C>(cache, limit, start, moves),
        i <= j <= moves.len(),
        handled(state_at::<TIn, TOut, TErr, C>(cache, start, moves, i), k),
    ensures
        handled(state_at::<TIn, TOut, TErr, C>(cache, start, moves, j), k),
    decreases j,
{
    if i < j {
        let before = (j - 1) as nat;
        lemma_handled_for_good::<TIn, TOut, TErr, C>(cache, limit, start, moves, i, before, k);
        law_run_keeps_invariant::<TIn, TOut, TErr, C>(cache, limit, start, moves, before);
        lemma_move::<TIn, TOut, TErr, C>(
            cache,
            limit,
            state_at::<TIn, TOut, TErr, C>(cache, start, moves, before),
            moves[before as int],
        );
    }
}

/// Over a whole run an operation leaves the ready stack at most once,
/// however often it was registered, declared as a dependency or called for
/// by an output: once it was handed out to be run or served from the
/// cache, no later move hands it out or serves it.
pub proof fn law_handed_out_once<
    TIn: GraphIn,
    TOut: GraphOut<TIn>,
    TErr,
    C: GraphCache<TIn, TOut>,
>(
    cache: C,
    limit: nat,
    start: GraphModel<TIn::V, TOut::V, TErr>,
    moves: Seq<Move<TIn::V, TOut::V, TErr>>,
    i: nat,
    j: nat,
    k: TIn::V,
)
    requires
        model_wf::<TIn, TOut::V, TErr>(start),
        is_run::<TIn, TOut, TErr, C>(cache, limit, start, moves),
        i < j,
        launches::<TIn, TOut, TErr, C>(cache, start, moves, i, k) || serves::<TIn, TOut, TErr, C>(
            cache,
            start,
            moves,
            i,
            k,
        ),
    ensures
        !launches::<TIn, TOut, TErr, C>(cache, start, moves, j, k),
        !serves::<TIn, TOut, TErr, C>(cache, start, moves, j, k),
{
    if j < moves.len() {
        let at_i = state_at::<TIn, TOut, TErr, C>(cache, start, moves, i);
        law_run_keeps_invariant::<TIn, TOut, TErr, C>(cache, limit, start, moves, i);
        lemma_move::<TIn, TOut, TErr, C>(cache, limit, at_i, moves[i as int]);
        assert(state_at::<TIn, TOut, TErr, C>(cache, start, moves, i + 1) == after::<
            TIn,
            TOut,
            TErr,
            C,
        >(cache, at_i, moves[i as int]));
        lemma_handled_for_good::<TIn, TOut, TErr, C>(cache, limit, start, moves, i + 1, j, k);
        law_run_keeps_invariant::<TIn, TOut, TErr, C>(cache, limit, start, moves, j);
        let at_j = state_at::<TIn, TOut, TErr, C>(cache, start, moves, j);
        if (moves[j as int] is Launch || moves[j as int] is Serve) && at_j.ready.last() == k {
            assert(may::<TIn, TOut, TErr, C>(cache, limit, at_j, moves[j as int]));
            assert(at_j.ready[at_j.ready.len() - 1] == k);
            assert(false);
        }
    }
}

/// An operation that the cache knows is never handed out to be run, at no
/// point of any run: nothing is ever done for it but taking its output
/// from the cache.
pub proof fn law_cached_is_never_run<
    TIn: GraphIn,
    TOut: GraphOut<TIn>,
    TErr,
    C: GraphCache<TIn, TOut>,
>(
    cache: C,
    limit: nat,
    start: GraphModel<TIn::V, TOut::V, TErr>,
    moves: Seq<Move<TIn::V, TOut::V, TErr>>,
    i: nat,
    k: TIn::V,
)
    requires
        is_run::<TIn, TOut, TErr, C>(cache, limit, start, moves),
        cache.spec_cached(k) is Some,
    ensures
        !launches::<TIn, TOut, TErr, C>(cache, start, moves, i, k),
{
    if i < moves.len() {
        assert(may::<TIn, TOut, TErr, C>(
            cache,
            limit,
            state_at::<TIn, TOut, TErr, C>(cache, start, moves, i),
            moves[i as int],
        ));
    }
}

/// A failure stays with the operation that failed: the tasks, their counts,
/// the waiting lists, the ready stack and the successes are as they were,
/// and every other flight goes on. So what does not depend on the failed
/// operation runs as it would have without it.
pub proof fn law_failure_touches_nothing_else<
    TIn: GraphIn,
    TOut: GraphOut<TIn>,
    TErr,
    C: GraphCache<TIn, TOut>,
>(cache: C, limit: nat, m: GraphModel<TIn::V, TOut::V, TErr>, op: TIn::V, error: TErr, k: TIn::V)
    requires
        model_wf::<TIn, TOut::V, TErr>(m),
        may::<TIn, TOut, TErr, C>(cache, limit, m, Move::Fail { op, error }),
    ensures
        ({
            let n = after::<TIn, TOut, TErr, C>(cache, m, Move::Fail { op, error });
            &&& n.tasks == m.tasks
            &&& n.dependents == m.dependents
            &&& n.ready == m.ready
            &&& n.success == m.success
            &&& k != op ==> (n.running.contains(k) <==> m.running.contains(k))
            &&& k != op ==> (failed_keys(n.failed).contains(k) <==> failed_keys(m.failed).contains(k))
            &&& failed_keys(n.failed).contains(op)
            &&& !n.running.contains(op)
        }),
{
    let n = after::<TIn, TOut, TErr, C>(cache, m, Move::Fail { op, error });
    let i = choose|i: int| 0 <= i < m.running.len() && m.running[i] == op;
    lemma_land_keeps::<TIn, TOut::V, TErr>(m, op, i);
    assert(failed_keys(n.failed)[m.failed.len() as int] == op);
    if k != op {
        if m.running.contains(k) {
            lemma_still_in_flight(m.running, i, k);
        }
        if n.running.contains(k) {
            let j = choose|j: int| 0 <= j < n.running.len() && n.running[j] == k;
            if j < i {
                assert(m.running[j] == k);
            } else {
                assert(m.running[j + 1] == k);
            }
        }
        if failed_keys(m.failed).contains(k) {
            let j = choose|j: int|
                0 <= j < failed_keys(m.failed).len() && failed_keys(m.failed)[j] == k;
            assert(failed_keys(n.failed)[j] == k);
        }
        if failed_keys(n.failed).contains(k) {
            let j = choose|j: int|
                0 <= j < failed_keys(n.failed).len() && failed_keys(n.failed)[j] == k;
            assert(j < m.failed.len());
            assert(failed_keys(m.failed)[j] == k);
        }
    }
}

/// No operation has two outcomes: it is not both among the successes and
/// on the failed list, and it is on the failed list at most once.
pub proof fn law_one_outcome<TIn: GraphIn, O, E>(m: GraphModel<TIn::V, O, E>, k: TIn::V)
    requires
        model_wf::<TIn, O, E>(m),
    ensures
        !(m.success.contains_key(k) && failed_keys(m.failed).contains(k)),
        failed_keys(m.failed).no_duplicates(),
{
    if failed_keys(m.failed).contains(k) {
        let i = choose|i: int| 0 <= i < failed_keys(m.failed).len() && failed_keys(m.failed)[i] == k;
        assert(!m.success.contains_key(m.failed[i].0));
    }
}

} // verus!
