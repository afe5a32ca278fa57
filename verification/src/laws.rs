//! The engine's guarantees, stated and proved over [`spec_run_cycle`].
//!
//! Every executable entry point pins its result to `spec_run_cycle`, so the
//! laws here hold of everything the engine returns.

use vstd::multiset::Multiset;
use vstd::prelude::*;
use vstd::seq_lib::group_to_multiset_ensures;
use vstd::seq_lib::lemma_multiset_commutative;

use crate::engine::{
    cap_slack, cycle_loop, cycle_terminates, init_loop_state, passes, spec_run_cycle, state_of,
    CycleSpec, FragSpec, LoopState, ReportSpec, StateSpec,
};
use crate::score::lemma_score_range;

verus! {

/// Determinism: the outcome of a cycle is a function of the input batch, the
/// threshold and the cap alone.  Two results that meet the engine's contract
/// for the same inputs are equal — whatever the thread count, and whichever
/// call surface produced them.
pub proof fn lemma_cycle_deterministic(
    r1: CycleSpec,
    r2: CycleSpec,
    inputs: Seq<FragSpec>,
    threshold: int,
    cap: Option<int>,
)
    requires
        r1 == spec_run_cycle(inputs, threshold, cap),
        r2 == spec_run_cycle(inputs, threshold, cap),
    ensures
        r1 == r2,
{
}

/// Content addressing: fragments with equal bodies are given equal hashes and
/// equal fingerprints, whatever their paths and indices.
pub proof fn lemma_content_addressing(a: FragSpec, b: FragSpec)
    requires
        a.body == b.body,
    ensures
        state_of(a).hash == state_of(b).hash,
        state_of(a).fingerprint == state_of(b).fingerprint,
{
}

/// With a nonpositive threshold every fragment passes on first evaluation, so
/// the cycle terminates even without a cap.
pub proof fn lemma_nonpositive_threshold_terminates(
    inputs: Seq<FragSpec>,
    threshold: int,
    cap: Option<int>,
)
    requires
        threshold <= 0,
    ensures
        cycle_terminates(inputs, threshold, cap),
{
    assert forall|i: int| 0 <= i < inputs.len() implies passes(
        state_of(#[trigger] inputs[i]),
        threshold,
    ) by {
        lemma_score_range(inputs[i].body, state_of(inputs[i]).language);
    }
}

/// The structural facts preserved by every step of the cycle loop: queue and
/// absorption lists stay within range, anchors mirror the absorbed hashes,
/// the log holds one event per evaluation, the cap is respected, and the
/// absorbed positions and the queued positions together are a permutation of
/// what they were.
proof fn lemma_cycle_loop_props(
    states: Seq<StateSpec>,
    st: LoopState,
    threshold: int,
    cap: Option<int>,
)
    requires
        cap is None ==> forall|i: int|
            0 <= i < states.len() ==> passes(#[trigger] states[i], threshold),
        forall|j: int| 0 <= j < st.queue.len() ==> 0 <= #[trigger] st.queue[j] < states.len(),
        forall|j: int|
            0 <= j < st.absorbed_idx.len() ==> 0 <= #[trigger] st.absorbed_idx[j] < states.len(),
        st.anchors.len() == st.absorbed_idx.len(),
        forall|k: int|
            0 <= k < st.anchors.len() ==> #[trigger] st.anchors[k]
                == states[st.absorbed_idx[k]].hash,
        st.events.len() == st.iterations,
        cap is Some ==> st.iterations <= cap->0,
    ensures
        ({
            let fin = cycle_loop(states, st, threshold, cap);
            &&& fin.anchors.len() == fin.absorbed_idx.len()
            &&& forall|k: int|
                0 <= k < fin.anchors.len() ==> #[trigger] fin.anchors[k]
                    == states[fin.absorbed_idx[k]].hash
            &&& forall|j: int|
                0 <= j < fin.queue.len() ==> 0 <= #[trigger] fin.queue[j] < states.len()
            &&& forall|j: int|
                0 <= j < fin.absorbed_idx.len() ==> 0 <= #[trigger] fin.absorbed_idx[j]
                    < states.len()
            &&& (fin.absorbed_idx + fin.queue).to_multiset() == (st.absorbed_idx
                + st.queue).to_multiset()
            &&& fin.events.len() == fin.iterations
            &&& (cap is Some ==> fin.iterations <= cap->0)
        }),
    decreases cap_slack(cap, st.iterations), st.queue.len(),
{
    broadcast use group_to_multiset_ensures;

    if st.queue.len() == 0 {
    } else if cap is Some && st.iterations >= cap->0 {
    } else {
        let i = st.queue[0];
        let s0 = states[i];
        let score = crate::score::spec_score_units(s0.body, s0.language);
        assert(st.queue =~= seq![i] + st.queue.drop_first());
        lemma_multiset_commutative(seq![i], st.queue.drop_first());
        assert(seq![i] =~= Seq::<int>::empty().push(i));
        assert(seq![i].to_multiset() =~= Multiset::<int>::empty().insert(i));
        if score >= threshold {
            let next = LoopState {
                scores: st.scores.update(i, Some(score)),
                queue: st.queue.drop_first(),
                iterations: st.iterations + 1,
                last_anchor: Some(s0.hash),
                absorbed_idx: st.absorbed_idx.push(i),
                anchors: st.anchors.push(s0.hash),
                events: st.events.push(
                    crate::engine::absorb_event(s0, score, st.last_anchor, st.iterations + 1),
                ),
            };
            assert(forall|k: int|
                0 <= k < next.anchors.len() ==> #[trigger] next.anchors[k]
                    == states[next.absorbed_idx[k]].hash);
            lemma_cycle_loop_props(states, next, threshold, cap);
            lemma_multiset_commutative(st.absorbed_idx, st.queue);
            lemma_multiset_commutative(next.absorbed_idx, next.queue);
            assert((next.absorbed_idx + next.queue).to_multiset() =~= (st.absorbed_idx
                + st.queue).to_multiset());
        } else if cap is Some {
            let next = LoopState {
                scores: st.scores.update(i, Some(score)),
                queue: st.queue.drop_first().push(i),
                iterations: st.iterations + 1,
                last_anchor: st.last_anchor,
                absorbed_idx: st.absorbed_idx,
                anchors: st.anchors,
                events: st.events.push(
                    crate::engine::requeue_event(s0, score, st.last_anchor, st.iterations + 1),
                ),
            };
            lemma_cycle_loop_props(states, next, threshold, cap);
            lemma_multiset_commutative(st.absorbed_idx, st.queue);
            lemma_multiset_commutative(next.absorbed_idx, next.queue);
            assert((next.absorbed_idx + next.queue).to_multiset() =~= (st.absorbed_idx
                + st.queue).to_multiset());
        } else {
            assert(passes(s0, threshold));
            assert(false);
        }
    }
}

/// Mapping two sequences with equal multisets gives equal multisets.
proof fn lemma_map_preserves_multiset<A, B>(s1: Seq<A>, s2: Seq<A>, f: spec_fn(A) -> B)
    requires
        s1.to_multiset() == s2.to_multiset(),
    ensures
        s1.map_values(f).to_multiset() == s2.map_values(f).to_multiset(),
    decreases s1.len(),
{
    broadcast use group_to_multiset_ensures;
    broadcast use vstd::multiset::group_multiset_axioms;

    if s1.len() == 0 {
        vstd::seq_lib::to_multiset_len(s1);
        vstd::seq_lib::to_multiset_len(s2);
        assert(s2.len() == 0);
        assert(s1.map_values(f) =~= s2.map_values(f));
    } else {
        let x = s1[0];
        assert(s1.contains(x));
        assert(s2.to_multiset().count(x) > 0);
        assert(s2.contains(x));
        let j = choose|j: int| 0 <= j < s2.len() && s2[j] == x;
        assert(s1.drop_first() =~= s1.remove(0));
        assert(s1.remove(0).to_multiset() == s1.to_multiset().remove(x));
        assert(s2.remove(j).to_multiset() == s2.to_multiset().remove(x));
        lemma_map_preserves_multiset(s1.drop_first(), s2.remove(j), f);
        assert(s1.drop_first().map_values(f) =~= s1.map_values(f).remove(0));
        assert(s2.remove(j).map_values(f) =~= s2.map_values(f).remove(j));
        let m1 = s1.map_values(f).to_multiset();
        let m2 = s2.map_values(f).to_multiset();
        assert(s1.map_values(f).remove(0).to_multiset() == m1.remove(f(x)));
        assert(s2.map_values(f).remove(j).to_multiset() == m2.remove(f(x)));
        assert(m1.remove(f(x)) == m2.remove(f(x)));
        assert(s1.map_values(f)[0] == f(x));
        assert(s1.map_values(f).contains(f(x)));
        assert(s2.map_values(f)[j] == f(x));
        assert(s2.map_values(f).contains(f(x)));
        assert(m1.count(f(x)) > 0);
        assert(m2.count(f(x)) > 0);
        assert forall|w: B| m1.count(w) == m2.count(w) by {
            if w == f(x) {
                assert(m1.count(w) == m1.remove(f(x)).count(w) + 1);
                assert(m2.count(w) == m2.remove(f(x)).count(w) + 1);
            } else {
                assert(m1.remove(f(x)).count(w) == m1.count(w));
                assert(m2.remove(f(x)).count(w) == m2.count(w));
            }
        }
        assert(m1 =~= m2);
    }
}

/// Partition: at termination every submitted fragment stands in exactly one
/// of `absorbed` and `pending` — their `idx` values together are, as a
/// multiset, exactly the submitted `idx` values.
pub proof fn lemma_cycle_partition(inputs: Seq<FragSpec>, threshold: int, cap: Option<int>)
    requires
        cycle_terminates(inputs, threshold, cap),
        cap is Some ==> cap->0 >= 0,
    ensures
        ({
            let r = spec_run_cycle(inputs, threshold, cap);
            (r.absorbed.map_values(|rep: ReportSpec| rep.idx) + r.pending.map_values(
                |rep: ReportSpec| rep.idx,
            )).to_multiset() == inputs.map_values(|f: FragSpec| f.idx).to_multiset()
        }),
{
    broadcast use group_to_multiset_ensures;

    let r = spec_run_cycle(inputs, threshold, cap);
    if inputs.len() == 0 {
        assert(r.absorbed.map_values(|rep: ReportSpec| rep.idx) + r.pending.map_values(
            |rep: ReportSpec| rep.idx,
        ) =~= Seq::<u32>::empty());
        assert(inputs.map_values(|f: FragSpec| f.idx) =~= Seq::<u32>::empty());
    } else {
        let n = inputs.len() as int;
        let states = inputs.map_values(|f: FragSpec| state_of(f));
        let st0 = init_loop_state(n);
        assert(forall|i: int|
            0 <= i < states.len() ==> #[trigger] states[i] == state_of(inputs[i]));
        lemma_cycle_loop_props(states, st0, threshold, cap);
        let fin = cycle_loop(states, st0, threshold, cap);
        let positions = fin.absorbed_idx + fin.queue;
        assert(st0.absorbed_idx + st0.queue =~= st0.queue);
        let pos_to_idx = |i: int| states[i].idx;
        lemma_map_preserves_multiset(positions, st0.queue, pos_to_idx);
        assert(r.absorbed.map_values(|rep: ReportSpec| rep.idx) =~= fin.absorbed_idx.map_values(
            pos_to_idx,
        ));
        assert(r.pending.map_values(|rep: ReportSpec| rep.idx) =~= fin.queue.map_values(
            pos_to_idx,
        ));
        assert(r.absorbed.map_values(|rep: ReportSpec| rep.idx) + r.pending.map_values(
            |rep: ReportSpec| rep.idx,
        ) =~= positions.map_values(pos_to_idx));
        assert(st0.queue.map_values(pos_to_idx) =~= inputs.map_values(|f: FragSpec| f.idx));
    }
}

/// The `idx` values a report list carries, as a set.
pub open spec fn idx_set(reports: Seq<ReportSpec>) -> Set<u32> {
    reports.map_values(|rep: ReportSpec| rep.idx).to_set()
}

/// Partition, at set level: when the submitted `idx` values are distinct, the
/// `idx` sets of `absorbed` and `pending` are disjoint and their union is
/// exactly the submitted `idx` set.
pub proof fn lemma_cycle_partition_sets(inputs: Seq<FragSpec>, threshold: int, cap: Option<int>)
    requires
        cycle_terminates(inputs, threshold, cap),
        cap is Some ==> cap->0 >= 0,
        inputs.map_values(|f: FragSpec| f.idx).no_duplicates(),
    ensures
        ({
            let r = spec_run_cycle(inputs, threshold, cap);
            &&& idx_set(r.absorbed).intersect(idx_set(r.pending)) =~= Set::<u32>::empty()
            &&& idx_set(r.absorbed).union(idx_set(r.pending)) =~= inputs.map_values(
                |f: FragSpec| f.idx,
            ).to_set()
        }),
{
    broadcast use group_to_multiset_ensures;
    broadcast use vstd::multiset::group_multiset_axioms;

    lemma_cycle_partition(inputs, threshold, cap);
    let r = spec_run_cycle(inputs, threshold, cap);
    let a = r.absorbed.map_values(|rep: ReportSpec| rep.idx);
    let p = r.pending.map_values(|rep: ReportSpec| rep.idx);
    let all = inputs.map_values(|f: FragSpec| f.idx);
    lemma_multiset_commutative(a, p);
    all.lemma_multiset_has_no_duplicates();
    assert forall|v: u32| #[trigger] idx_set(r.absorbed).contains(v) implies !idx_set(
        r.pending,
    ).contains(v) by {
        if p.to_set().contains(v) {
            assert(a.contains(v) && p.contains(v));
            assert((a + p).to_multiset().count(v) >= 2) by {
                assert(a.to_multiset().count(v) >= 1);
                assert(p.to_multiset().count(v) >= 1);
            }
            assert(all.to_multiset().count(v) >= 2);
            assert(all.to_multiset().contains(v));
        }
    }
    assert forall|v: u32| #[trigger] all.to_set().contains(v) implies idx_set(
        r.absorbed,
    ).union(idx_set(r.pending)).contains(v) by {
        assert(all.to_multiset().count(v) >= 1);
        assert(a.to_multiset().count(v) >= 1 || p.to_multiset().count(v) >= 1);
        if a.to_multiset().count(v) >= 1 {
            assert(a.contains(v));
        } else {
            assert(p.contains(v));
        }
    }
    assert forall|v: u32|
        #[trigger] idx_set(r.absorbed).union(idx_set(r.pending)).contains(v) implies all.to_set()
        .contains(v) by {
        assert(a.contains(v) || p.contains(v));
        assert((a + p).to_multiset().count(v) >= 1);
        assert(all.to_multiset().count(v) >= 1);
        assert(all.contains(v));
    }
}

/// Anchor order: there are exactly as many anchors as absorbed reports, and
/// the `k`-th anchor is the hash of the `k`-th absorbed report — anchors
/// follow absorption order, not input order.
pub proof fn lemma_anchor_chain(inputs: Seq<FragSpec>, threshold: int, cap: Option<int>)
    requires
        cycle_terminates(inputs, threshold, cap),
        cap is Some ==> cap->0 >= 0,
    ensures
        ({
            let r = spec_run_cycle(inputs, threshold, cap);
            &&& r.anchors.len() == r.absorbed.len()
            &&& forall|k: int|
                0 <= k < r.anchors.len() ==> #[trigger] r.anchors[k] == r.absorbed[k].hash
        }),
{
    let r = spec_run_cycle(inputs, threshold, cap);
    if inputs.len() == 0 {
    } else {
        let n = inputs.len() as int;
        let states = inputs.map_values(|f: FragSpec| state_of(f));
        let st0 = init_loop_state(n);
        lemma_cycle_loop_props(states, st0, threshold, cap);
    }
}

/// Work accounting: one event is logged per evaluation, and the iteration
/// count never exceeds the cap when one is given.
pub proof fn lemma_iteration_accounting(inputs: Seq<FragSpec>, threshold: int, cap: Option<int>)
    requires
        cycle_terminates(inputs, threshold, cap),
        cap is Some ==> cap->0 >= 0,
    ensures
        ({
            let r = spec_run_cycle(inputs, threshold, cap);
            &&& r.events.len() == r.iterations
            &&& (cap is Some ==> r.iterations <= cap->0)
        }),
{
    let r = spec_run_cycle(inputs, threshold, cap);
    if inputs.len() == 0 {
    } else {
        let n = inputs.len() as int;
        let states = inputs.map_values(|f: FragSpec| state_of(f));
        let st0 = init_loop_state(n);
        lemma_cycle_loop_props(states, st0, threshold, cap);
    }
}

} // verus!
