//! Cycle scenarios: single absorption, capped requeue, the empty batch, and
//! determinism across repeated runs and thread counts.

use harpoon::engine::{FragmentInput, FragmentState, HarpoonEngine};

fn frag(path: &str, idx: u32, lines: &str, body: &str) -> FragmentInput {
    FragmentInput {
        path: path.to_string(),
        idx,
        lines: lines.to_string(),
        body: body.to_string(),
    }
}

const BODY_A: &str = "def f():\n    return 1\n";
const HASH_A: &str = "554c70065a66824f65e036709800854b75f5bf94b69932fdde85d53a3238b555";
const BODY_LOW: &str = "# x\n# y\n# z\n";

#[test]
fn scenario_single_fragment_absorbed_first_iteration() {
    let engine = HarpoonEngine::new_native(None, None).unwrap();
    let cycle = engine
        .run_native_cycle(vec![frag("example.py", 0, "1-2", BODY_A)], 0, None)
        .unwrap();
    assert_eq!(cycle.get_iterations(), 1);
    assert_eq!(cycle.get_absorbed().len(), 1);
    assert_eq!(cycle.get_pending().len(), 0);
    assert_eq!(cycle.get_anchors().len(), 1);
    assert_eq!(cycle.get_anchors()[0], HASH_A);
    let report = &cycle.get_absorbed()[0];
    assert_eq!(report.hash, HASH_A);
    assert_eq!(report.idx, 0);
    assert_eq!(report.language, "python");
    assert_eq!(report.hygiene_score, Some(5333));
    assert_eq!(report.body_len, BODY_A.len());
    let events = cycle.get_events();
    assert_eq!(events.len(), 1);
    assert_eq!(events[0].event, "fragment_absorbed");
    assert_eq!(events[0].anchor_prev, None);
    assert_eq!(events[0].anchor_next, Some(HASH_A.to_string()));
    assert_eq!(events[0].iteration_index, 1);
}

#[test]
fn scenario_cap_stops_requeue_loop() {
    let engine = HarpoonEngine::new_native(None, None).unwrap();
    let cycle = engine
        .run_native_cycle(
            vec![
                frag("example.py", 0, "1-2", BODY_A),
                frag("notes.txt", 1, "1-3", BODY_LOW),
            ],
            5000,
            Some(3),
        )
        .unwrap();
    assert_eq!(cycle.get_iterations(), 3);
    assert_eq!(cycle.get_absorbed().len(), 1);
    assert_eq!(cycle.get_absorbed()[0].idx, 0);
    assert_eq!(cycle.get_pending().len(), 1);
    assert_eq!(cycle.get_pending()[0].idx, 1);
    assert_eq!(cycle.get_pending()[0].language, "text");
    assert_eq!(cycle.get_pending()[0].hygiene_score, Some(3188));
    let events = cycle.get_events();
    assert_eq!(events.len(), 3);
    assert_eq!(events[0].event, "fragment_absorbed");
    assert_eq!(events[1].event, "fragment_requeued");
    assert_eq!(events[2].event, "fragment_requeued");
    assert_eq!(events[1].anchor_prev, Some(HASH_A.to_string()));
    assert_eq!(events[1].anchor_next, Some(HASH_A.to_string()));
    assert_eq!(events[2].iteration_index, 3);
    assert_eq!(cycle.get_anchors().len(), 1);
}

#[test]
fn scenario_empty_batch_is_zeroed() {
    let engine = HarpoonEngine::new_native(None, None).unwrap();
    let cycle = engine.run_native_cycle(vec![], 7000, Some(10)).unwrap();
    assert_eq!(cycle.get_iterations(), 0);
    assert!(cycle.get_absorbed().is_empty());
    assert!(cycle.get_pending().is_empty());
    assert!(cycle.get_events().is_empty());
    assert!(cycle.get_anchors().is_empty());
}

#[test]
fn cycle_is_deterministic_across_runs_and_thread_counts() {
    let batch = || {
        vec![
            frag("a.py", 0, "1", BODY_A),
            frag("b.rs", 1, "2", "fn main() { println!(\"Hello\"); }"),
            frag("notes.txt", 2, "3", BODY_LOW),
            frag("dup.txt", 3, "4", BODY_A),
        ]
    };
    let one = HarpoonEngine::new_native(Some(1), Some(1)).unwrap();
    let many = HarpoonEngine::new_native(Some(1), Some(4)).unwrap();
    let r1 = one.run_native_cycle(batch(), 4000, Some(16)).unwrap();
    let r2 = many.run_native_cycle(batch(), 4000, Some(16)).unwrap();
    let r3 = one.run_native_cycle(batch(), 4000, Some(16)).unwrap();
    for r in [&r2, &r3] {
        assert_eq!(r.get_iterations(), r1.get_iterations());
        assert_eq!(r.get_anchors(), r1.get_anchors());
        assert_eq!(r.get_absorbed().len(), r1.get_absorbed().len());
        assert_eq!(r.get_pending().len(), r1.get_pending().len());
        assert_eq!(r.get_events().len(), r1.get_events().len());
        for (e, f) in r.get_events().iter().zip(r1.get_events().iter()) {
            assert_eq!(e.event, f.event);
            assert_eq!(e.idx, f.idx);
            assert_eq!(e.hash, f.hash);
            assert_eq!(e.hygiene_score, f.hygiene_score);
            assert_eq!(e.anchor_prev, f.anchor_prev);
            assert_eq!(e.anchor_next, f.anchor_next);
            assert_eq!(e.fingerprint, f.fingerprint);
            assert_eq!(e.iteration_index, f.iteration_index);
        }
    }
}

#[test]
fn partition_and_anchor_invariants_hold_on_a_run() {
    let engine = HarpoonEngine::new_native(None, None).unwrap();
    let cycle = engine
        .run_native_cycle(
            vec![
                frag("a.py", 10, "1", BODY_A),
                frag("notes.txt", 11, "2", BODY_LOW),
                frag("b.rs", 12, "3", "fn main() { println!(\"Hello\"); }"),
            ],
            4000,
            Some(9),
        )
        .unwrap();
    let mut seen: Vec<u32> = cycle
        .get_absorbed()
        .iter()
        .map(|r| r.idx)
        .chain(cycle.get_pending().iter().map(|r| r.idx))
        .collect();
    seen.sort();
    assert_eq!(seen, vec![10, 11, 12]);
    assert_eq!(cycle.get_anchors().len(), cycle.get_absorbed().len());
    for (anchor, report) in cycle.get_anchors().iter().zip(cycle.get_absorbed().iter()) {
        assert_eq!(anchor, &report.hash);
    }
    assert_eq!(cycle.get_events().len(), cycle.get_iterations());
    assert!(cycle.get_iterations() <= 9);
}

#[test]
fn engine_construction_rules() {
    assert!(HarpoonEngine::new_native(None, Some(0)).is_err());
    let engine = HarpoonEngine::new_native(Some(0), Some(2)).unwrap();
    assert_eq!(engine.configured_thread_count(), Some(2));
    assert_eq!(engine.thread_count(), 2);
    let default_engine = HarpoonEngine::new_native(None, None).unwrap();
    assert_eq!(default_engine.configured_thread_count(), None);
    assert!(default_engine.thread_count() >= 1);
}

#[test]
fn fragment_states_report_their_identity() {
    let state = FragmentState::new(frag("example.py", 4, "1-2", BODY_A));
    assert_eq!(state.hash, HASH_A);
    assert_eq!(state.language, "python");
    assert_eq!(state.hygiene_score, None);
    let report = state.to_report();
    assert_eq!(report.hash, HASH_A);
    assert_eq!(report.idx, 4);
    assert_eq!(report.fingerprint, "VUxwBlpmgk9l4DZw");
    assert_eq!(report.hygiene_score, None);
    assert_eq!(report.body_len, BODY_A.len());
}

#[test]
fn engine_fingerprint_matches_standalone() {
    let engine = HarpoonEngine::new_native(None, None).unwrap();
    assert_eq!(engine.compute_fingerprint(BODY_A), "VUxwBlpmgk9l4DZw");
    assert_eq!(engine.fingerprint(BODY_A), harpoon::compute_fingerprint(BODY_A));
}
