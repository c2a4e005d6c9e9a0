//! Broadcast planning and fan-out state behaviour.

use kitsune_p2p::Broadcast;
use kitsune_p2p::BroadcastState;
use kitsune_p2p::KitsuneAgent;
use kitsune_p2p::KitsuneBasis;
use kitsune_p2p::KitsuneP2pError;
use kitsune_p2p::KitsuneSpace;
use kitsune_p2p::SpaceRegistry;

fn space(id: u64) -> KitsuneSpace {
    KitsuneSpace { id }
}

fn agent(id: u64) -> KitsuneAgent {
    KitsuneAgent { id }
}

fn broadcast_input(
    s: KitsuneSpace,
    remote_agent_count: Option<u8>,
    timeout_ms: Option<u64>,
) -> Broadcast {
    Broadcast {
        space: s,
        basis: KitsuneBasis { id: 0 },
        remote_agent_count,
        timeout_ms,
        payload: vec![1, 2, 3],
    }
}

fn registry_with_space(s: KitsuneSpace) -> SpaceRegistry {
    let mut reg = SpaceRegistry::new();
    reg.join(s, agent(10));
    reg
}

#[test]
fn unknown_space_fails_broadcast_planning() {
    let reg = SpaceRegistry::new();
    let r = reg.plan_broadcast(&broadcast_input(space(1), None, Some(500)));
    assert_eq!(r, Err(KitsuneP2pError::UnknownSpace(space(1))));
}

#[test]
fn broadcast_defaults_resolve() {
    let s = space(1);
    let reg = registry_with_space(s);
    let plan = reg.plan_broadcast(&broadcast_input(s, None, None)).unwrap();
    assert_eq!(plan.remote_agent_count, 5);
    assert_eq!(plan.timeout_ms, 1000);
    assert_eq!(plan.check_interval_ms, 200);
    assert!(plan.detach);
    let plan = reg
        .plan_broadcast(&broadcast_input(s, Some(0), Some(500)))
        .unwrap();
    assert_eq!(plan.remote_agent_count, 5);
    assert_eq!(plan.timeout_ms, 500);
    assert_eq!(plan.check_interval_ms, 100);
    assert!(!plan.detach);
}

#[test]
fn check_interval_is_a_fifth_of_the_budget_clamped() {
    let s = space(1);
    let reg = registry_with_space(s);
    let cases: [(u64, u64); 4] = [(1000, 200), (20, 10), (7, 7), (100000, 20000)];
    for (timeout, expected) in cases {
        let plan = reg
            .plan_broadcast(&broadcast_input(s, Some(1), Some(timeout)))
            .unwrap();
        assert_eq!(plan.check_interval_ms, expected, "timeout {timeout}");
    }
}

#[test]
fn zero_timeout_broadcast_returns_zero_immediately() {
    // broadcast(S, basis, payload, remote_agent_count=5, timeout=0)
    // returns 0 without blocking: the plan detaches, hands the caller a
    // nominal 0, and keeps the full default budget for the detached run.
    let s = space(1);
    let reg = registry_with_space(s);
    let plan = reg
        .plan_broadcast(&broadcast_input(s, Some(5), Some(0)))
        .unwrap();
    assert!(plan.detach);
    assert_eq!(plan.immediate_return(), Some(0));
    assert_eq!(plan.timeout_ms, 1000);
    // a plan the caller awaits has no immediate value
    let waited = reg
        .plan_broadcast(&broadcast_input(s, Some(5), Some(250)))
        .unwrap();
    assert_eq!(waited.immediate_return(), None);
}

#[test]
fn broadcast_contacts_every_agent_regardless_of_count() {
    // remote_agent_count never gates delivery: a pass contacts every
    // discovered agent, and the count does not even reach the pass.
    let s = space(1);
    let reg = registry_with_space(s);
    for count in [None, Some(0), Some(1), Some(200)] {
        let plan = reg
            .plan_broadcast(&broadcast_input(s, count, Some(1000)))
            .unwrap();
        assert_eq!(plan.timeout_ms, 1000);
        assert_eq!(plan.check_interval_ms, 200);
        let mut state = BroadcastState::new();
        let targets = state.record_new_targets(&vec![agent(1), agent(2), agent(3)]);
        let mut ids: Vec<u64> = targets.iter().map(|a| a.id).collect();
        ids.sort();
        assert_eq!(ids, vec![1, 2, 3]);
    }
}

#[test]
fn broadcast_never_sends_twice_across_passes() {
    let mut state = BroadcastState::new();
    let first = state.record_new_targets(&vec![agent(1), agent(2)]);
    assert_eq!(first.len(), 2);
    // second discovery pass returns the same agents plus one newcomer
    let second = state.record_new_targets(&vec![agent(2), agent(1), agent(3)]);
    let ids: Vec<u64> = second.iter().map(|a| a.id).collect();
    assert_eq!(ids, vec![3]);
    // duplicate entries within one snapshot are contacted once
    let mut fresh = BroadcastState::new();
    let targets = fresh.record_new_targets(&vec![agent(7), agent(7), agent(7)]);
    assert_eq!(targets.len(), 1);
}

#[test]
fn whole_invocation_dispatches_each_discovered_agent_once() {
    let mut state = BroadcastState::new();
    let snapshots = vec![
        vec![agent(1), agent(2)],
        vec![],
        vec![agent(2), agent(3), agent(1)],
        vec![agent(3), agent(4)],
    ];
    let dispatched = state.record_passes(&snapshots);
    let mut ids: Vec<u64> = dispatched.iter().map(|a| a.id).collect();
    let ordered = ids.clone();
    ids.sort();
    ids.dedup();
    // no duplicates, and everything discovered was dispatched to
    assert_eq!(ids.len(), dispatched.len());
    assert_eq!(ids, vec![1, 2, 3, 4]);
    // dispatch order follows discovery order
    assert_eq!(ordered, vec![1, 2, 3, 4]);
}

#[test]
fn delivery_counter_counts_and_wraps() {
    let mut state = BroadcastState::new();
    assert_eq!(state.confirmed_count(), 0);
    state.record_delivery_success();
    state.record_delivery_success();
    assert_eq!(state.confirmed_count(), 2);
    for _ in 0..254 {
        state.record_delivery_success();
    }
    assert_eq!(state.confirmed_count(), 0);
}

#[test]
fn discovery_stops_at_the_deadline() {
    let s = space(1);
    let reg = registry_with_space(s);
    let plan = reg
        .plan_broadcast(&broadcast_input(s, None, Some(100)))
        .unwrap();
    assert!(plan.keep_discovering(0));
    assert!(plan.keep_discovering(99));
    assert!(!plan.keep_discovering(100));
    assert!(!plan.keep_discovering(5000));
}
