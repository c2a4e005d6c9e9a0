//! Multi-request planning, target acquisition and response collection.

use kitsune_p2p::KitsuneAgent;
use kitsune_p2p::KitsuneBasis;
use kitsune_p2p::KitsuneP2pError;
use kitsune_p2p::KitsuneSpace;
use kitsune_p2p::MultiRequest;
use kitsune_p2p::MultiRequestState;
use kitsune_p2p::SpaceRegistry;

fn space(id: u64) -> KitsuneSpace {
    KitsuneSpace { id }
}

fn agent(id: u64) -> KitsuneAgent {
    KitsuneAgent { id }
}

fn request_input(
    s: KitsuneSpace,
    from: KitsuneAgent,
    remote_agent_count: Option<u8>,
    timeout_ms: Option<u64>,
    as_race: bool,
    race_timeout_ms: Option<u64>,
) -> MultiRequest {
    MultiRequest {
        space: s,
        from_agent: from,
        basis: KitsuneBasis { id: 0 },
        remote_agent_count,
        timeout_ms,
        as_race,
        race_timeout_ms,
        payload: vec![9, 9],
    }
}

fn registry_with_agents(s: KitsuneSpace, ids: &[u64]) -> SpaceRegistry {
    let mut reg = SpaceRegistry::new();
    for id in ids {
        reg.join(s, agent(*id));
    }
    reg
}

#[test]
fn unknown_space_fails_multi_request_planning() {
    let reg = SpaceRegistry::new();
    let r = reg.plan_multi_request(&request_input(space(3), agent(1), None, None, false, None));
    assert_eq!(r, Err(KitsuneP2pError::UnknownSpace(space(3))));
}

#[test]
fn multi_request_defaults_resolve() {
    let s = space(1);
    let reg = registry_with_agents(s, &[1]);
    let plan = reg
        .plan_multi_request(&request_input(s, agent(1), None, None, true, None))
        .unwrap();
    assert_eq!(plan.remote_agent_count, 2);
    assert_eq!(plan.timeout_ms, 1000);
    assert_eq!(plan.race_timeout_ms, 200);
    let plan = reg
        .plan_multi_request(&request_input(s, agent(1), Some(0), Some(0), true, Some(0)))
        .unwrap();
    assert_eq!(plan.remote_agent_count, 2);
    assert_eq!(plan.timeout_ms, 1000);
    assert_eq!(plan.race_timeout_ms, 200);
}

#[test]
fn race_timeout_is_clamped_to_the_hard_deadline() {
    let s = space(1);
    let reg = registry_with_agents(s, &[1]);
    let plan = reg
        .plan_multi_request(&request_input(s, agent(1), Some(3), Some(400), true, Some(5000)))
        .unwrap();
    assert_eq!(plan.race_timeout_ms, 400);
    assert_eq!(plan.timeout_ms, 400);
}

#[test]
fn race_timeout_is_irrelevant_without_racing() {
    // as_race=false forces race_timeout == timeout whatever was supplied
    let s = space(1);
    let reg = registry_with_agents(s, &[1]);
    let supplied: [Option<u64>; 4] = [None, Some(0), Some(5), Some(50000)];
    let plans: Vec<_> = supplied
        .iter()
        .map(|race| {
            reg.plan_multi_request(&request_input(s, agent(1), Some(2), Some(700), false, *race))
                .unwrap()
        })
        .collect();
    for plan in &plans {
        assert_eq!(*plan, plans[0]);
        assert_eq!(plan.race_timeout_ms, plan.timeout_ms);
        assert_eq!(plan.timeout_ms, 700);
    }
}

#[test]
fn quorum_scenario_targets_only_other_agents() {
    // space S with {A, B, C} joined; multi_request(S, from=A,
    // remote_agent_count=2, timeout=1000, as_race=false) returns at most
    // 2 entries, both drawn from {B, C}.
    let s = space(1);
    let a = agent(1);
    let reg = registry_with_agents(s, &[1, 2, 3]);
    let plan = reg
        .plan_multi_request(&request_input(s, a, Some(2), Some(1000), false, None))
        .unwrap();
    assert_eq!(plan.remote_agent_count, 2);

    let mut state = MultiRequestState::new(a);
    let snapshot = reg
        .list_online_agents_for_basis(&s, &KitsuneBasis { id: 0 })
        .unwrap();
    let targets = state.acquire_targets(&snapshot, plan.remote_agent_count);
    assert!(targets.len() <= 2);
    for t in &targets {
        assert_ne!(*t, a);
        assert!(*t == agent(2) || *t == agent(3));
    }

    // every target responds; the collected list stays within the quorum
    // and never contains the requester
    for t in &targets {
        assert!(state.was_contacted(t));
        assert!(!state.has_response_from(t));
        state.record_response(*t, vec![t.id as u8]);
    }
    let responses = state.into_responses();
    assert!(responses.len() <= 2);
    for r in &responses {
        assert_ne!(r.agent, a);
        assert_eq!(r.response, vec![r.agent.id as u8]);
    }
}

#[test]
fn acquisition_never_repeats_and_never_targets_requester() {
    let a = agent(1);
    let mut state = MultiRequestState::new(a);
    // quota high enough that nothing stops early
    let first = state.acquire_targets(&vec![agent(1), agent(2), agent(3)], 10);
    let ids: Vec<u64> = first.iter().map(|t| t.id).collect();
    assert_eq!(ids, vec![2, 3]);
    // the next discovery pass repeats old agents and adds new ones
    let second = state.acquire_targets(&vec![agent(3), agent(1), agent(4), agent(4)], 10);
    let ids: Vec<u64> = second.iter().map(|t| t.id).collect();
    assert_eq!(ids, vec![4]);
}

#[test]
fn whole_acquisition_phase_respects_quorum_and_requester() {
    let a = agent(1);
    let mut state = MultiRequestState::new(a);
    let snapshots = vec![
        vec![agent(1), agent(2)],
        vec![agent(2), agent(1)],
        vec![agent(3), agent(4), agent(5)],
    ];
    let dispatched = kitsune_p2p::fanout_laws::acquire_passes(&mut state, &snapshots, 3);
    let ids: Vec<u64> = dispatched.iter().map(|t| t.id).collect();
    // never the requester, never anyone twice, stop at the quorum of 3
    assert_eq!(ids, vec![2, 3, 4]);
    assert_eq!(state.contacted_count(), 3);
}

#[test]
fn acquisition_stops_at_the_quorum() {
    let a = agent(1);
    let mut state = MultiRequestState::new(a);
    let targets = state.acquire_targets(&vec![agent(2), agent(3), agent(4), agent(5)], 2);
    let ids: Vec<u64> = targets.iter().map(|t| t.id).collect();
    assert_eq!(ids, vec![2, 3]);
    assert_eq!(state.contacted_count(), 2);
}

#[test]
fn acquisition_completion_tests_quorum_and_race_deadline() {
    let s = space(1);
    let reg = registry_with_agents(s, &[1, 2, 3]);
    let plan = reg
        .plan_multi_request(&request_input(s, agent(1), Some(2), Some(1000), true, Some(200)))
        .unwrap();
    let mut state = MultiRequestState::new(agent(1));
    assert!(!state.acquisition_complete(&plan, 0));
    assert!(state.acquisition_complete(&plan, 201)); // race window closed
    state.acquire_targets(&vec![agent(2), agent(3)], plan.remote_agent_count);
    assert!(state.acquisition_complete(&plan, 0)); // quorum reached
}

#[test]
fn collection_completion_tests_deadlines_and_quorum() {
    let s = space(1);
    let reg = registry_with_agents(s, &[1, 2, 3]);
    let plan = reg
        .plan_multi_request(&request_input(s, agent(1), Some(1), Some(1000), true, Some(200)))
        .unwrap();
    let mut state = MultiRequestState::new(agent(1));
    state.acquire_targets(&vec![agent(2)], plan.remote_agent_count);
    // nothing collected yet: only the hard deadline stops the wait
    assert!(!state.collection_complete(&plan, 500));
    assert!(state.collection_complete(&plan, 1001));
    // with the quorum met, the race deadline alone suffices
    state.record_response(agent(2), vec![7]);
    assert!(!state.collection_complete(&plan, 150));
    assert!(state.collection_complete(&plan, 201));
}

#[test]
fn wait_budget_is_clamped_and_floored() {
    let s = space(1);
    let reg = registry_with_agents(s, &[1]);
    let plan = reg
        .plan_multi_request(&request_input(s, agent(1), Some(2), Some(1000), true, Some(200)))
        .unwrap();
    assert_eq!(plan.wait_budget_ms(50), 150); // inside the race window
    assert_eq!(plan.wait_budget_ms(200), 1); // race boundary floors at 1 ms
    assert_eq!(plan.wait_budget_ms(400), 600); // before the hard deadline
    assert_eq!(plan.wait_budget_ms(999), 1);
    assert_eq!(plan.wait_budget_ms(1000), 1);
    assert_eq!(plan.wait_budget_ms(9999), 1); // past the deadline: clamped, floored
}

#[test]
fn partial_results_are_not_an_error() {
    // an unresponsive peer simply contributes nothing
    let a = agent(1);
    let mut state = MultiRequestState::new(a);
    state.acquire_targets(&vec![agent(2), agent(3)], 2);
    state.record_response(agent(3), vec![1]);
    let responses = state.into_responses();
    assert_eq!(responses.len(), 1);
    assert_eq!(responses[0].agent, agent(3));
}
