//! Membership behaviour of the space registry: join/leave replay,
//! pruning, and the directory queries.

use kitsune_p2p::KitsuneAgent;
use kitsune_p2p::KitsuneBasis;
use kitsune_p2p::KitsuneP2pError;
use kitsune_p2p::KitsuneSpace;
use kitsune_p2p::MembershipOp;
use kitsune_p2p::SpaceRegistry;
use kitsune_p2p::membership_laws::replay_membership;

fn space(id: u64) -> KitsuneSpace {
    KitsuneSpace { id }
}

fn agent(id: u64) -> KitsuneAgent {
    KitsuneAgent { id }
}

fn basis(id: u64) -> KitsuneBasis {
    KitsuneBasis { id }
}

fn sorted_members(reg: &SpaceRegistry, s: KitsuneSpace) -> Vec<u64> {
    let mut ids: Vec<u64> = reg
        .list_online_agents_for_basis(&s, &basis(0))
        .expect("space should exist")
        .iter()
        .map(|a| a.id)
        .collect();
    ids.sort();
    ids
}

#[test]
fn join_creates_directory_and_is_idempotent() {
    let mut reg = SpaceRegistry::new();
    let s = space(1);
    assert!(!reg.has_space(&s));
    reg.join(s, agent(10));
    reg.join(s, agent(10));
    reg.join(s, agent(10));
    assert!(reg.has_space(&s));
    assert_eq!(sorted_members(&reg, s), vec![10]);
}

#[test]
fn replay_matches_set_theoretic_result() {
    // A mixed join/leave history must land on exactly the fold of
    // inserts and removes in message order.
    let s = space(1);
    let other = space(2);
    let ops = vec![
        MembershipOp::Join(s, agent(10)),
        MembershipOp::Join(s, agent(11)),
        MembershipOp::Join(other, agent(10)),
        MembershipOp::Leave(s, agent(10)),
        MembershipOp::Join(s, agent(12)),
        MembershipOp::Leave(s, agent(12)),
        MembershipOp::Join(s, agent(12)),
        MembershipOp::Leave(s, agent(99)), // never joined: no effect
    ];
    let mut reg = SpaceRegistry::new();
    replay_membership(&mut reg, &ops);
    assert_eq!(sorted_members(&reg, s), vec![11, 12]);
    assert_eq!(sorted_members(&reg, other), vec![10]);
}

#[test]
fn absent_space_has_no_members() {
    let reg = SpaceRegistry::new();
    let r = reg.list_online_agents_for_basis(&space(7), &basis(3));
    assert_eq!(r, Err(KitsuneP2pError::UnknownSpace(space(7))));
}

#[test]
fn leave_is_idempotent_and_keeps_entry() {
    let mut reg = SpaceRegistry::new();
    let s = space(1);
    reg.join(s, agent(10));
    reg.leave(s, agent(10));
    reg.leave(s, agent(10));
    // the (now empty) entry survives until a prune runs
    assert!(reg.has_space(&s));
    assert_eq!(sorted_members(&reg, s), Vec::<u64>::new());
}

#[test]
fn leave_on_unknown_space_is_a_no_op() {
    let mut reg = SpaceRegistry::new();
    reg.leave(space(1), agent(10));
    assert!(!reg.has_space(&space(1)));
}

#[test]
fn prune_removes_emptied_directory() {
    // leave(S, only-remaining-agent); prune-if-empty(S) => S absent,
    // and list-relevant-agents fails with UnknownSpace.
    let mut reg = SpaceRegistry::new();
    let s = space(1);
    reg.join(s, agent(10));
    reg.leave(s, agent(10));
    reg.check_prune_space(&s);
    assert!(!reg.has_space(&s));
    let r = reg.list_online_agents_for_basis(&s, &basis(0));
    assert_eq!(r, Err(KitsuneP2pError::UnknownSpace(s)));
}

#[test]
fn join_between_leave_and_prune_prevents_pruning() {
    let mut reg = SpaceRegistry::new();
    let s = space(1);
    reg.join(s, agent(10));
    reg.leave(s, agent(10));
    reg.join(s, agent(11));
    reg.check_prune_space(&s);
    assert!(reg.has_space(&s));
    assert_eq!(sorted_members(&reg, s), vec![11]);
}

#[test]
fn prune_tolerates_missing_and_populated_spaces() {
    let mut reg = SpaceRegistry::new();
    // unknown space: no-op
    reg.check_prune_space(&space(9));
    assert!(!reg.has_space(&space(9)));
    // populated space: no-op
    let s = space(1);
    reg.join(s, agent(10));
    reg.check_prune_space(&s);
    assert!(reg.has_space(&s));
    assert_eq!(sorted_members(&reg, s), vec![10]);
}

#[test]
fn route_immediate_request_needs_known_space() {
    let mut reg = SpaceRegistry::new();
    let s = space(4);
    assert_eq!(
        reg.route_immediate_request(&s),
        Err(KitsuneP2pError::UnknownSpace(s))
    );
    reg.join(s, agent(1));
    assert_eq!(reg.route_immediate_request(&s), Ok(()));
}

#[test]
fn listing_ignores_basis_under_short_circuit_policy() {
    let mut reg = SpaceRegistry::new();
    let s = space(1);
    reg.join(s, agent(10));
    reg.join(s, agent(11));
    assert_eq!(sorted_members(&reg, s), vec![10, 11]);
    let a = reg.list_online_agents_for_basis(&s, &basis(0)).unwrap();
    let b = reg.list_online_agents_for_basis(&s, &basis(12345)).unwrap();
    let mut ia: Vec<u64> = a.iter().map(|x| x.id).collect();
    let mut ib: Vec<u64> = b.iter().map(|x| x.id).collect();
    ia.sort();
    ib.sort();
    assert_eq!(ia, ib);
}
