//! Replay laws of the membership state.
//!
//! The routing actor observes `join` and `leave` operations strictly one at
//! a time, so the directory contents of every space are determined by the
//! sequence of operations delivered to the actor.  This module states that
//! determination: replaying any operation sequence leaves each space with
//! exactly the set-theoretic fold of its inserts and removes, in message
//! order, and an emptied directory is pruned unless a later `join` revives
//! it first.

use vstd::prelude::*;

use crate::registry::Membership;
use crate::registry::SpaceRegistry;
use crate::registry::spec_join;
use crate::registry::spec_leave;
use crate::registry::spec_members;
use crate::registry::spec_prune;
use crate::types::KitsuneAgent;
use crate::types::KitsuneSpace;

verus! {

/// One membership mutation, in the order the actor observed it.
#[derive(Clone, Copy, Debug, PartialEq, Eq, Structural)]
pub enum MembershipOp {
    /// The agent joined the space.
    Join(KitsuneSpace, KitsuneAgent),
    /// The agent left the space.
    Leave(KitsuneSpace, KitsuneAgent),
}

/// Effect of a single operation on the whole registry state.
pub open spec fn spec_apply_op(m: Membership, op: MembershipOp) -> Membership {
    match op {
        MembershipOp::Join(s, a) => spec_join(m, s, a),
        MembershipOp::Leave(s, a) => spec_leave(m, s, a),
    }
}

/// Effect of an operation sequence on the whole registry state, first
/// operation first.
pub open spec fn spec_replay(m: Membership, ops: Seq<MembershipOp>) -> Membership
    decreases ops.len(),
{
    if ops.len() == 0 {
        m
    } else {
        spec_replay(spec_apply_op(m, ops[0]), ops.drop_first())
    }
}

/// Effect of a single operation on one space's member set alone: a
/// set-theoretic insert or remove when the operation addresses that space,
/// and no effect otherwise.
pub open spec fn spec_apply_op_members(
    members: Set<KitsuneAgent>,
    space: KitsuneSpace,
    op: MembershipOp,
) -> Set<KitsuneAgent> {
    match op {
        MembershipOp::Join(s, a) => if s == space {
            members.insert(a)
        } else {
            members
        },
        MembershipOp::Leave(s, a) => if s == space {
            members.remove(a)
        } else {
            members
        },
    }
}

/// The set-theoretic fold of an operation sequence over one space's member
/// set, in message order.
pub open spec fn spec_replay_members(
    members: Set<KitsuneAgent>,
    space: KitsuneSpace,
    ops: Seq<MembershipOp>,
) -> Set<KitsuneAgent>
    decreases ops.len(),
{
    if ops.len() == 0 {
        members
    } else {
        spec_replay_members(spec_apply_op_members(members, space, ops[0]), space, ops.drop_first())
    }
}

/// One operation changes one space's member set exactly as its
/// set-theoretic counterpart does.
proof fn lemma_apply_op_members(m: Membership, space: KitsuneSpace, op: MembershipOp)
    ensures
        spec_members(spec_apply_op(m, op), space) == spec_apply_op_members(
            spec_members(m, space),
            space,
            op,
        ),
{
    match op {
        MembershipOp::Join(s, a) => {
            if s != space {
                assert(spec_members(spec_join(m, s, a), space) =~= spec_members(m, space));
            }
        },
        MembershipOp::Leave(s, a) => {
            if s == space && !m.dom().contains(s) {
                assert(Set::<KitsuneAgent>::empty().remove(a) =~= Set::<KitsuneAgent>::empty());
            } else if s != space {
                assert(spec_members(spec_leave(m, s, a), space) =~= spec_members(m, space));
            }
        },
    }
}

/// After replaying any sequence of `join`/`leave` operations, each space's
/// membership equals the set-theoretic result of applying its inserts and
/// removes in message order.
pub proof fn lemma_replay_members(m: Membership, space: KitsuneSpace, ops: Seq<MembershipOp>)
    ensures
        spec_members(spec_replay(m, ops), space) == spec_replay_members(
            spec_members(m, space),
            space,
            ops,
        ),
    decreases ops.len(),
{
    if ops.len() > 0 {
        lemma_apply_op_members(m, space, ops[0]);
        lemma_replay_members(spec_apply_op(m, ops[0]), space, ops.drop_first());
    }
}

/// A space absent from the registry has no members.
pub proof fn lemma_absent_space_has_no_members(m: Membership, space: KitsuneSpace)
    requires
        !m.dom().contains(space),
    ensures
        spec_members(m, space) == Set::<KitsuneAgent>::empty(),
{
}

/// Replays an operation sequence against an executable registry, first
/// operation first, exactly as the actor would when draining its inbox.
pub fn replay_membership(registry: &mut SpaceRegistry, ops: &Vec<MembershipOp>)
    requires
        old(registry).wf(),
    ensures
        final(registry).wf(),
        final(registry)@ == spec_replay(old(registry)@, ops@),
{
    let ghost m0 = registry@;
    proof {
        assert(ops@.skip(0) =~= ops@);
    }
    let mut i: usize = 0;
    while i < ops.len()
        invariant
            registry.wf(),
            0 <= i <= ops@.len(),
            spec_replay(m0, ops@) == spec_replay(registry@, ops@.skip(i as int)),
        decreases ops@.len() - i,
    {
        proof {
            assert(ops@.skip(i as int)[0] == ops@[i as int]);
            assert(ops@.skip(i as int).drop_first() =~= ops@.skip(i as int + 1));
        }
        match ops[i] {
            MembershipOp::Join(s, a) => registry.join(s, a),
            MembershipOp::Leave(s, a) => registry.leave(s, a),
        }
        i += 1;
    }
    proof {
        assert(ops@.skip(ops@.len() as int) =~= Seq::<MembershipOp>::empty());
    }
}

/// Registry-entry lifecycle: a `join` leaves the space present and
/// populated, a `leave` never removes the entry itself (that is the
/// prune's job), and a prune keeps exactly the entries that still have a
/// member.
pub proof fn lemma_entry_lifecycle(m: Membership, space: KitsuneSpace, agent: KitsuneAgent)
    ensures
        spec_join(m, space, agent).dom().contains(space),
        spec_members(spec_join(m, space, agent), space).contains(agent),
        spec_leave(m, space, agent).dom() == m.dom(),
        spec_prune(m, space).dom().contains(space) <==> m.dom().contains(space)
            && !m[space].is_empty(),
{
    if m.dom().contains(space) {
        assert(spec_leave(m, space, agent).dom() =~= m.dom());
    }
}

/// After a `leave` empties a space's directory, a subsequent
/// `check_prune_space` removes the registry entry.
pub proof fn lemma_prune_after_emptying_leave(
    m: Membership,
    space: KitsuneSpace,
    agent: KitsuneAgent,
)
    requires
        m.dom().contains(space),
        m[space].subset_of(Set::empty().insert(agent)),
    ensures
        !spec_prune(spec_leave(m, space, agent), space).dom().contains(space),
{
    let after = spec_leave(m, space, agent);
    assert(after[space] =~= Set::<KitsuneAgent>::empty());
}

/// A `join` that lands between the `leave` and the `check_prune_space`
/// re-populates the directory and prevents the pruning: the entry survives
/// with the joining agent as a member.
pub proof fn lemma_join_prevents_prune(
    m: Membership,
    space: KitsuneSpace,
    agent: KitsuneAgent,
    joiner: KitsuneAgent,
)
    ensures
        spec_prune(spec_join(spec_leave(m, space, agent), space, joiner), space).dom().contains(
            space,
        ),
        spec_members(
            spec_prune(spec_join(spec_leave(m, space, agent), space, joiner), space),
            space,
        ) == spec_members(spec_leave(m, space, agent), space).insert(joiner),
{
    let joined = spec_join(spec_leave(m, space, agent), space, joiner);
    assert(joined[space].contains(joiner));
    assert(!joined[space].is_empty());
}

} // verus!
