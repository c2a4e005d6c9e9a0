//! Fan-out laws of the multi-request coordinator.
//!
//! The per-pass contract of target acquisition is an exact recursion
//! ([`spec_acquire_sent`], [`spec_acquire_targets`]); this module derives
//! the properties a reader actually cares about, for one pass and then for
//! a whole invocation of any number of passes: the requester is never
//! dispatched to, no agent is dispatched to twice, and acquisition honours
//! the quorum.

use vstd::prelude::*;

use crate::multi_request::MultiRequestState;
use crate::multi_request::spec_acquire_sent;
use crate::multi_request::spec_acquire_targets;
use crate::seq_facts::lemma_add_to_set;
use crate::seq_facts::lemma_cons_to_set;
use crate::seq_facts::seq_views;
use crate::types::KitsuneAgent;

verus! {

/// What one acquisition pass guarantees: the contacted set only grows, by
/// exactly the emitted targets; every target is a fresh snapshot agent
/// other than the requester, none is emitted twice; and the contacted
/// count never overshoots the quorum.
pub proof fn lemma_acquire_properties(
    sent: Set<KitsuneAgent>,
    requester: KitsuneAgent,
    snapshot: Seq<KitsuneAgent>,
    quota: int,
)
    requires
        sent.finite(),
    ensures
        spec_acquire_sent(sent, requester, snapshot, quota).finite(),
        sent.subset_of(spec_acquire_sent(sent, requester, snapshot, quota)),
        spec_acquire_sent(sent, requester, snapshot, quota) == sent.union(
            spec_acquire_targets(sent, requester, snapshot, quota).to_set(),
        ),
        spec_acquire_targets(sent, requester, snapshot, quota).no_duplicates(),
        forall|a: KitsuneAgent|
            #[trigger] spec_acquire_targets(sent, requester, snapshot, quota).contains(a)
                ==> snapshot.contains(a) && a != requester && !sent.contains(a),
        sent.len() < quota ==> spec_acquire_sent(sent, requester, snapshot, quota).len() <= quota,
        spec_acquire_sent(sent, requester, snapshot, quota).len() < quota ==> forall|
            a: KitsuneAgent,
        |
            snapshot.contains(a) && a != requester ==> spec_acquire_sent(
                sent,
                requester,
                snapshot,
                quota,
            ).contains(a),
    decreases snapshot.len(),
{
    let result = spec_acquire_sent(sent, requester, snapshot, quota);
    let targets = spec_acquire_targets(sent, requester, snapshot, quota);
    if snapshot.len() == 0 {
        assert(Seq::<KitsuneAgent>::empty().to_set() =~= Set::<KitsuneAgent>::empty());
        assert(result =~= sent.union(targets.to_set()));
    } else {
        let a0 = snapshot[0];
        let fresh = a0 != requester && !sent.contains(a0);
        let stepped = if fresh {
            sent.insert(a0)
        } else {
            sent
        };
        let head: Seq<KitsuneAgent> = if fresh {
            seq![a0]
        } else {
            Seq::empty()
        };
        if fresh {
            lemma_cons_to_set(a0, Seq::<KitsuneAgent>::empty());
            assert(seq![a0] + Seq::<KitsuneAgent>::empty() =~= seq![a0]);
        }
        assert(Seq::<KitsuneAgent>::empty().to_set() =~= Set::<KitsuneAgent>::empty());
        assert(head.to_set() =~= (if fresh {
            Set::empty().insert(a0)
        } else {
            Set::<KitsuneAgent>::empty()
        }));
        if stepped.len() >= quota {
            assert(result == stepped);
            assert(targets == head);
            assert(result =~= sent.union(targets.to_set()));
            assert(targets.no_duplicates());
            assert forall|a: KitsuneAgent| #[trigger] targets.contains(a) implies snapshot.contains(
                a,
            ) && a != requester && !sent.contains(a) by {
                assert(targets[0] == a0);
                assert(snapshot.contains(a0));
            }
        } else {
            let rec_sent = spec_acquire_sent(stepped, requester, snapshot.drop_first(), quota);
            let rec_targets = spec_acquire_targets(
                stepped,
                requester,
                snapshot.drop_first(),
                quota,
            );
            lemma_acquire_properties(stepped, requester, snapshot.drop_first(), quota);
            assert(result == rec_sent);
            assert(targets == head + rec_targets);

            // the emitted targets are exactly what the contacted set gained
            lemma_add_to_set(head, rec_targets);
            assert(result =~= sent.union(targets.to_set()));

            // freshness of each target with respect to the pass entry state
            assert forall|a: KitsuneAgent| #[trigger] targets.contains(a) implies snapshot.contains(
                a,
            ) && a != requester && !sent.contains(a) by {
                let k = choose|k: int| 0 <= k < targets.len() && targets[k] == a;
                if fresh && k == 0 {
                    assert(a == a0);
                    assert(snapshot.contains(a0));
                } else {
                    assert(rec_targets[k - head.len()] == a);
                    assert(rec_targets.contains(a));
                    let j = choose|j: int|
                        0 <= j < snapshot.drop_first().len() && snapshot.drop_first()[j] == a;
                    assert(snapshot[j + 1] == a);
                }
            }

            // no target is emitted twice
            assert forall|i: int, j: int|
                0 <= i < head.len() && 0 <= j < rec_targets.len() implies head[i]
                != rec_targets[j] by {
                assert(rec_targets.contains(rec_targets[j]));
                assert(!stepped.contains(rec_targets[j]));
            }
            vstd::seq_lib::lemma_no_dup_in_concat(head, rec_targets);

            // the quorum is honoured
            if sent.len() < quota {
                assert(stepped.len() <= sent.len() + 1);
            }

            // short of the quorum, every eligible snapshot agent was contacted
            if result.len() < quota {
                assert forall|a: KitsuneAgent|
                    snapshot.contains(a) && a != requester implies result.contains(a) by {
                    let j = choose|j: int| 0 <= j < snapshot.len() && snapshot[j] == a;
                    if j == 0 {
                        assert(stepped.contains(a0));
                    } else {
                        assert(snapshot.drop_first()[j - 1] == a);
                        assert(snapshot.drop_first().contains(a));
                    }
                }
            }
        }
    }
}

/// Contacted set after a whole invocation: the passes run in order, each
/// starting from the contacted set the previous one left behind.
pub open spec fn spec_acquire_run_sent(
    sent: Set<KitsuneAgent>,
    requester: KitsuneAgent,
    snapshots: Seq<Seq<KitsuneAgent>>,
    quota: int,
) -> Set<KitsuneAgent>
    decreases snapshots.len(),
{
    if snapshots.len() == 0 {
        sent
    } else {
        spec_acquire_run_sent(
            spec_acquire_sent(sent, requester, snapshots[0], quota),
            requester,
            snapshots.drop_first(),
            quota,
        )
    }
}

/// All targets dispatched over a whole invocation, in dispatch order.
pub open spec fn spec_acquire_run_targets(
    sent: Set<KitsuneAgent>,
    requester: KitsuneAgent,
    snapshots: Seq<Seq<KitsuneAgent>>,
    quota: int,
) -> Seq<KitsuneAgent>
    decreases snapshots.len(),
{
    if snapshots.len() == 0 {
        Seq::empty()
    } else {
        spec_acquire_targets(sent, requester, snapshots[0], quota) + spec_acquire_run_targets(
            spec_acquire_sent(sent, requester, snapshots[0], quota),
            requester,
            snapshots.drop_first(),
            quota,
        )
    }
}

/// Over a whole multi-request invocation -- however many discovery passes
/// it takes, and whatever each pass discovers -- the requester is never
/// dispatched to, and no agent is sent more than one request.
pub proof fn lemma_requester_excluded_and_each_agent_once(
    sent: Set<KitsuneAgent>,
    requester: KitsuneAgent,
    snapshots: Seq<Seq<KitsuneAgent>>,
    quota: int,
)
    requires
        sent.finite(),
        !sent.contains(requester),
    ensures
        spec_acquire_run_targets(sent, requester, snapshots, quota).no_duplicates(),
        !spec_acquire_run_targets(sent, requester, snapshots, quota).contains(requester),
        forall|a: KitsuneAgent|
            #[trigger] spec_acquire_run_targets(sent, requester, snapshots, quota).contains(a)
                ==> !sent.contains(a),
        spec_acquire_run_sent(sent, requester, snapshots, quota) == sent.union(
            spec_acquire_run_targets(sent, requester, snapshots, quota).to_set(),
        ),
        spec_acquire_run_sent(sent, requester, snapshots, quota).finite(),
        !spec_acquire_run_sent(sent, requester, snapshots, quota).contains(requester),
    decreases snapshots.len(),
{
    let run_sent = spec_acquire_run_sent(sent, requester, snapshots, quota);
    let run_targets = spec_acquire_run_targets(sent, requester, snapshots, quota);
    if snapshots.len() == 0 {
        assert(Seq::<KitsuneAgent>::empty().to_set() =~= Set::<KitsuneAgent>::empty());
        assert(run_sent =~= sent.union(run_targets.to_set()));
    } else {
        let pass_sent = spec_acquire_sent(sent, requester, snapshots[0], quota);
        let pass_targets = spec_acquire_targets(sent, requester, snapshots[0], quota);
        lemma_acquire_properties(sent, requester, snapshots[0], quota);
        assert(!pass_sent.contains(requester));
        lemma_requester_excluded_and_each_agent_once(
            pass_sent,
            requester,
            snapshots.drop_first(),
            quota,
        );
        let rec_targets = spec_acquire_run_targets(
            pass_sent,
            requester,
            snapshots.drop_first(),
            quota,
        );
        assert(run_targets == pass_targets + rec_targets);

        // targets of later passes are fresh with respect to this pass
        assert forall|i: int, j: int|
            0 <= i < pass_targets.len() && 0 <= j < rec_targets.len() implies pass_targets[i]
            != rec_targets[j] by {
            assert(pass_targets.contains(pass_targets[i]));
            assert(rec_targets.contains(rec_targets[j]));
            assert(pass_sent.contains(pass_targets[i]));
            assert(!pass_sent.contains(rec_targets[j]));
        }
        vstd::seq_lib::lemma_no_dup_in_concat(pass_targets, rec_targets);

        assert forall|a: KitsuneAgent| #[trigger] run_targets.contains(a) implies !sent.contains(a)
            && a != requester by {
            let k = choose|k: int| 0 <= k < run_targets.len() && run_targets[k] == a;
            if k < pass_targets.len() {
                assert(pass_targets[k] == a);
                assert(pass_targets.contains(a));
            } else {
                assert(rec_targets[k - pass_targets.len()] == a);
                assert(rec_targets.contains(a));
            }
        }
        if run_targets.contains(requester) {
            assert(false);
        }

        lemma_add_to_set(pass_targets, rec_targets);
        assert(run_sent =~= sent.union(run_targets.to_set()));
    }
}

/// Drives a whole acquisition phase: one pass per discovery snapshot, in
/// order, each starting from the contacted set the previous pass left
/// behind.  Returns every agent dispatched to, in dispatch order; by
/// [`lemma_requester_excluded_and_each_agent_once`] that list never holds
/// the requester and never an agent twice.
pub fn acquire_passes(
    state: &mut MultiRequestState,
    snapshots: &Vec<Vec<KitsuneAgent>>,
    remote_agent_count: u8,
) -> (dispatched: Vec<KitsuneAgent>)
    requires
        old(state).wf(),
    ensures
        final(state).wf(),
        final(state).requester() == old(state).requester(),
        final(state).responses() == old(state).responses(),
        final(state).sent() == spec_acquire_run_sent(
            old(state).sent(),
            old(state).requester(),
            seq_views(snapshots@),
            remote_agent_count as int,
        ),
        dispatched@ == spec_acquire_run_targets(
            old(state).sent(),
            old(state).requester(),
            seq_views(snapshots@),
            remote_agent_count as int,
        ),
{
    let ghost req = old(state).requester();
    let ghost sent0 = old(state).sent();
    let ghost quota: int = remote_agent_count as int;
    let ghost vs = seq_views(snapshots@);
    let mut dispatched: Vec<KitsuneAgent> = Vec::new();
    let mut i: usize = 0;
    proof {
        assert(vs.skip(0) =~= vs);
        assert(Seq::<KitsuneAgent>::empty() + spec_acquire_run_targets(sent0, req, vs, quota)
            =~= spec_acquire_run_targets(sent0, req, vs, quota));
    }
    while i < snapshots.len()
        invariant
            state.wf(),
            state.requester() == req,
            req == old(state).requester(),
            sent0 == old(state).sent(),
            state.responses() == old(state).responses(),
            0 <= i <= snapshots@.len(),
            quota == remote_agent_count as int,
            vs == seq_views(snapshots@),
            vs.len() == snapshots@.len(),
            spec_acquire_run_sent(sent0, req, vs, quota) == spec_acquire_run_sent(
                state.sent(),
                req,
                vs.skip(i as int),
                quota,
            ),
            spec_acquire_run_targets(sent0, req, vs, quota) == dispatched@
                + spec_acquire_run_targets(state.sent(), req, vs.skip(i as int), quota),
        decreases snapshots@.len() - i,
    {
        let ghost pre_sent = state.sent();
        let ghost pre_dispatched = dispatched@;
        let ghost rem = vs.skip(i as int);
        proof {
            assert(rem.len() > 0);
            assert(rem[0] == vs[i as int]);
            assert(vs[i as int] == snapshots@[i as int]@);
            assert(rem.drop_first() =~= vs.skip(i as int + 1));
        }
        let mut targets = state.acquire_targets(&snapshots[i], remote_agent_count);
        let ghost pass_targets = targets@;
        dispatched.append(&mut targets);
        i += 1;
        proof {
            assert(dispatched@ == pre_dispatched + pass_targets);
            assert((pre_dispatched + pass_targets) + spec_acquire_run_targets(
                state.sent(),
                req,
                rem.drop_first(),
                quota,
            ) =~= pre_dispatched + (pass_targets + spec_acquire_run_targets(
                state.sent(),
                req,
                rem.drop_first(),
                quota,
            )));
        }
    }
    proof {
        assert(vs.skip(vs.len() as int) =~= Seq::<Seq<KitsuneAgent>>::empty());
        assert(dispatched@ + Seq::<KitsuneAgent>::empty() =~= dispatched@);
    }
    dispatched
}

/// The per-invocation state never targets the requester: whatever has been
/// fed through `acquire_targets` and `record_response`, the requester is
/// absent from the contacted set and from every collected response.
pub proof fn lemma_state_excludes_requester(state: MultiRequestState)
    requires
        state.wf(),
    ensures
        !state.sent().contains(state.requester()),
        forall|i: int|
            0 <= i < state.responses().len() ==> (#[trigger] state.responses()[i]).agent
                != state.requester(),
{
    state.lemma_wf_facts();
}

} // verus!
