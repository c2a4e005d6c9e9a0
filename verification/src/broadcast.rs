//! The broadcast coordinator's decision core.
//!
//! A broadcast repeatedly discovers the agents relevant to a basis over a
//! bounded time window, sends the payload to every newly discovered agent
//! exactly once (fire-and-forget), and reports a best-effort count of
//! confirmed deliveries.  This module holds everything the coordinator
//! decides: the resolved schedule of an invocation and the per-invocation
//! contact/counter state.  The actor loop around it performs the actual
//! dispatches and sleeps.

use vstd::prelude::*;

use crate::agent_set::AgentSet;
use crate::config::DEFAULT_BROADCAST_REMOTE_AGENT_COUNT;
use crate::config::DEFAULT_BROADCAST_TIMEOUT_MS;
use crate::config::resolve_count;
use crate::config::resolve_ms;
use crate::config::spec_resolve_count;
use crate::config::spec_resolve_ms;
use crate::registry::SpaceRegistry;
use crate::types::KitsuneAgent;
use crate::types::KitsuneBasis;
use crate::types::KitsuneP2pError;
use crate::types::KitsuneSpace;

verus! {

/// Caller-facing input of `broadcast`.
pub struct Broadcast {
    /// The space to broadcast within.
    pub space: KitsuneSpace,
    /// The routing key selecting the relevant agents.
    pub basis: KitsuneBasis,
    /// Target agent count; informational under the short-circuit policy.
    /// `None` or zero falls back to the default.
    pub remote_agent_count: Option<u8>,
    /// Time budget in milliseconds.  `None` or zero falls back to the
    /// default and detaches the invocation.
    pub timeout_ms: Option<u64>,
    /// The payload handed to the wire codec and then to the transport.
    pub payload: Vec<u8>,
}

/// The resolved schedule of one broadcast invocation.
#[derive(Clone, Copy, Debug, PartialEq, Eq, Structural)]
pub struct BroadcastPlan {
    /// The resolved agent count.  Informational: under the short-circuit
    /// policy delivery always targets the full relevant set.
    pub remote_agent_count: u8,
    /// The resolved time budget of the discovery loop, in milliseconds.
    pub timeout_ms: u64,
    /// The sleep between discovery passes, in milliseconds.
    pub check_interval_ms: u64,
    /// Whether the invocation runs detached: the caller gets a nominal `0`
    /// at once and the loop proceeds on its own.
    pub detach: bool,
}

/// The interval between discovery passes: a fifth of the budget, clamped
/// into `[10 ms, timeout]`.
pub open spec fn spec_check_interval(timeout_ms: u64) -> u64 {
    let per_check = timeout_ms / 5;
    let raised = if per_check < 10 {
        10u64
    } else {
        per_check
    };
    if raised > timeout_ms {
        timeout_ms
    } else {
        raised
    }
}

/// Whether the caller asked for fire-and-forget semantics: an unset or
/// zero timeout.
pub open spec fn spec_detach(timeout_ms: Option<u64>) -> bool {
    match timeout_ms {
        Some(t) => t == 0,
        None => true,
    }
}

/// The schedule a broadcast invocation resolves to.
pub open spec fn spec_broadcast_plan(
    remote_agent_count: Option<u8>,
    timeout_ms: Option<u64>,
) -> BroadcastPlan {
    let timeout = spec_resolve_ms(timeout_ms, DEFAULT_BROADCAST_TIMEOUT_MS);
    BroadcastPlan {
        remote_agent_count: spec_resolve_count(
            remote_agent_count,
            DEFAULT_BROADCAST_REMOTE_AGENT_COUNT,
        ),
        timeout_ms: timeout,
        check_interval_ms: spec_check_interval(timeout),
        detach: spec_detach(timeout_ms),
    }
}

impl BroadcastPlan {
    /// The value handed back to the caller at once when the invocation is
    /// detached; `None` when the caller awaits the loop's own count.
    pub fn immediate_return(&self) -> (r: Option<u8>)
        ensures
            r == (if self.detach {
                Some(0u8)
            } else {
                None::<u8>
            }),
    {
        if self.detach {
            Some(0)
        } else {
            None
        }
    }

    /// The discovery loop keeps going until the elapsed wall-clock time
    /// reaches the budget; dispatches still in flight at that point are
    /// left to finish on their own.
    pub fn keep_discovering(&self, elapsed_ms: u64) -> (b: bool)
        ensures
            b == (elapsed_ms < self.timeout_ms),
    {
        elapsed_ms < self.timeout_ms
    }
}

impl SpaceRegistry {
    /// Entry decision of `broadcast`: rejects an unknown space and resolves
    /// the caller's options into a definite schedule.
    ///
    /// Fails with `UnknownSpace` exactly when the space has no registry
    /// entry at call time; unreachable peers never fail a broadcast.
    pub fn plan_broadcast(&self, input: &Broadcast) -> (r: Result<BroadcastPlan, KitsuneP2pError>)
        ensures
            r is Ok <==> self@.dom().contains(input.space),
            r matches Err(e) ==> e == KitsuneP2pError::UnknownSpace(input.space),
            r matches Ok(p) ==> p == spec_broadcast_plan(input.remote_agent_count, input.timeout_ms),
    {
        if !self.has_space(&input.space) {
            return Err(KitsuneP2pError::UnknownSpace(input.space));
        }
        let timeout_ms = resolve_ms(input.timeout_ms, DEFAULT_BROADCAST_TIMEOUT_MS);
        let per_check: u64 = timeout_ms / 5;
        let raised: u64 = if per_check < 10 {
            10
        } else {
            per_check
        };
        let check_interval_ms: u64 = if raised > timeout_ms {
            timeout_ms
        } else {
            raised
        };
        let detach = match input.timeout_ms {
            Some(t) => t == 0,
            None => true,
        };
        Ok(
            BroadcastPlan {
                remote_agent_count: resolve_count(
                    input.remote_agent_count,
                    DEFAULT_BROADCAST_REMOTE_AGENT_COUNT,
                ),
                timeout_ms,
                check_interval_ms,
                detach,
            },
        )
    }
}

/// Union of everything a sequence of discovery snapshots saw.
pub open spec fn spec_snapshots_union(snapshots: Seq<Seq<KitsuneAgent>>) -> Set<KitsuneAgent>
    decreases snapshots.len(),
{
    if snapshots.len() == 0 {
        Set::empty()
    } else {
        snapshots[0].to_set().union(spec_snapshots_union(snapshots.drop_first()))
    }
}

/// Per-invocation fan-out state of one broadcast: the agents already
/// contacted and the confirmed-delivery counter.
pub struct BroadcastState {
    sent_to: AgentSet,
    success_count: u8,
}

impl BroadcastState {
    /// The contact set holds each agent at most once.
    pub closed spec fn wf(&self) -> bool {
        self.sent_to.wf()
    }

    /// The agents contacted so far in this invocation.
    pub closed spec fn sent(&self) -> Set<KitsuneAgent> {
        self.sent_to@
    }

    /// The confirmed-delivery counter (eight bits wide; wraps around).
    pub closed spec fn successes(&self) -> u8 {
        self.success_count
    }

    /// Fresh state at the start of an invocation.
    pub fn new() -> (s: Self)
        ensures
            s.wf(),
            s.sent() == Set::<KitsuneAgent>::empty(),
            s.successes() == 0,
    {
        BroadcastState { sent_to: AgentSet::new(), success_count: 0 }
    }

    /// One discovery pass: every agent of the snapshot not yet contacted is
    /// marked contacted and returned for dispatch, so no agent is ever sent
    /// the payload twice within one invocation.
    ///
    /// The pass takes no agent count: under the short-circuit policy the
    /// broadcast fan-out is never gated by `remote_agent_count`.
    pub fn record_new_targets(&mut self, agent_list: &Vec<KitsuneAgent>) -> (targets: Vec<
        KitsuneAgent,
    >)
        requires
            old(self).wf(),
        ensures
            final(self).wf(),
            final(self).successes() == old(self).successes(),
            final(self).sent() == old(self).sent().union(agent_list@.to_set()),
            targets@.no_duplicates(),
            targets@.to_set() == agent_list@.to_set().difference(old(self).sent()),
    {
        let ghost sent0 = self.sent_to@;
        let mut targets: Vec<KitsuneAgent> = Vec::new();
        let mut i: usize = 0;
        proof {
            assert(self.sent_to@ =~= sent0.union(agent_list@.subrange(0, 0).to_set()));
            assert(targets@.to_set() =~= agent_list@.subrange(0, 0).to_set().difference(sent0));
        }
        while i < agent_list.len()
            invariant
                self.wf(),
                self.success_count == old(self).success_count,
                0 <= i <= agent_list@.len(),
                self.sent_to@ == sent0.union(agent_list@.subrange(0, i as int).to_set()),
                targets@.no_duplicates(),
                targets@.to_set() == agent_list@.subrange(0, i as int).to_set().difference(sent0),
            decreases agent_list@.len() - i,
        {
            let ghost pre = agent_list@.subrange(0, i as int);
            let agent = agent_list[i];
            proof {
                assert(pre.push(agent) =~= agent_list@.subrange(0, i as int + 1));
                crate::seq_facts::lemma_push_to_set(pre, agent);
            }
            if !self.sent_to.contains(&agent) {
                self.sent_to.insert(agent);
                let ghost targets_pre = targets@;
                proof {
                    assert(!targets@.to_set().contains(agent));
                    assert(!targets@.contains(agent));
                }
                targets.push(agent);
                proof {
                    crate::seq_facts::lemma_push_to_set(targets_pre, agent);
                }
                proof {
                    assert(targets@.to_set() =~= agent_list@.subrange(
                        0,
                        i as int + 1,
                    ).to_set().difference(sent0));
                    assert(self.sent_to@ =~= sent0.union(
                        agent_list@.subrange(0, i as int + 1).to_set(),
                    ));
                }
            } else {
                proof {
                    assert(targets@.to_set() =~= agent_list@.subrange(
                        0,
                        i as int + 1,
                    ).to_set().difference(sent0));
                    assert(self.sent_to@ =~= sent0.union(
                        agent_list@.subrange(0, i as int + 1).to_set(),
                    ));
                }
            }
            i += 1;
        }
        proof {
            assert(agent_list@.subrange(0, agent_list@.len() as int) =~= agent_list@);
        }
        targets
    }

    /// Drives the target-recording of a whole invocation: one pass per
    /// discovery snapshot, in order.  Returns every agent dispatched to, in
    /// dispatch order: each discovered agent exactly once -- the broadcast
    /// at-most-once-per-agent invariant in executable form.
    pub fn record_passes(&mut self, snapshots: &Vec<Vec<KitsuneAgent>>) -> (dispatched: Vec<
        KitsuneAgent,
    >)
        requires
            old(self).wf(),
        ensures
            final(self).wf(),
            final(self).successes() == old(self).successes(),
            final(self).sent() == old(self).sent().union(
                spec_snapshots_union(crate::seq_facts::seq_views(snapshots@)),
            ),
            dispatched@.no_duplicates(),
            dispatched@.to_set() == spec_snapshots_union(
                crate::seq_facts::seq_views(snapshots@),
            ).difference(old(self).sent()),
    {
        let ghost sent0 = self.sent_to@;
        let ghost vs = crate::seq_facts::seq_views(snapshots@);
        let mut dispatched: Vec<KitsuneAgent> = Vec::new();
        let mut i: usize = 0;
        proof {
            assert(vs.skip(0) =~= vs);
            assert(sent0.union(spec_snapshots_union(vs)) =~= sent0.union(
                spec_snapshots_union(vs.skip(0)),
            ));
        }
        while i < snapshots.len()
            invariant
                self.wf(),
                self.success_count == old(self).success_count,
                sent0 == old(self).sent_to@,
                0 <= i <= snapshots@.len(),
                vs == crate::seq_facts::seq_views(snapshots@),
                vs.len() == snapshots@.len(),
                sent0.subset_of(self.sent_to@),
                sent0.union(spec_snapshots_union(vs)) == self.sent_to@.union(
                    spec_snapshots_union(vs.skip(i as int)),
                ),
                dispatched@.no_duplicates(),
                dispatched@.to_set() == self.sent_to@.difference(sent0),
            decreases snapshots@.len() - i,
        {
            let ghost pre_sent = self.sent_to@;
            let ghost pre_dispatched = dispatched@;
            let ghost rem = vs.skip(i as int);
            proof {
                assert(rem.len() > 0);
                assert(rem[0] == vs[i as int]);
                assert(vs[i as int] == snapshots@[i as int]@);
                assert(rem.drop_first() =~= vs.skip(i as int + 1));
            }
            let mut targets = self.record_new_targets(&snapshots[i]);
            let ghost pass_targets = targets@;
            proof {
                // the new targets were not contacted before this pass, so
                // they are disjoint from everything dispatched so far
                assert forall|k: int, l: int|
                    0 <= k < pre_dispatched.len() && 0 <= l < pass_targets.len() implies
                    pre_dispatched[k] != pass_targets[l] by {
                    assert(pre_dispatched.contains(pre_dispatched[k]));
                    assert(pre_dispatched.to_set().contains(pre_dispatched[k]));
                    assert(pass_targets.contains(pass_targets[l]));
                    assert(pass_targets.to_set().contains(pass_targets[l]));
                }
                vstd::seq_lib::lemma_no_dup_in_concat(pre_dispatched, pass_targets);
            }
            dispatched.append(&mut targets);
            i += 1;
            proof {
                crate::seq_facts::lemma_add_to_set(pre_dispatched, pass_targets);
                assert(dispatched@.to_set() =~= self.sent_to@.difference(sent0));
                assert(sent0.union(spec_snapshots_union(vs)) =~= self.sent_to@.union(
                    spec_snapshots_union(vs.skip(i as int)),
                ));
            }
        }
        proof {
            assert(vs.skip(vs.len() as int) =~= Seq::<Seq<KitsuneAgent>>::empty());
            assert(spec_snapshots_union(Seq::<Seq<KitsuneAgent>>::empty())
                =~= Set::<KitsuneAgent>::empty());
            assert(self.sent_to@ =~= sent0.union(spec_snapshots_union(vs)));
            assert(dispatched@.to_set() =~= spec_snapshots_union(vs).difference(sent0));
        }
        dispatched
    }

    /// Records one confirmed delivery.  The counter is eight bits wide and
    /// wraps around.
    pub fn record_delivery_success(&mut self)
        requires
            old(self).wf(),
        ensures
            final(self).wf(),
            final(self).sent() == old(self).sent(),
            final(self).successes() == (old(self).successes() + 1) % 256,
    {
        if self.success_count == 255 {
            self.success_count = 0;
        } else {
            self.success_count = self.success_count + 1;
        }
    }

    /// The confirmed-delivery count at this moment: a lower bound on actual
    /// deliveries, since sends issued just before the deadline may confirm
    /// after the loop returns.
    pub fn confirmed_count(&self) -> (n: u8)
        ensures
            n == self.successes(),
    {
        self.success_count
    }
}

/// Broadcast delivery is not gated by the resolved agent count: plans for
/// the same timeout share the discovery schedule whatever count the caller
/// supplied, and the count never reaches the per-pass target selection at
/// all (`record_new_targets` does not take one).
pub proof fn lemma_broadcast_count_informational(c1: Option<u8>, c2: Option<u8>, t: Option<u64>)
    ensures
        spec_broadcast_plan(c1, t).timeout_ms == spec_broadcast_plan(c2, t).timeout_ms,
        spec_broadcast_plan(c1, t).check_interval_ms == spec_broadcast_plan(c2, t).check_interval_ms,
        spec_broadcast_plan(c1, t).detach == spec_broadcast_plan(c2, t).detach,
{
}

/// After a discovery pass every agent of the snapshot has been contacted:
/// the contact set absorbs the whole relevant set each pass.
pub proof fn lemma_broadcast_contacts_all(sent: Set<KitsuneAgent>, snapshot: Seq<KitsuneAgent>)
    ensures
        forall|a: KitsuneAgent|
            snapshot.contains(a) ==> sent.union(snapshot.to_set()).contains(a),
{
}

/// A zero (or unset) timeout detaches the call: the caller gets `0` at
/// once, while the detached invocation keeps the full default budget, so
/// delivery attempts still run to completion asynchronously.
pub proof fn lemma_zero_timeout_broadcast_detaches(c: Option<u8>, t: Option<u64>)
    requires
        t is None || t == Some(0u64),
    ensures
        spec_broadcast_plan(c, t).detach,
        spec_broadcast_plan(c, t).timeout_ms == DEFAULT_BROADCAST_TIMEOUT_MS,
        spec_broadcast_plan(c, t).timeout_ms > 0,
{
}

} // verus!
