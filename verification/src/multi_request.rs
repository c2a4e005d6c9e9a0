//! The multi-request coordinator's decision core.
//!
//! A multi-request sends a request to up to a target quorum of distinct
//! agents other than the requester and collects whatever responses arrive
//! under a two-stage deadline: a race window during which new targets are
//! still sought, and a hard deadline past which nothing is awaited.  This
//! module holds the resolved schedule of an invocation and the
//! per-invocation target/response state; the actor loop around it performs
//! the dispatches, the channel reads and the sleeps.

use vstd::prelude::*;

use crate::agent_set::AgentSet;
use crate::config::DEFAULT_MULTI_REQUEST_RACE_TIMEOUT_MS;
use crate::config::DEFAULT_MULTI_REQUEST_REMOTE_AGENT_COUNT;
use crate::config::DEFAULT_MULTI_REQUEST_TIMEOUT_MS;
use crate::config::resolve_count;
use crate::config::resolve_ms;
use crate::config::spec_resolve_count;
use crate::config::spec_resolve_ms;
use crate::registry::SpaceRegistry;
use crate::types::KitsuneAgent;
use crate::types::KitsuneBasis;
use crate::types::KitsuneP2pError;
use crate::types::KitsuneSpace;

verus! {

/// Caller-facing input of `multi_request`.
pub struct MultiRequest {
    /// The space to request within.
    pub space: KitsuneSpace,
    /// The requesting agent; never itself a target.
    pub from_agent: KitsuneAgent,
    /// The routing key selecting the relevant agents.
    pub basis: KitsuneBasis,
    /// Target quorum of distinct respondents.  `None` or zero falls back
    /// to the default.
    pub remote_agent_count: Option<u8>,
    /// Hard deadline in milliseconds.  `None` or zero falls back to the
    /// default.
    pub timeout_ms: Option<u64>,
    /// Whether to close early at the race deadline once the quorum is met.
    pub as_race: bool,
    /// Race deadline in milliseconds; only read when `as_race` is set.
    pub race_timeout_ms: Option<u64>,
    /// The payload handed to the wire codec and then to the transport.
    pub payload: Vec<u8>,
}

/// One collected response: which agent answered, and with what.
#[derive(Debug, PartialEq, Eq)]
pub struct MultiRequestResponse {
    /// The responding agent.
    pub agent: KitsuneAgent,
    /// Its raw response bytes.
    pub response: Vec<u8>,
}

/// The resolved schedule of one multi-request invocation.
#[derive(Clone, Copy, Debug, PartialEq, Eq, Structural)]
pub struct MultiRequestPlan {
    /// The resolved quorum of distinct targets.
    pub remote_agent_count: u8,
    /// The resolved hard deadline, in milliseconds.
    pub timeout_ms: u64,
    /// The resolved race deadline, in milliseconds; equal to the hard
    /// deadline when racing is disabled, never beyond it.
    pub race_timeout_ms: u64,
}

/// The schedule a multi-request invocation resolves to: quorum and hard
/// deadline get their defaults, and the race deadline is defaulted and
/// clamped below the hard deadline when racing, or forced equal to the
/// hard deadline when not.
pub open spec fn spec_multi_request_plan(
    remote_agent_count: Option<u8>,
    timeout_ms: Option<u64>,
    as_race: bool,
    race_timeout_ms: Option<u64>,
) -> MultiRequestPlan {
    let quorum = spec_resolve_count(remote_agent_count, DEFAULT_MULTI_REQUEST_REMOTE_AGENT_COUNT);
    let timeout = spec_resolve_ms(timeout_ms, DEFAULT_MULTI_REQUEST_TIMEOUT_MS);
    let race = if as_race {
        let wanted = spec_resolve_ms(race_timeout_ms, DEFAULT_MULTI_REQUEST_RACE_TIMEOUT_MS);
        if wanted > timeout {
            timeout
        } else {
            wanted
        }
    } else {
        timeout
    };
    MultiRequestPlan { remote_agent_count: quorum, timeout_ms: timeout, race_timeout_ms: race }
}

/// Remaining wait before the next deadline check: up to the race deadline
/// while it is ahead, up to the hard deadline after, clamped to never go
/// negative and floored at one millisecond so a timer is always armed with
/// a valid duration.
pub open spec fn spec_wait_budget(race_timeout_ms: u64, timeout_ms: u64, elapsed_ms: u64) -> u64 {
    let remaining: u64 = if elapsed_ms > race_timeout_ms {
        if timeout_ms >= elapsed_ms {
            (timeout_ms - elapsed_ms) as u64
        } else {
            0u64
        }
    } else {
        (race_timeout_ms - elapsed_ms) as u64
    };
    if remaining < 1 {
        1u64
    } else {
        remaining
    }
}

impl MultiRequestPlan {
    /// Executable counterpart of [`spec_wait_budget`].
    pub fn wait_budget_ms(&self, elapsed_ms: u64) -> (r: u64)
        ensures
            r == spec_wait_budget(self.race_timeout_ms, self.timeout_ms, elapsed_ms),
    {
        let remaining: u64 = if elapsed_ms > self.race_timeout_ms {
            if self.timeout_ms >= elapsed_ms {
                self.timeout_ms - elapsed_ms
            } else {
                0
            }
        } else {
            self.race_timeout_ms - elapsed_ms
        };
        if remaining < 1 {
            1
        } else {
            remaining
        }
    }
}

impl SpaceRegistry {
    /// Entry decision of `multi_request`: rejects an unknown space and
    /// resolves the caller's options into a definite schedule.
    ///
    /// Fails with `UnknownSpace` exactly when the space has no registry
    /// entry at call time; unresponsive peers never fail a multi-request.
    pub fn plan_multi_request(&self, input: &MultiRequest) -> (r: Result<
        MultiRequestPlan,
        KitsuneP2pError,
    >)
        ensures
            r is Ok <==> self@.dom().contains(input.space),
            r matches Err(e) ==> e == KitsuneP2pError::UnknownSpace(input.space),
            r matches Ok(p) ==> p == spec_multi_request_plan(
                input.remote_agent_count,
                input.timeout_ms,
                input.as_race,
                input.race_timeout_ms,
            ),
    {
        if !self.has_space(&input.space) {
            return Err(KitsuneP2pError::UnknownSpace(input.space));
        }
        let quorum = resolve_count(input.remote_agent_count, DEFAULT_MULTI_REQUEST_REMOTE_AGENT_COUNT);
        let timeout_ms = resolve_ms(input.timeout_ms, DEFAULT_MULTI_REQUEST_TIMEOUT_MS);
        let race_timeout_ms: u64 = if input.as_race {
            let wanted = resolve_ms(input.race_timeout_ms, DEFAULT_MULTI_REQUEST_RACE_TIMEOUT_MS);
            if wanted > timeout_ms {
                timeout_ms
            } else {
                wanted
            }
        } else {
            timeout_ms
        };
        Ok(MultiRequestPlan { remote_agent_count: quorum, timeout_ms, race_timeout_ms })
    }
}

/// With racing disabled the supplied race deadline is irrelevant: whatever
/// the caller passed, the schedule forces it equal to the hard deadline.
pub proof fn lemma_race_timeout_ignored_without_race(
    remote_agent_count: Option<u8>,
    timeout_ms: Option<u64>,
    race_a: Option<u64>,
    race_b: Option<u64>,
)
    ensures
        spec_multi_request_plan(remote_agent_count, timeout_ms, false, race_a)
            == spec_multi_request_plan(remote_agent_count, timeout_ms, false, race_b),
        spec_multi_request_plan(remote_agent_count, timeout_ms, false, race_a).race_timeout_ms
            == spec_multi_request_plan(remote_agent_count, timeout_ms, false, race_a).timeout_ms,
{
}

/// The race deadline never lies beyond the hard deadline.
pub proof fn lemma_race_window_within_deadline(
    remote_agent_count: Option<u8>,
    timeout_ms: Option<u64>,
    as_race: bool,
    race_timeout_ms: Option<u64>,
)
    ensures
        spec_multi_request_plan(remote_agent_count, timeout_ms, as_race, race_timeout_ms)
            .race_timeout_ms <= spec_multi_request_plan(
            remote_agent_count,
            timeout_ms,
            as_race,
            race_timeout_ms,
        ).timeout_ms,
{
}

/// Target set after one acquisition pass over `snapshot`, starting from
/// the already-contacted set `sent`: each snapshot agent in turn is
/// contacted when it is neither the requester nor contacted already, and
/// the pass stops as soon as the contacted count has reached `quota`.
pub open spec fn spec_acquire_sent(
    sent: Set<KitsuneAgent>,
    requester: KitsuneAgent,
    snapshot: Seq<KitsuneAgent>,
    quota: int,
) -> Set<KitsuneAgent>
    decreases snapshot.len(),
{
    if snapshot.len() == 0 {
        sent
    } else {
        let a = snapshot[0];
        let stepped = if a != requester && !sent.contains(a) {
            sent.insert(a)
        } else {
            sent
        };
        if stepped.len() >= quota {
            stepped
        } else {
            spec_acquire_sent(stepped, requester, snapshot.drop_first(), quota)
        }
    }
}

/// The newly contacted agents of the same pass, in dispatch order.
pub open spec fn spec_acquire_targets(
    sent: Set<KitsuneAgent>,
    requester: KitsuneAgent,
    snapshot: Seq<KitsuneAgent>,
    quota: int,
) -> Seq<KitsuneAgent>
    decreases snapshot.len(),
{
    if snapshot.len() == 0 {
        Seq::empty()
    } else {
        let a = snapshot[0];
        let fresh = a != requester && !sent.contains(a);
        let stepped = if fresh {
            sent.insert(a)
        } else {
            sent
        };
        let head: Seq<KitsuneAgent> = if fresh {
            seq![a]
        } else {
            Seq::empty()
        };
        if stepped.len() >= quota {
            head
        } else {
            head + spec_acquire_targets(stepped, requester, snapshot.drop_first(), quota)
        }
    }
}

/// Per-invocation fan-out state of one multi-request: the requester, the
/// agents already sent a request, and the responses collected so far.
pub struct MultiRequestState {
    from_agent: KitsuneAgent,
    sent_to: AgentSet,
    responses: Vec<MultiRequestResponse>,
}

impl MultiRequestState {
    /// The requester of this invocation.
    pub closed spec fn requester(&self) -> KitsuneAgent {
        self.from_agent
    }

    /// The agents contacted so far.
    pub closed spec fn sent(&self) -> Set<KitsuneAgent> {
        self.sent_to@
    }

    /// The responses collected so far, oldest first.
    pub closed spec fn responses(&self) -> Seq<MultiRequestResponse> {
        self.responses@
    }

    /// Whether `agent` has already answered.
    pub open spec fn responded(&self, agent: KitsuneAgent) -> bool {
        exists|i: int| 0 <= i < self.responses().len() && (#[trigger] self.responses()[i]).agent
            == agent
    }

    /// The contact set holds each agent at most once and never the
    /// requester; every response comes from a contacted agent, and no agent
    /// answers twice.
    pub closed spec fn wf(&self) -> bool {
        &&& self.sent_to.wf()
        &&& !self.sent_to@.contains(self.from_agent)
        &&& forall|i: int|
            0 <= i < self.responses@.len() ==> self.sent_to@.contains(
                (#[trigger] self.responses@[i]).agent,
            )
        &&& forall|i: int, j: int|
            0 <= i < j < self.responses@.len() ==> self.responses@[i].agent
                != self.responses@[j].agent
    }

    /// What well-formedness gives callers: the requester is never among
    /// the contacted agents, every response comes from a contacted agent,
    /// no agent answers twice, and the contacted set is finite.
    pub proof fn lemma_wf_facts(&self)
        requires
            self.wf(),
        ensures
            !self.sent().contains(self.requester()),
            forall|i: int|
                0 <= i < self.responses().len() ==> self.sent().contains(
                    (#[trigger] self.responses()[i]).agent,
                ),
            forall|i: int, j: int|
                0 <= i < j < self.responses().len() ==> self.responses()[i].agent
                    != self.responses()[j].agent,
            self.sent().finite(),
    {
        self.sent_to.lemma_view_finite();
    }

    /// Fresh state at the start of an invocation.
    pub fn new(from_agent: KitsuneAgent) -> (s: Self)
        ensures
            s.wf(),
            s.requester() == from_agent,
            s.sent() == Set::<KitsuneAgent>::empty(),
            s.responses() == Seq::<MultiRequestResponse>::empty(),
    {
        MultiRequestState {
            from_agent,
            sent_to: AgentSet::new(),
            responses: Vec::new(),
        }
    }

    /// One acquisition pass: walks the discovered snapshot in order,
    /// contacts each agent that is neither the requester nor contacted
    /// already, and stops as soon as the contacted count reaches the
    /// quorum.  Returns the newly contacted agents for dispatch.
    pub fn acquire_targets(&mut self, agent_list: &Vec<KitsuneAgent>, remote_agent_count: u8) -> (targets: Vec<KitsuneAgent>)
        requires
            old(self).wf(),
        ensures
            final(self).wf(),
            final(self).requester() == old(self).requester(),
            final(self).responses() == old(self).responses(),
            final(self).sent() == spec_acquire_sent(
                old(self).sent(),
                old(self).requester(),
                agent_list@,
                remote_agent_count as int,
            ),
            targets@ == spec_acquire_targets(
                old(self).sent(),
                old(self).requester(),
                agent_list@,
                remote_agent_count as int,
            ),
    {
        let ghost req = self.from_agent;
        let ghost sent0 = self.sent_to@;
        let ghost quota: int = remote_agent_count as int;
        let quota_usize: usize = remote_agent_count as usize;
        let mut targets: Vec<KitsuneAgent> = Vec::new();
        let mut i: usize = 0;
        proof {
            assert(agent_list@.skip(0) =~= agent_list@);
            assert(Seq::<KitsuneAgent>::empty() + spec_acquire_targets(sent0, req, agent_list@, quota)
                =~= spec_acquire_targets(sent0, req, agent_list@, quota));
        }
        while i < agent_list.len()
            invariant_except_break
                spec_acquire_sent(sent0, req, agent_list@, quota) == spec_acquire_sent(
                    self.sent_to@,
                    req,
                    agent_list@.skip(i as int),
                    quota,
                ),
                spec_acquire_targets(sent0, req, agent_list@, quota) == targets@
                    + spec_acquire_targets(self.sent_to@, req, agent_list@.skip(i as int), quota),
            invariant
                self.wf(),
                self.from_agent == req,
                req == old(self).from_agent,
                sent0 == old(self).sent_to@,
                self.responses@ == old(self).responses@,
                0 <= i <= agent_list@.len(),
                quota == remote_agent_count as int,
                quota_usize == remote_agent_count as usize,
            ensures
                self.wf(),
                self.from_agent == req,
                self.responses@ == old(self).responses@,
                self.sent_to@ == spec_acquire_sent(sent0, req, agent_list@, quota),
                targets@ == spec_acquire_targets(sent0, req, agent_list@, quota),
            decreases agent_list@.len() - i,
        {
            let ghost rem = agent_list@.skip(i as int);
            let ghost pre_sent = self.sent_to@;
            let ghost pre_targets = targets@;
            proof {
                assert(rem.len() > 0);
                assert(rem[0] == agent_list@[i as int]);
                assert(rem.drop_first() =~= agent_list@.skip(i as int + 1));
            }
            let agent = agent_list[i];
            let ghost fresh = agent != req && !pre_sent.contains(agent);
            if agent != self.from_agent && !self.sent_to.contains(&agent) {
                self.sent_to.insert(agent);
                targets.push(agent);
            }
            i += 1;
            proof {
                if fresh {
                    assert(self.sent_to@ == pre_sent.insert(agent));
                    assert(targets@ == pre_targets.push(agent));
                    assert(pre_targets.push(agent) =~= pre_targets + seq![agent]);
                } else {
                    assert(self.sent_to@ == pre_sent);
                    assert(targets@ == pre_targets);
                    assert(pre_targets =~= pre_targets + Seq::<KitsuneAgent>::empty());
                }
            }
            if self.sent_to.len() >= quota_usize {
                proof {
                    assert(spec_acquire_sent(pre_sent, req, rem, quota) == self.sent_to@);
                    if fresh {
                        assert(spec_acquire_targets(pre_sent, req, rem, quota) == seq![agent]);
                        assert(targets@ == pre_targets + seq![agent]);
                    } else {
                        assert(spec_acquire_targets(pre_sent, req, rem, quota)
                            == Seq::<KitsuneAgent>::empty());
                    }
                    assert(targets@ == pre_targets + spec_acquire_targets(pre_sent, req, rem, quota));
                }
                break;
            }
            proof {
                assert(spec_acquire_sent(pre_sent, req, rem, quota) == spec_acquire_sent(
                    self.sent_to@,
                    req,
                    rem.drop_first(),
                    quota,
                ));
                let head: Seq<KitsuneAgent> = if fresh {
                    seq![agent]
                } else {
                    Seq::empty()
                };
                assert(spec_acquire_targets(pre_sent, req, rem, quota) == head
                    + spec_acquire_targets(self.sent_to@, req, rem.drop_first(), quota));
                assert(targets@ == pre_targets + head);
                assert((pre_targets + head) + spec_acquire_targets(
                    self.sent_to@,
                    req,
                    rem.drop_first(),
                    quota,
                ) =~= pre_targets + (head + spec_acquire_targets(
                    self.sent_to@,
                    req,
                    rem.drop_first(),
                    quota,
                )));
            }
        }
        proof {
            if i == agent_list@.len() {
                assert(agent_list@.skip(i as int) =~= Seq::<KitsuneAgent>::empty());
                assert(targets@ + Seq::<KitsuneAgent>::empty() =~= targets@);
            }
        }
        targets
    }

    /// Whether `agent` was sent a request in this invocation; the actor
    /// loop checks this before it feeds a channel entry back in.
    pub fn was_contacted(&self, agent: &KitsuneAgent) -> (b: bool)
        ensures
            b == self.sent().contains(*agent),
    {
        self.sent_to.contains(agent)
    }

    /// Whether `agent` has already answered.
    pub fn has_response_from(&self, agent: &KitsuneAgent) -> (b: bool)
        ensures
            b == self.responded(*agent),
    {
        let mut i: usize = 0;
        while i < self.responses.len()
            invariant
                0 <= i <= self.responses@.len(),
                forall|j: int| 0 <= j < i ==> (#[trigger] self.responses@[j]).agent != *agent,
            decreases self.responses@.len() - i,
        {
            if self.responses[i].agent == *agent {
                proof {
                    assert(self.responses()[i as int].agent == *agent);
                }
                return true;
            }
            i += 1;
        }
        false
    }

    /// Records one response from the shared channel.  Each dispatched
    /// agent answers at most once, so the caller only feeds in responses
    /// from contacted agents that have not answered yet.
    pub fn record_response(&mut self, agent: KitsuneAgent, response: Vec<u8>)
        requires
            old(self).wf(),
            old(self).sent().contains(agent),
            !old(self).responded(agent),
        ensures
            final(self).wf(),
            final(self).requester() == old(self).requester(),
            final(self).sent() == old(self).sent(),
            final(self).responses() == old(self).responses().push(
                MultiRequestResponse { agent, response },
            ),
    {
        let ghost before = self.responses@;
        self.responses.push(MultiRequestResponse { agent, response });
        proof {
            assert forall|i: int, j: int|
                0 <= i < j < self.responses@.len() implies self.responses@[i].agent
                != self.responses@[j].agent by {
                if j == self.responses@.len() - 1 && before[i].agent == agent {
                    assert(old(self).responses()[i].agent == agent);
                }
            }
        }
    }

    /// Number of responses collected so far.
    pub fn response_count(&self) -> (n: usize)
        ensures
            n == self.responses().len(),
    {
        self.responses.len()
    }

    /// Number of agents contacted so far.
    pub fn contacted_count(&self) -> (n: usize)
        requires
            self.wf(),
        ensures
            n == self.sent().len(),
    {
        self.sent_to.len()
    }

    /// Phase 1 exit test: acquisition stops once the contacted count has
    /// reached the quorum or the race deadline has passed.
    pub fn acquisition_complete(&self, plan: &MultiRequestPlan, elapsed_ms: u64) -> (b: bool)
        requires
            self.wf(),
        ensures
            b == (self.sent().len() >= plan.remote_agent_count || elapsed_ms
                > plan.race_timeout_ms),
    {
        self.sent_to.len() >= plan.remote_agent_count as usize || elapsed_ms > plan.race_timeout_ms
    }

    /// Phase 2 exit test: collection stops at the hard deadline, or once
    /// the race window has closed with the quorum of responses met.
    /// Stopping short of the quorum is normal termination, not an error.
    pub fn collection_complete(&self, plan: &MultiRequestPlan, elapsed_ms: u64) -> (b: bool)
        ensures
            b == (elapsed_ms > plan.timeout_ms || (elapsed_ms > plan.race_timeout_ms
                && self.responses().len() >= plan.remote_agent_count)),
    {
        elapsed_ms > plan.timeout_ms || (elapsed_ms > plan.race_timeout_ms && self.responses.len()
            >= plan.remote_agent_count as usize)
    }

    /// Hands the collected responses to the caller, oldest first.
    pub fn into_responses(self) -> (r: Vec<MultiRequestResponse>)
        ensures
            r@ == self.responses(),
    {
        self.responses
    }
}

} // verus!
