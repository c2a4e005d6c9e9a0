//! The space registry: one peer directory per space.
//!
//! The registry is the single-writer state of the routing actor.  Its view
//! is a map from space to the set of joined agents; every operation of the
//! actor (`join`, `leave`, `check_prune_space`, the directory queries of the
//! coordinators) is specified as a pure update or read of that map.
//!
//! A registry entry exists from the first `join` of its space until a
//! `check_prune_space` finds it empty after a `leave`.

use vstd::prelude::*;

use crate::agent_set::AgentSet;
use crate::types::KitsuneAgent;
use crate::types::KitsuneBasis;
use crate::types::KitsuneP2pError;
use crate::types::KitsuneSpace;

verus! {

/// The mathematical state of the registry: which spaces have a directory,
/// and which agents each directory holds.
pub type Membership = Map<KitsuneSpace, Set<KitsuneAgent>>;

/// Members of `space`: its directory's agents, or nothing at all when the
/// space has no registry entry.
pub open spec fn spec_members(m: Membership, space: KitsuneSpace) -> Set<KitsuneAgent> {
    if m.dom().contains(space) {
        m[space]
    } else {
        Set::empty()
    }
}

/// Effect of `join`: the agent is added to the space's directory, and the
/// directory is created when absent.
pub open spec fn spec_join(m: Membership, space: KitsuneSpace, agent: KitsuneAgent) -> Membership {
    m.insert(space, spec_members(m, space).insert(agent))
}

/// Effect of `leave`: the agent is removed from the directory when one
/// exists; the (possibly now empty) entry itself stays until pruned.
pub open spec fn spec_leave(m: Membership, space: KitsuneSpace, agent: KitsuneAgent) -> Membership {
    if m.dom().contains(space) {
        m.insert(space, m[space].remove(agent))
    } else {
        m
    }
}

/// Effect of `check_prune_space`: the registry entry goes away exactly when
/// it exists and holds no agent.
pub open spec fn spec_prune(m: Membership, space: KitsuneSpace) -> Membership {
    if m.dom().contains(space) && m[space].is_empty() {
        m.remove(space)
    } else {
        m
    }
}

/// Association list of registry entries, interpreted as a map.
spec fn pairs_map(ps: Seq<(KitsuneSpace, AgentSet)>) -> Membership
    decreases ps.len(),
{
    if ps.len() == 0 {
        Map::empty()
    } else {
        pairs_map(ps.drop_last()).insert(ps.last().0, ps.last().1@)
    }
}

/// No two entries are for the same space.
spec fn keys_unique(ps: Seq<(KitsuneSpace, AgentSet)>) -> bool {
    forall|i: int, j: int| 0 <= i < j < ps.len() ==> ps[i].0 != ps[j].0
}

/// The domain of the interpreted map is exactly the set of listed spaces.
proof fn lemma_pairs_map_dom(ps: Seq<(KitsuneSpace, AgentSet)>)
    ensures
        forall|k: KitsuneSpace|
            #[trigger] pairs_map(ps).dom().contains(k) <==> exists|i: int|
                0 <= i < ps.len() && (#[trigger] ps[i]).0 == k,
    decreases ps.len(),
{
    if ps.len() > 0 {
        lemma_pairs_map_dom(ps.drop_last());
        let rest = ps.drop_last();
        assert(pairs_map(ps) == pairs_map(rest).insert(ps.last().0, ps.last().1@));
        assert forall|k: KitsuneSpace| #[trigger] pairs_map(ps).dom().contains(k) implies exists|i: int|
            0 <= i < ps.len() && (#[trigger] ps[i]).0 == k by {
            if k == ps.last().0 {
                assert(ps[ps.len() - 1].0 == k);
            } else {
                assert(pairs_map(rest).dom().contains(k));
                let i = choose|i: int| 0 <= i < rest.len() && (#[trigger] rest[i]).0 == k;
                assert(rest[i] == ps[i]);
                assert(ps[i].0 == k);
            }
        }
        assert forall|k: KitsuneSpace|
            (exists|i: int| 0 <= i < ps.len() && (#[trigger] ps[i]).0 == k) implies #[trigger]
            pairs_map(ps).dom().contains(k) by {
            let i = choose|i: int| 0 <= i < ps.len() && (#[trigger] ps[i]).0 == k;
            if i < ps.len() - 1 {
                assert(rest[i].0 == k);
                assert(pairs_map(rest).dom().contains(k));
            }
        }
    }
}

/// With unique keys, the interpreted map sends each listed space to the view
/// of its directory.
proof fn lemma_pairs_map_value(ps: Seq<(KitsuneSpace, AgentSet)>)
    requires
        keys_unique(ps),
    ensures
        forall|i: int|
            0 <= i < ps.len() ==> pairs_map(ps).dom().contains((#[trigger] ps[i]).0)
                && pairs_map(ps)[ps[i].0] == ps[i].1@,
    decreases ps.len(),
{
    if ps.len() > 0 {
        let rest = ps.drop_last();
        lemma_pairs_map_value(rest);
        assert forall|i: int|
            0 <= i < ps.len() implies pairs_map(ps).dom().contains((#[trigger] ps[i]).0)
            && pairs_map(ps)[ps[i].0] == ps[i].1@ by {
            if i < ps.len() - 1 {
                assert(rest[i] == ps[i]);
                assert(ps[i].0 != ps.last().0);
            }
        }
    }
}

/// Appending an entry inserts its binding into the interpreted map.
proof fn lemma_pairs_map_push(ps: Seq<(KitsuneSpace, AgentSet)>, p: (KitsuneSpace, AgentSet))
    ensures
        pairs_map(ps.push(p)) == pairs_map(ps).insert(p.0, p.1@),
{
    assert(ps.push(p).drop_last() =~= ps);
    assert(ps.push(p).last() == p);
}

/// Deleting the entry at `i` removes its binding from the interpreted map,
/// keeps the keys unique, and leaves no entry for the deleted space.
proof fn lemma_pairs_map_remove(ps: Seq<(KitsuneSpace, AgentSet)>, i: int)
    requires
        keys_unique(ps),
        0 <= i < ps.len(),
    ensures
        pairs_map(ps.remove(i)) =~= pairs_map(ps).remove(ps[i].0),
        keys_unique(ps.remove(i)),
        forall|j: int| 0 <= j < ps.remove(i).len() ==> (#[trigger] ps.remove(i)[j]).0 != ps[i].0,
        forall|j: int|
            0 <= j < ps.remove(i).len() ==> (exists|l: int|
                0 <= l < ps.len() && #[trigger] ps.remove(i)[j] == ps[l]),
    decreases ps.len(),
{
    let k = ps[i].0;
    let n = ps.len() as int;
    ps.remove_ensures(i);
    assert forall|j: int| 0 <= j < ps.remove(i).len() implies (exists|l: int|
        0 <= l < ps.len() && #[trigger] ps.remove(i)[j] == ps[l]) by {
        if j < i {
            assert(ps.remove(i)[j] == ps[j]);
        } else {
            assert(ps.remove(i)[j] == ps[j + 1]);
        }
    }
    assert forall|j: int| 0 <= j < ps.remove(i).len() implies (#[trigger] ps.remove(i)[j]).0
        != k by {
        if j < i {
            assert(ps.remove(i)[j] == ps[j]);
        } else {
            assert(ps.remove(i)[j] == ps[j + 1]);
        }
    }
    assert forall|j1: int, j2: int|
        0 <= j1 < j2 < ps.remove(i).len() implies (#[trigger] ps.remove(i)[j1]).0
        != (#[trigger] ps.remove(i)[j2]).0 by {
        let o1: int = if j1 < i { j1 } else { j1 + 1 };
        let o2: int = if j2 < i { j2 } else { j2 + 1 };
        assert(ps.remove(i)[j1] == ps[o1]);
        assert(ps.remove(i)[j2] == ps[o2]);
    }
    if i == n - 1 {
        assert(ps.remove(i) =~= ps.drop_last());
        lemma_pairs_map_dom(ps.drop_last());
        assert(!pairs_map(ps.drop_last()).dom().contains(k)) by {
            assert(forall|j: int|
                0 <= j < ps.drop_last().len() ==> (#[trigger] ps.drop_last()[j]).0 != k);
        }
        assert(pairs_map(ps.drop_last()) =~= pairs_map(ps.drop_last()).insert(k,
            ps.last().1@).remove(k));
    } else {
        let rest = ps.drop_last();
        let last = ps.last();
        rest.remove_ensures(i);
        assert(ps.remove(i).drop_last() =~= rest.remove(i)) by {
            assert forall|j: int| 0 <= j < n - 2 implies ps.remove(i).drop_last()[j] == rest.remove(
                i,
            )[j] by {
                if j < i {
                    assert(ps.remove(i)[j] == ps[j]);
                    assert(rest.remove(i)[j] == rest[j]);
                } else {
                    assert(ps.remove(i)[j] == ps[j + 1]);
                    assert(rest.remove(i)[j] == rest[j + 1]);
                }
            }
        }
        assert(ps.remove(i).last() == last) by {
            assert(ps.remove(i)[n - 2] == ps[n - 1]);
        }
        lemma_pairs_map_remove(rest, i);
        assert(pairs_map(ps.remove(i)) == pairs_map(rest.remove(i)).insert(last.0, last.1@));
        assert(k != last.0);
        assert(pairs_map(rest).remove(k).insert(last.0, last.1@) =~= pairs_map(rest).insert(last.0,
            last.1@).remove(k));
    }
}

/// The space registry, owned by the routing actor.
pub struct SpaceRegistry {
    spaces: Vec<(KitsuneSpace, AgentSet)>,
}

impl View for SpaceRegistry {
    type V = Membership;

    closed spec fn view(&self) -> Membership {
        pairs_map(self.spaces@)
    }
}

impl SpaceRegistry {
    /// Entries are per-space (no duplicate spaces) and every directory is a
    /// duplicate-free agent set.
    pub closed spec fn wf(&self) -> bool {
        &&& keys_unique(self.spaces@)
        &&& forall|i: int| 0 <= i < self.spaces@.len() ==> (#[trigger] self.spaces@[i]).1.wf()
    }

    /// Creates an empty registry.
    pub fn new() -> (r: Self)
        ensures
            r.wf(),
            r@ == Map::<KitsuneSpace, Set<KitsuneAgent>>::empty(),
    {
        SpaceRegistry { spaces: Vec::new() }
    }

    /// Index of the entry for `space`, if any.
    fn find(&self, space: &KitsuneSpace) -> (r: Option<usize>)
        ensures
            match r {
                Some(i) => i < self.spaces@.len() && self.spaces@[i as int].0 == *space,
                None => forall|j: int|
                    0 <= j < self.spaces@.len() ==> (#[trigger] self.spaces@[j]).0 != *space,
            },
    {
        let mut i: usize = 0;
        while i < self.spaces.len()
            invariant
                0 <= i <= self.spaces@.len(),
                forall|j: int| 0 <= j < i ==> (#[trigger] self.spaces@[j]).0 != *space,
            decreases self.spaces@.len() - i,
        {
            if self.spaces[i].0 == *space {
                return Some(i);
            }
            i += 1;
        }
        None
    }

    /// Whether `space` currently has a registry entry.
    pub fn has_space(&self, space: &KitsuneSpace) -> (b: bool)
        ensures
            b == self@.dom().contains(*space),
    {
        proof {
            lemma_pairs_map_dom(self.spaces@);
        }
        match self.find(space) {
            Some(i) => {
                proof {
                    assert(self.spaces@[i as int].0 == *space);
                }
                true
            },
            None => false,
        }
    }

    /// `join(space, agent)`: inserts the agent into the space's directory,
    /// creating the directory when absent.  Idempotent; never fails.
    pub fn join(&mut self, space: KitsuneSpace, agent: KitsuneAgent)
        requires
            old(self).wf(),
        ensures
            final(self).wf(),
            final(self)@ == spec_join(old(self)@, space, agent),
    {
        let ghost ps0 = self.spaces@;
        proof {
            lemma_pairs_map_dom(ps0);
            lemma_pairs_map_value(ps0);
        }
        match self.find(&space) {
            Some(i) => {
                let mut pair = self.spaces.remove(i);
                pair.1.insert(agent);
                self.spaces.push(pair);
                proof {
                    lemma_pairs_map_remove(ps0, i as int);
                    lemma_pairs_map_push(ps0.remove(i as int), pair);
                    assert(pairs_map(ps0).dom().contains(space));
                    assert(pairs_map(ps0)[space] == ps0[i as int].1@);
                    assert(self@ =~= spec_join(pairs_map(ps0), space, agent));
                    assert forall|l: int|
                        0 <= l < self.spaces@.len() implies (#[trigger] self.spaces@[l]).1.wf() by {
                        if l < self.spaces@.len() - 1 {
                            let o = choose|o: int|
                                0 <= o < ps0.len() && #[trigger] ps0.remove(i as int)[l] == ps0[o];
                            assert(ps0[o].1.wf());
                        }
                    }
                }
            },
            None => {
                let mut directory = AgentSet::new();
                directory.insert(agent);
                self.spaces.push((space, directory));
                proof {
                    lemma_pairs_map_push(ps0, (space, directory));
                    assert(!pairs_map(ps0).dom().contains(space));
                    assert(self@ =~= spec_join(pairs_map(ps0), space, agent));
                    assert forall|l: int|
                        0 <= l < self.spaces@.len() implies (#[trigger] self.spaces@[l]).1.wf() by {
                        if l < ps0.len() {
                            assert(self.spaces@[l] == ps0[l]);
                        }
                    }
                }
            },
        }
    }

    /// `leave(space, agent)`: removes the agent from the space's directory;
    /// a no-op when the space or the agent is unknown.  Never fails.
    ///
    /// The caller is expected to follow a completed `leave` with an
    /// asynchronous `check_prune_space` on the same space.
    pub fn leave(&mut self, space: KitsuneSpace, agent: KitsuneAgent)
        requires
            old(self).wf(),
        ensures
            final(self).wf(),
            final(self)@ == spec_leave(old(self)@, space, agent),
    {
        let ghost ps0 = self.spaces@;
        proof {
            lemma_pairs_map_dom(ps0);
            lemma_pairs_map_value(ps0);
        }
        match self.find(&space) {
            Some(i) => {
                let mut pair = self.spaces.remove(i);
                pair.1.remove(&agent);
                self.spaces.push(pair);
                proof {
                    lemma_pairs_map_remove(ps0, i as int);
                    lemma_pairs_map_push(ps0.remove(i as int), pair);
                    assert(pairs_map(ps0).dom().contains(space));
                    assert(pairs_map(ps0)[space] == ps0[i as int].1@);
                    assert(self@ =~= spec_leave(pairs_map(ps0), space, agent));
                    assert forall|l: int|
                        0 <= l < self.spaces@.len() implies (#[trigger] self.spaces@[l]).1.wf() by {
                        if l < self.spaces@.len() - 1 {
                            let o = choose|o: int|
                                0 <= o < ps0.len() && #[trigger] ps0.remove(i as int)[l] == ps0[o];
                            assert(ps0[o].1.wf());
                        }
                    }
                }
            },
            None => {
                proof {
                    assert(!pairs_map(ps0).dom().contains(space));
                }
            },
        }
    }

    /// `check_prune_space(space)`: removes the registry entry exactly when
    /// it exists and its directory is empty; a no-op otherwise.
    ///
    /// Membership is checked at invocation time, so the operation tolerates
    /// being scheduled long before it runs: a `join` that lands in between
    /// re-populates the directory and prevents the prune.
    pub fn check_prune_space(&mut self, space: &KitsuneSpace)
        requires
            old(self).wf(),
        ensures
            final(self).wf(),
            final(self)@ == spec_prune(old(self)@, *space),
    {
        let ghost ps0 = self.spaces@;
        proof {
            lemma_pairs_map_dom(ps0);
            lemma_pairs_map_value(ps0);
        }
        match self.find(space) {
            Some(i) => {
                if self.spaces[i].1.is_empty() {
                    self.spaces.remove(i);
                    proof {
                        lemma_pairs_map_remove(ps0, i as int);
                        assert(pairs_map(ps0)[*space].is_empty());
                        assert(self@ =~= spec_prune(pairs_map(ps0), *space));
                        assert forall|l: int|
                            0 <= l < self.spaces@.len() implies (
                        #[trigger] self.spaces@[l]).1.wf() by {
                            let o = choose|o: int|
                                0 <= o < ps0.len() && #[trigger] ps0.remove(i as int)[l] == ps0[o];
                            assert(ps0[o].1.wf());
                        }
                    }
                } else {
                    proof {
                        assert(pairs_map(ps0).dom().contains(*space));
                        assert(!pairs_map(ps0)[*space].is_empty());
                    }
                }
            },
            None => {
                proof {
                    assert(!pairs_map(ps0).dom().contains(*space));
                }
            },
        }
    }

    /// `list-relevant-agents`: the agents of `space` that are relevant to
    /// `basis`.
    ///
    /// Under the short-circuit (full-sync) routing policy the basis is
    /// ignored and the whole membership is returned; the parameter stays so
    /// that a proximity policy can replace the body without changing any
    /// caller.  Fails with `UnknownSpace` exactly when the space has no
    /// registry entry.
    pub fn list_online_agents_for_basis(&self, space: &KitsuneSpace, _basis: &KitsuneBasis) -> (r:
        Result<Vec<KitsuneAgent>, KitsuneP2pError>)
        requires
            self.wf(),
        ensures
            r is Ok <==> self@.dom().contains(*space),
            r matches Err(e) ==> e == KitsuneP2pError::UnknownSpace(*space),
            r matches Ok(v) ==> v@.to_set() == spec_members(self@, *space) && v@.no_duplicates(),
    {
        proof {
            lemma_pairs_map_dom(self.spaces@);
            lemma_pairs_map_value(self.spaces@);
        }
        match self.find(space) {
            Some(i) => {
                proof {
                    assert(self.spaces@[i as int].0 == *space);
                }
                Ok(self.spaces[i].1.to_vec())
            },
            None => Err(KitsuneP2pError::UnknownSpace(*space)),
        }
    }

    /// Decision half of `immediate_request` (`dispatch-to-agent`): a remote
    /// dispatch may proceed exactly when the space has a registry entry.
    ///
    /// On `Ok` the caller hands the agent and the encoded payload to the
    /// transport collaborator; the transport's own failure is per-agent and
    /// is absorbed by the fan-out loops, never surfaced through here.
    pub fn route_immediate_request(&self, space: &KitsuneSpace) -> (r: Result<
        (),
        KitsuneP2pError,
    >)
        ensures
            r is Ok <==> self@.dom().contains(*space),
            r matches Err(e) ==> e == KitsuneP2pError::UnknownSpace(*space),
    {
        if self.has_space(space) {
            Ok(())
        } else {
            Err(KitsuneP2pError::UnknownSpace(*space))
        }
    }
}

} // verus!
