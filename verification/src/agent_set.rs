//! A duplicate-free set of agents, backed by a vector.
//!
//! One value of this type serves two roles in the core: the peer directory
//! of a space (its current membership) and the "already contacted" set of a
//! fan-out invocation.  Its view is the mathematical set of agents it holds.

use vstd::prelude::*;

use crate::types::KitsuneAgent;

verus! {

/// A set of agents with no duplicates.
pub struct AgentSet {
    vec: Vec<KitsuneAgent>,
}

impl View for AgentSet {
    type V = Set<KitsuneAgent>;

    closed spec fn view(&self) -> Set<KitsuneAgent> {
        self.vec@.to_set()
    }
}

impl AgentSet {
    /// The backing vector holds each agent at most once.
    pub closed spec fn wf(&self) -> bool {
        self.vec@.no_duplicates()
    }

    /// The view of any agent set is finite.
    pub proof fn lemma_view_finite(&self)
        ensures
            self@.finite(),
    {
        broadcast use vstd::seq_lib::seq_to_set_is_finite;
    }

    /// The view of a well-formed set is as large as its vector.
    proof fn lemma_view_len(&self)
        requires
            self.wf(),
        ensures
            self@.finite(),
            self@.len() == self.vec@.len(),
    {
        broadcast use vstd::seq_lib::seq_to_set_is_finite;

        self.vec@.unique_seq_to_set();
    }

    /// Creates an empty agent set.
    pub fn new() -> (s: Self)
        ensures
            s.wf(),
            s@ == Set::<KitsuneAgent>::empty(),
    {
        let s = AgentSet { vec: Vec::new() };
        proof {
            assert(s.vec@.to_set() =~= Set::<KitsuneAgent>::empty());
        }
        s
    }

    /// Number of agents in the set.
    pub fn len(&self) -> (n: usize)
        requires
            self.wf(),
        ensures
            n == self@.len(),
    {
        proof {
            self.lemma_view_len();
        }
        self.vec.len()
    }

    /// Whether the set holds no agent.
    pub fn is_empty(&self) -> (b: bool)
        requires
            self.wf(),
        ensures
            b == self@.is_empty(),
    {
        let n = self.vec.len();
        proof {
            self.lemma_view_len();
            if self.vec@.len() == 0 {
                assert(self@ =~= Set::<KitsuneAgent>::empty());
            } else {
                assert(self@.contains(self.vec@[0]));
            }
        }
        n == 0
    }

    /// Whether `agent` is in the set.
    pub fn contains(&self, agent: &KitsuneAgent) -> (b: bool)
        ensures
            b == self@.contains(*agent),
    {
        let mut i: usize = 0;
        while i < self.vec.len()
            invariant
                0 <= i <= self.vec@.len(),
                forall|j: int| 0 <= j < i ==> self.vec@[j] != *agent,
            decreases self.vec@.len() - i,
        {
            if self.vec[i] == *agent {
                return true;
            }
            i += 1;
        }
        proof {
            assert(!self.vec@.contains(*agent));
        }
        false
    }

    /// Inserts `agent`; a no-op when it is already present.
    pub fn insert(&mut self, agent: KitsuneAgent)
        requires
            old(self).wf(),
        ensures
            final(self).wf(),
            final(self)@ == old(self)@.insert(agent),
    {
        if !self.contains(&agent) {
            let ghost before = self.vec@;
            self.vec.push(agent);
            proof {
                assert forall|x: KitsuneAgent| #[trigger] self.vec@.contains(x)
                    <==> (before.contains(x) || x == agent) by {
                    if self.vec@.contains(x) {
                        let j = choose|j: int| 0 <= j < self.vec@.len() && self.vec@[j] == x;
                        if j < before.len() {
                            assert(before[j] == x);
                        }
                    } else {
                        if before.contains(x) {
                            let j = choose|j: int| 0 <= j < before.len() && before[j] == x;
                            assert(self.vec@[j] == x);
                        }
                        assert(self.vec@[before.len() as int] == agent);
                    }
                }
                assert(self.vec@.to_set() =~= before.to_set().insert(agent));
            }
        } else {
            proof {
                assert(self.vec@.to_set() =~= self.vec@.to_set().insert(agent));
            }
        }
    }

    /// Removes `agent`; a no-op when it is absent.
    pub fn remove(&mut self, agent: &KitsuneAgent)
        requires
            old(self).wf(),
        ensures
            final(self).wf(),
            final(self)@ == old(self)@.remove(*agent),
    {
        let ghost before = self.vec@;
        let mut i: usize = 0;
        while i < self.vec.len()
            invariant
                0 <= i <= self.vec@.len(),
                self.vec@ == before,
                before == old(self).vec@,
                before.no_duplicates(),
                forall|j: int| 0 <= j < i ==> self.vec@[j] != *agent,
            decreases self.vec@.len() - i,
        {
            if self.vec[i] == *agent {
                self.vec.remove(i);
                proof {
                    Self::lemma_seq_remove_at(before, i as int);
                    assert(self.vec@.to_set() =~= before.to_set().remove(*agent));
                }
                return;
            }
            i += 1;
        }
        proof {
            assert(!before.contains(*agent));
            assert(self.vec@.to_set() =~= before.to_set().remove(*agent));
        }
    }

    /// Removing the element at `i` from a duplicate-free sequence removes
    /// exactly that element from the induced set.
    proof fn lemma_seq_remove_at(s: Seq<KitsuneAgent>, i: int)
        requires
            s.no_duplicates(),
            0 <= i < s.len(),
        ensures
            s.remove(i).no_duplicates(),
            s.remove(i).to_set() =~= s.to_set().remove(s[i]),
    {
        s.remove_ensures(i);
        let r = s.remove(i);
        assert forall|x: KitsuneAgent| #[trigger] r.contains(x)
            <==> (s.contains(x) && x != s[i]) by {
            if r.contains(x) {
                let j = choose|j: int| 0 <= j < r.len() && r[j] == x;
                if j < i {
                    assert(s[j] == x);
                } else {
                    assert(s[j + 1] == x);
                }
            } else if s.contains(x) && x != s[i] {
                let j = choose|j: int| 0 <= j < s.len() && s[j] == x;
                if j < i {
                    assert(r[j] == x);
                } else {
                    assert(r[j - 1] == x);
                }
            }
        }
    }

    /// Copies the members out as a duplicate-free vector.
    ///
    /// The order of the result is an implementation detail: callers may only
    /// rely on which agents appear.
    pub fn to_vec(&self) -> (v: Vec<KitsuneAgent>)
        requires
            self.wf(),
        ensures
            v@.no_duplicates(),
            v@.to_set() == self@,
            v@.len() == self@.len(),
    {
        let mut v: Vec<KitsuneAgent> = Vec::new();
        let mut i: usize = 0;
        while i < self.vec.len()
            invariant
                0 <= i <= self.vec@.len(),
                v@ == self.vec@.subrange(0, i as int),
            decreases self.vec@.len() - i,
        {
            v.push(self.vec[i]);
            i += 1;
        }
        proof {
            assert(v@ =~= self.vec@);
            self.lemma_view_len();
        }
        v
    }
}

} // verus!
