//! Small facts about sequences viewed as sets, shared by the fan-out
//! modules.

use vstd::prelude::*;

verus! {

/// The mathematical snapshots of an executable snapshot list.
pub open spec fn seq_views<A>(s: Seq<Vec<A>>) -> Seq<Seq<A>> {
    s.map_values(|v: Vec<A>| v@)
}

/// Appending an element to a sequence inserts it into the induced set.
pub proof fn lemma_push_to_set<A>(s: Seq<A>, a: A)
    ensures
        s.push(a).to_set() == s.to_set().insert(a),
{
    assert forall|x: A| #[trigger] s.push(a).contains(x) implies (s.contains(x) || x == a) by {
        let j = choose|j: int| 0 <= j < s.push(a).len() && s.push(a)[j] == x;
        if j < s.len() {
            assert(s[j] == x);
        }
    }
    assert forall|x: A| s.contains(x) || x == a implies #[trigger] s.push(a).contains(x) by {
        if s.contains(x) {
            let j = choose|j: int| 0 <= j < s.len() && s[j] == x;
            assert(s.push(a)[j] == x);
        } else {
            assert(s.push(a)[s.len() as int] == a);
        }
    }
    assert(s.push(a).to_set() =~= s.to_set().insert(a));
}

/// Prepending an element to a sequence inserts it into the induced set.
pub proof fn lemma_cons_to_set<A>(a: A, s: Seq<A>)
    ensures
        (seq![a] + s).to_set() == s.to_set().insert(a),
{
    let c = seq![a] + s;
    assert forall|x: A| #[trigger] c.contains(x) implies (s.contains(x) || x == a) by {
        let j = choose|j: int| 0 <= j < c.len() && c[j] == x;
        if j >= 1 {
            assert(s[j - 1] == x);
        }
    }
    assert forall|x: A| s.contains(x) || x == a implies #[trigger] c.contains(x) by {
        if s.contains(x) {
            let j = choose|j: int| 0 <= j < s.len() && s[j] == x;
            assert(c[j + 1] == x);
        } else {
            assert(c[0] == a);
        }
    }
    assert(c.to_set() =~= s.to_set().insert(a));
}

/// Concatenating sequences unions their induced sets.
pub proof fn lemma_add_to_set<A>(s1: Seq<A>, s2: Seq<A>)
    ensures
        (s1 + s2).to_set() == s1.to_set().union(s2.to_set()),
{
    let c = s1 + s2;
    assert forall|x: A| #[trigger] c.contains(x) implies (s1.contains(x) || s2.contains(x)) by {
        let j = choose|j: int| 0 <= j < c.len() && c[j] == x;
        if j < s1.len() {
            assert(s1[j] == x);
        } else {
            assert(s2[j - s1.len()] == x);
        }
    }
    assert forall|x: A| s1.contains(x) || s2.contains(x) implies #[trigger] c.contains(x) by {
        if s1.contains(x) {
            let j = choose|j: int| 0 <= j < s1.len() && s1[j] == x;
            assert(c[j] == x);
        } else {
            let j = choose|j: int| 0 <= j < s2.len() && s2[j] == x;
            assert(c[j + s1.len()] == x);
        }
    }
    assert(c.to_set() =~= s1.to_set().union(s2.to_set()));
}

} // verus!
