//! The task registry: the single dedupe and cancellation oracle. It maps
//! each file path to an in-flight claim; a path can be claimed only while
//! no other claim on it is live, which gives every file single-flight
//! processing. The caller serialises access (one mutable borrow at a
//! time); each operation is a single atomic step of the registry's state.

use vstd::prelude::*;

verus! {

/// The set of live claims, keyed by file path.
pub struct TaskRegistry {
    claimed: Vec<String>,
}

impl TaskRegistry {
    /// No path is claimed twice.
    pub closed spec fn wf(self) -> bool {
        forall|i: int, j: int|
            0 <= i < j < self.claimed@.len() ==> self.claimed@[i]@ != self.claimed@[j]@
    }

    /// A live claim on `p` exists.
    pub closed spec fn spec_holds(self, p: Seq<char>) -> bool {
        exists|i: int| 0 <= i < self.claimed@.len() && self.claimed@[i]@ == p
    }

    /// The set of claimed paths.
    pub open spec fn spec_claims(self) -> Set<Seq<char>> {
        Set::new(|p: Seq<char>| self.spec_holds(p))
    }

    /// An empty registry: nothing is claimed.
    pub fn new() -> (r: TaskRegistry)
        ensures
            r.wf(),
            r.spec_claims() == Set::<Seq<char>>::empty(),
    {
        let r = TaskRegistry { claimed: Vec::new() };
        proof {
            assert(r.spec_claims() =~= Set::<Seq<char>>::empty());
        }
        r
    }

    /// A live claim on `path` exists.
    pub fn is_claimed(&self, path: &String) -> (r: bool)
        ensures
            r == self.spec_holds(path@),
    {
        let n = self.claimed.len();
        let mut i: usize = 0;
        while i < n
            invariant
                i <= n,
                n == self.claimed@.len(),
                forall|j: int| 0 <= j < i ==> self.claimed@[j]@ != path@,
            decreases n - i,
        {
            if self.claimed[i].eq(path) {
                return true;
            }
            i = i + 1;
        }
        false
    }

    /// Claim `path` if and only if no live claim on it exists; the claim
    /// set afterwards holds `path` either way.
    pub fn try_claim(&mut self, path: &String) -> (claimed: bool)
        requires
            old(self).wf(),
        ensures
            final(self).wf(),
            try_claim_post(*old(self), *final(self), path@, claimed),
    {
        if self.is_claimed(path) {
            proof {
                assert(self.spec_claims() =~= old(self).spec_claims().insert(path@));
            }
            return false;
        }
        self.claimed.push(path.clone());
        proof {
            let pre = old(self).claimed@;
            assert(self.claimed@[pre.len() as int]@ == path@);
            assert forall|q: Seq<char>| #[trigger]
                self.spec_holds(q) implies old(self).spec_holds(q) || q == path@ by {
                let i = choose|i: int| 0 <= i < self.claimed@.len() && self.claimed@[i]@ == q;
                if i < pre.len() {
                    assert(old(self).claimed@[i]@ == q);
                }
            }
            assert forall|q: Seq<char>| old(self).spec_holds(q) implies self.spec_holds(q) by {
                let i = choose|i: int| 0 <= i < pre.len() && pre[i]@ == q;
                assert(self.claimed@[i]@ == q);
            }
            assert(self.spec_claims() =~= old(self).spec_claims().insert(path@));
        }
        true
    }

    /// Withdraw the claim on `path`; without one, nothing changes.
    pub fn release(&mut self, path: &String)
        requires
            old(self).wf(),
        ensures
            final(self).wf(),
            final(self).spec_claims() == old(self).spec_claims().remove(path@),
    {
        let n = self.claimed.len();
        let mut i: usize = 0;
        while i < n
            invariant
                i <= n,
                n == self.claimed@.len(),
                self.wf(),
                self == old(self),
                forall|j: int| 0 <= j < i ==> self.claimed@[j]@ != path@,
            decreases n - i,
        {
            if self.claimed[i].eq(path) {
                self.claimed.remove(i);
                proof {
                    let pre = old(self).claimed@;
                    assert forall|q: Seq<char>| #[trigger]
                        self.spec_holds(q) implies old(self).spec_holds(q) && q != path@ by {
                        let k = choose|k: int|
                            0 <= k < self.claimed@.len() && self.claimed@[k]@ == q;
                        if k < i {
                            assert(pre[k]@ == q);
                        } else {
                            assert(pre[k + 1]@ == q);
                        }
                    }
                    assert forall|q: Seq<char>|
                        old(self).spec_holds(q) && q != path@ implies self.spec_holds(q) by {
                        let k = choose|k: int| 0 <= k < pre.len() && pre[k]@ == q;
                        if k < i {
                            assert(self.claimed@[k]@ == q);
                        } else {
                            assert(k != i);
                            assert(self.claimed@[k - 1]@ == q);
                        }
                    }
                    assert(self.spec_claims() =~= old(self).spec_claims().remove(path@));
                }
                return ;
            }
            i = i + 1;
        }
        proof {
            assert(!old(self).spec_holds(path@));
            assert(self.spec_claims() =~= old(self).spec_claims().remove(path@));
        }
    }

    /// Drop every claim; a task that consults the registry afterwards
    /// finds its claim gone and must not proceed.
    pub fn clear(&mut self)
        ensures
            final(self).wf(),
            final(self).spec_claims() == Set::<Seq<char>>::empty(),
    {
        self.claimed.clear();
        proof {
            assert(self.spec_claims() =~= Set::<Seq<char>>::empty());
        }
    }
}

/// What one `try_claim` call does: it succeeds exactly when no live claim
/// on `p` existed, and afterwards the claim set holds `p` either way.
pub open spec fn try_claim_post(
    pre: TaskRegistry,
    post: TaskRegistry,
    p: Seq<char>,
    claimed: bool,
) -> bool {
    &&& claimed == !pre.spec_holds(p)
    &&& post.spec_claims() == pre.spec_claims().insert(p)
}

/// Single flight: of two claims of one path, one after the other with no
/// release between them, never both succeed; and when no claim on the path
/// was live beforehand, exactly the first succeeds.
pub proof fn lemma_try_claim_single_flight(
    r0: TaskRegistry,
    r1: TaskRegistry,
    r2: TaskRegistry,
    p: Seq<char>,
    c1: bool,
    c2: bool,
)
    requires
        try_claim_post(r0, r1, p, c1),
        try_claim_post(r1, r2, p, c2),
    ensures
        !(c1 && c2),
        !r0.spec_holds(p) ==> c1 && !c2,
{
    assert(r1.spec_claims().contains(p));
    assert(r1.spec_holds(p));
}

} // verus!
