//! The singleton guard: process-wide mutual exclusion that decides whether
//! an invocation becomes the server or stays a client.
//!
//! The exclusion itself comes from a named operating-system object that the
//! embedding application creates; this module models that namespace as the
//! set of identifiers currently held, and fixes the decision rule: the
//! first acquirer of an identifier owns it, every later one does not, and
//! ownership ends only with an owning release. Whoever owns the lease is
//! the one running server.

use vstd::prelude::*;

verus! {

use vstd::string::StringExecFns;
use crate::text::str_eq;

/// The identifiers currently held, as a set.
pub open spec fn ids_of(held: Seq<String>) -> Set<Seq<char>>
    decreases held.len(),
{
    if held.len() == 0 {
        Set::empty()
    } else {
        ids_of(held.drop_last()).insert(held.last()@)
    }
}

/// Held identifiers are pairwise distinct.
pub open spec fn distinct_ids(held: Seq<String>) -> bool {
    forall|i: int, j: int| 0 <= i < j < held.len() ==> held[i]@ != held[j]@
}

/// What acquiring does to the held set, and whether the caller owns the
/// lease: ownership falls to the acquirer exactly when nobody held the
/// identifier yet.
pub open spec fn spec_acquire(held: Set<Seq<char>>, id: Seq<char>) -> (Set<Seq<char>>, bool) {
    (held.insert(id), !held.contains(id))
}

/// What releasing does: an owning lease frees its identifier, a
/// non-owning one never touches the holder's.
pub open spec fn spec_release(held: Set<Seq<char>>, id: Seq<char>, owning: bool) -> Set<
    Seq<char>,
> {
    if owning {
        held.remove(id)
    } else {
        held
    }
}

/// However two acquisitions of the same identifier fall, at most one owns
/// it, the second never does, and on a free identifier the first one wins:
/// exactly one of the two observes ownership.
pub proof fn lemma_single_owner(held: Set<Seq<char>>, id: Seq<char>)
    ensures
        !(spec_acquire(held, id).1 && spec_acquire(spec_acquire(held, id).0, id).1),
        !spec_acquire(spec_acquire(held, id).0, id).1,
        !held.contains(id) ==> spec_acquire(held, id).1,
{
}

/// The ownership token handed to an acquirer.
pub struct Lease {
    pub id: String,
    pub owning: bool,
}

impl Lease {
    /// Whether this invocation holds the identifier — the server role.
    pub fn is_holding(&self) -> (r: bool)
        ensures
            r == self.owning,
    {
        self.owning
    }
}

/// The model of the mutual-exclusion namespace.
pub struct LeaseTable {
    held: Vec<String>,
}

impl LeaseTable {
    pub closed spec fn held_seq(self) -> Seq<String> {
        self.held@
    }

    /// At most one holder per identifier.
    pub open spec fn wf(self) -> bool {
        distinct_ids(self.held_seq())
    }

    /// The set of identifiers currently held.
    pub open spec fn held_set(self) -> Set<Seq<char>> {
        ids_of(self.held_seq())
    }

    /// A namespace in which nothing is held.
    pub fn new() -> (r: LeaseTable)
        ensures
            r.wf(),
            r.held_set() == Set::<Seq<char>>::empty(),
    {
        LeaseTable { held: Vec::new() }
    }

    /// The position of `id` among the held identifiers, if present.
    fn find(&self, id: &str) -> (r: Option<usize>)
        requires
            self.wf(),
        ensures
            match r {
                Some(i) => i < self.held_seq().len() && self.held_seq()[i as int]@ == id@
                    && self.held_set().contains(id@),
                None => !self.held_set().contains(id@) && (forall|j: int|
                    0 <= j < self.held_seq().len() ==> self.held_seq()[j]@ != id@),
            },
    {
        let n = self.held.len();
        let mut i: usize = 0;
        while i < n
            invariant
                self.wf(),
                n == self.held_seq().len(),
                i <= n,
                forall|j: int| 0 <= j < i ==> self.held_seq()[j]@ != id@,
            decreases n - i,
        {
            if str_eq(self.held[i].as_str(), id) {
                proof {
                    lemma_ids_index(self.held_seq(), i as int);
                }
                return Some(i);
            }
            i = i + 1;
        }
        proof {
            lemma_ids_absent(self.held_seq(), id@);
        }
        None
    }

    /// Acquires `id`: the returned lease owns it exactly when it was
    /// free, and afterwards the identifier is held either way.
    pub fn acquire(&mut self, id: &str) -> (lease: Lease)
        requires
            old(self).wf(),
        ensures
            final(self).wf(),
            lease.id@ == id@,
            lease.owning == spec_acquire(old(self).held_set(), id@).1,
            final(self).held_set() == spec_acquire(old(self).held_set(), id@).0,
    {
        match self.find(id) {
            Some(_) => {
                proof {
                    assert(old(self).held_set().insert(id@) =~= old(self).held_set());
                }
                Lease { id: id.to_owned(), owning: false }
            },
            None => {
                self.held.push(id.to_owned());
                proof {
                    assert(self.held_seq().drop_last() =~= old(self).held_seq());
                    assert forall|p: int, q: int|
                        0 <= p < q < self.held_seq().len() implies self.held_seq()[p]@
                        != self.held_seq()[q]@ by {
                        if q == self.held_seq().len() - 1 {
                            assert(self.held_seq()[p] == old(self).held_seq()[p]);
                        }
                    }
                }
                Lease { id: id.to_owned(), owning: true }
            },
        }
    }

    /// Releases a lease, as every exit path must: an owning lease frees
    /// its identifier for the next acquirer, a non-owning one changes
    /// nothing.
    pub fn release(&mut self, lease: Lease)
        requires
            old(self).wf(),
        ensures
            final(self).wf(),
            final(self).held_set() == spec_release(
                old(self).held_set(),
                lease.id@,
                lease.owning,
            ),
    {
        if !lease.owning {
            return ;
        }
        match self.find(lease.id.as_str()) {
            Some(i) => {
                proof {
                    lemma_ids_remove(self.held_seq(), i as int);
                }
                let _ = self.held.remove(i);
            },
            None => {
                proof {
                    assert(old(self).held_set().remove(lease.id@) =~= old(self).held_set());
                }
            },
        }
    }
}

/// A held entry puts its identifier in the set.
proof fn lemma_ids_index(held: Seq<String>, i: int)
    requires
        0 <= i < held.len(),
    ensures
        ids_of(held).contains(held[i]@),
    decreases held.len(),
{
    if i < held.len() - 1 {
        lemma_ids_index(held.drop_last(), i);
    }
}

/// An identifier no entry bears is not in the set.
proof fn lemma_ids_absent(held: Seq<String>, id: Seq<char>)
    requires
        forall|j: int| 0 <= j < held.len() ==> held[j]@ != id,
    ensures
        !ids_of(held).contains(id),
    decreases held.len(),
{
    if held.len() > 0 {
        lemma_ids_absent(held.drop_last(), id);
    }
}

/// Removing entry `i` removes exactly its identifier from the set, and
/// keeps the identifiers distinct.
proof fn lemma_ids_remove(held: Seq<String>, i: int)
    requires
        distinct_ids(held),
        0 <= i < held.len(),
    ensures
        distinct_ids(held.remove(i)),
        ids_of(held.remove(i)) == ids_of(held).remove(held[i]@),
    decreases held.len(),
{
    let id = held[i]@;
    assert(distinct_ids(held.remove(i))) by {
        assert forall|p: int, q: int| 0 <= p < q < held.remove(i).len() implies held.remove(i)[p]@
            != held.remove(i)[q]@ by {
            if p < i {
                assert(held.remove(i)[p] == held[p]);
            } else {
                assert(held.remove(i)[p] == held[p + 1]);
            }
            if q < i {
                assert(held.remove(i)[q] == held[q]);
            } else {
                assert(held.remove(i)[q] == held[q + 1]);
            }
        }
    }
    if i == held.len() - 1 {
        assert(held.remove(i) =~= held.drop_last());
        assert forall|j: int| 0 <= j < held.drop_last().len() implies held.drop_last()[j]@
            != id by {
            assert(held.drop_last()[j] == held[j]);
        }
        lemma_ids_absent(held.drop_last(), id);
        assert(ids_of(held.drop_last()) =~= ids_of(held).remove(id));
    } else {
        lemma_ids_remove(held.drop_last(), i);
        assert(held.remove(i).drop_last() =~= held.drop_last().remove(i));
        assert(held.remove(i).last() == held.last());
        assert(ids_of(held.remove(i)) =~= ids_of(held).remove(id));
    }
}

} // verus!
