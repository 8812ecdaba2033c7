use vstd::prelude::*;

use std::sync::Arc;

verus! {

#[verifier::external_type_specification]
#[verifier::external_body]
#[verifier::reject_recursive_types(T)]
pub struct ExTokioMutex<T: ?Sized>(tokio::sync::Mutex<T>);

/// Relies on tokio's `Mutex::new`: a lock that no task holds.
#[verifier::external_body]
fn new_mutex() -> (r: tokio::sync::Mutex<()>) {
    tokio::sync::Mutex::new(())
}

/// Relies on `Arc::clone`: another handle to the same allocation.
#[verifier::external_body]
fn share<T>(a: &Arc<T>) -> (r: Arc<T>)
    ensures
        r == *a,
{
    a.clone()
}

/// Per-feed locks, one for each label asked for; a label's lock is created
/// on first use and kept.
pub struct Locks {
    labels: Vec<String>,
    locks: Vec<Arc<tokio::sync::Mutex<()>>>,
}

impl Locks {
    /// The labels that have a lock, in the order they were first asked for.
    pub closed spec fn labels(&self) -> Seq<Seq<char>> {
        self.labels@.map_values(|s: String| s@)
    }

    /// The locks, each at the place of its label.
    pub closed spec fn handles(&self) -> Seq<Arc<tokio::sync::Mutex<()>>> {
        self.locks@
    }

    /// One lock per label, and no label twice.
    pub closed spec fn wf(&self) -> bool {
        &&& self.labels@.len() == self.locks@.len()
        &&& forall|a: int, b: int|
            #![trigger self.labels@[a], self.labels@[b]]
            0 <= a < b < self.labels@.len() ==> self.labels@[a]@ != self.labels@[b]@
    }

    /// A registry with no lock yet.
    pub fn new() -> (r: Locks)
        ensures
            r.wf(),
            r.labels() == Seq::<Seq<char>>::empty(),
    {
        let r = Locks { labels: Vec::new(), locks: Vec::new() };
        assert(r.labels() =~= Seq::<Seq<char>>::empty());
        r
    }

    /// The lock of `label`, created on first use. Locks already made stay at
    /// their labels; a new label goes last.
    pub fn lock_for(&mut self, label: &String) -> (r: Arc<tokio::sync::Mutex<()>>)
        requires
            old(self).wf(),
        ensures
            final(self).wf(),
            final(self).handles().len() == final(self).labels().len(),
            old(self).labels().contains(label@) ==> final(self).labels() == old(self).labels()
                && final(self).handles() == old(self).handles(),
            !old(self).labels().contains(label@) ==> final(self).labels() == old(self).labels().push(label@)
                && final(self).handles().drop_last() == old(self).handles(),
            exists|i: int|
                0 <= i < final(self).labels().len() && final(self).labels()[i] == label@
                    && r == final(self).handles()[i],
    {
        let mut i: usize = 0;
        while i < self.labels.len()
            invariant
                self.wf(),
                *self == *old(self),
                i <= self.labels@.len(),
                forall|j: int| 0 <= j < i ==> (#[trigger] self.labels@[j])@ != label@,
            decreases self.labels@.len() - i,
        {
            if self.labels[i].eq(label) {
                assert(self.labels()[i as int] == label@);
                return share(&self.locks[i]);
            }
            i = i + 1;
        }
        assert(!self.labels().contains(label@)) by {
            if self.labels().contains(label@) {
                let k = choose|k: int| 0 <= k < self.labels().len() && self.labels()[k] == label@;
                assert(self.labels@[k]@ == label@);
            }
        }
        let ghost before = self.labels();
        let ghost held = self.locks@;
        let lock = Arc::new(new_mutex());
        self.labels.push(label.clone());
        self.locks.push(share(&lock));
        assert(self.labels() =~= before.push(label@));
        assert(self.handles().drop_last() =~= held);
        assert(self.labels()[before.len() as int] == label@);
        lock
    }
}

/// Each label has exactly one lock: in a registry, two labels share a place
/// only when they are the same label.
pub proof fn law_one_lock_per_label(locks: Locks, a: int, b: int)
    requires
        locks.wf(),
        0 <= a < locks.labels().len(),
        0 <= b < locks.labels().len(),
    ensures
        (locks.labels()[a] == locks.labels()[b]) <==> a == b,
{
    reveal(Locks::labels);
    reveal(Locks::wf);
    if a < b {
        assert(locks.labels@[a]@ != locks.labels@[b]@);
    } else if b < a {
        assert(locks.labels@[b]@ != locks.labels@[a]@);
    }
}

} // verus!
