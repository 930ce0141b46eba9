//! The ledger of a bounded pool of checker workers.
//!
//! The pool hands each worker to at most one request at a time. A request
//! that finds every worker busy waits until one is released.
use vstd::prelude::*;

verus! {

/// Which of the pool's workers are checked out.
pub struct WorkerPool {
    busy: Vec<bool>,
}

/// How many workers are checked out.
pub open spec fn count_busy(s: Seq<bool>) -> nat
    decreases s.len(),
{
    if s.len() == 0 {
        0
    } else {
        count_busy(s.drop_last()) + if s.last() {
            1nat
        } else {
            0nat
        }
    }
}

pub open spec fn all_busy(s: Seq<bool>) -> bool {
    forall|i: int| 0 <= i < s.len() ==> s[i]
}

proof fn lemma_count_update(s: Seq<bool>, w: int, b: bool)
    requires
        0 <= w < s.len(),
    ensures
        count_busy(s.update(w, b)) + (if s[w] {
            1nat
        } else {
            0nat
        }) == count_busy(s) + (if b {
            1nat
        } else {
            0nat
        }),
    decreases s.len(),
{
    let u = s.update(w, b);
    if w == s.len() - 1 {
        assert(u.drop_last() =~= s.drop_last());
    } else {
        assert(u.drop_last() =~= s.drop_last().update(w, b));
        lemma_count_update(s.drop_last(), w, b);
    }
}

/// Law of the pool: never more workers are checked out than it has, and all
/// of them are checked out exactly when every worker is busy.
pub proof fn lemma_pool_bound(s: Seq<bool>)
    ensures
        count_busy(s) <= s.len(),
        count_busy(s) == s.len() <==> all_busy(s),
    decreases s.len(),
{
    if s.len() > 0 {
        lemma_pool_bound(s.drop_last());
        if all_busy(s) {
            assert(all_busy(s.drop_last()));
        }
        if count_busy(s) == s.len() {
            assert forall|i: int| 0 <= i < s.len() implies s[i] by {
                if i < s.len() - 1 {
                    assert(s.drop_last()[i] == s[i]);
                }
            }
        }
    }
}

impl View for WorkerPool {
    type V = Seq<bool>;

    closed spec fn view(&self) -> Seq<bool> {
        self.busy@
    }
}

impl WorkerPool {
    /// A pool of `n` workers, none checked out.
    pub fn new(n: usize) -> (r: WorkerPool)
        ensures
            r@.len() == n,
            count_busy(r@) == 0,
            forall|i: int| 0 <= i < n ==> !r@[i],
    {
        let mut busy: Vec<bool> = Vec::new();
        let mut i: usize = 0;
        while i < n
            invariant
                i <= n,
                busy@.len() == i,
                count_busy(busy@) == 0,
                forall|k: int| 0 <= k < i ==> !busy@[k],
            decreases n - i,
        {
            let ghost before = busy@;
            busy.push(false);
            assert(busy@.drop_last() =~= before);
            i = i + 1;
        }
        WorkerPool { busy }
    }

    /// How many workers the pool has.
    pub fn capacity(&self) -> (r: usize)
        ensures
            r == self@.len(),
    {
        self.busy.len()
    }

    /// How many workers are checked out.
    pub fn in_use(&self) -> (r: usize)
        ensures
            r == count_busy(self@),
            r <= self@.len(),
    {
        let mut n: usize = 0;
        let mut i: usize = 0;
        proof {
            lemma_pool_bound(self.busy@);
        }
        while i < self.busy.len()
            invariant
                i <= self.busy@.len(),
                n == count_busy(self.busy@.take(i as int)),
                n <= i,
            decreases self.busy@.len() - i,
        {
            assert(self.busy@.take(i as int + 1).drop_last() =~= self.busy@.take(i as int));
            if self.busy[i] {
                n = n + 1;
            }
            i = i + 1;
        }
        assert(self.busy@.take(self.busy@.len() as int) =~= self.busy@);
        n
    }

    /// Checks out the first free worker. `None`, with nothing changed, when
    /// every worker is busy: the caller then waits for a release.
    pub fn acquire(&mut self) -> (r: Option<usize>)
        ensures
            r is None <==> count_busy(old(self)@) == old(self)@.len(),
            match r {
                None => final(self)@ == old(self)@ && all_busy(old(self)@),
                Some(w) => {
                    &&& w < old(self)@.len()
                    &&& !old(self)@[w as int]
                    &&& forall|i: int| 0 <= i < w ==> old(self)@[i]
                    &&& final(self)@ == old(self)@.update(w as int, true)
                    &&& count_busy(final(self)@) == count_busy(old(self)@) + 1
                },
            },
            count_busy(final(self)@) <= final(self)@.len(),
    {
        proof {
            lemma_pool_bound(self.busy@);
        }
        let mut i: usize = 0;
        while i < self.busy.len()
            invariant
                i <= self.busy@.len(),
                self.busy@ == old(self).busy@,
                forall|k: int| 0 <= k < i ==> self.busy@[k],
            decreases self.busy@.len() - i,
        {
            if !self.busy[i] {
                proof {
                    lemma_count_update(self.busy@, i as int, true);
                    lemma_pool_bound(self.busy@.update(i as int, true));
                }
                self.busy.set(i, true);
                return Some(i);
            }
            i = i + 1;
        }
        None
    }

    /// Returns worker `w` to the pool. `false`, with nothing changed, when `w`
    /// was not checked out.
    pub fn release(&mut self, w: usize) -> (r: bool)
        ensures
            r == (w < old(self)@.len() && old(self)@[w as int]),
            r ==> final(self)@ == old(self)@.update(w as int, false) && count_busy(final(self)@) + 1
                == count_busy(old(self)@),
            !r ==> final(self)@ == old(self)@,
    {
        if w < self.busy.len() && self.busy[w] {
            proof {
                lemma_count_update(self.busy@, w as int, false);
            }
            self.busy.set(w, false);
            true
        } else {
            false
        }
    }
}

} // verus!
