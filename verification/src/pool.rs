//! The connection pool's accounting: a bounded number of connections, each
//! lent to at most one caller at a time and returned when its holder is done.
//! The live pool is internally synchronized, so its concurrent behaviour is
//! this sequential accounting; the model states the bound that acquisition
//! and release maintain.

use vstd::prelude::*;

verus! {

/// A runtime acquisition failure: every connection is lent out and the
/// pool's policy rejects waiting, or the pool has been closed.
#[derive(Clone, Copy, Debug, PartialEq, Eq, Structural)]
pub enum AcquireError {
    PoolExhausted,
    PoolClosed,
}

/// The accounting of a bounded connection pool: its fixed bound and how many
/// connections are currently lent out.
pub struct PoolModel {
    max_size: usize,
    lent: usize,
}

impl PoolModel {
    pub closed spec fn spec_max_size(self) -> usize {
        self.max_size
    }

    pub closed spec fn spec_lent(self) -> usize {
        self.lent
    }

    /// The pool never lends more connections than its bound.
    pub open spec fn well_formed(self) -> bool {
        self.spec_lent() <= self.spec_max_size()
    }

    /// A fresh pool: nothing is lent out yet.
    pub fn new(max_size: usize) -> (r: Self)
        ensures
            r.spec_max_size() == max_size,
            r.spec_lent() == 0,
            r.well_formed(),
    {
        PoolModel { max_size, lent: 0 }
    }

    pub fn max_size(&self) -> (r: usize)
        ensures
            r == self.spec_max_size(),
    {
        self.max_size
    }

    pub fn lent(&self) -> (r: usize)
        ensures
            r == self.spec_lent(),
    {
        self.lent
    }

    /// One acquisition: it succeeds exactly when a connection is free —
    /// fewer than `max_size` are lent out — and then lends one more.
    pub fn try_acquire(&mut self) -> (r: bool)
        requires
            old(self).well_formed(),
        ensures
            r == (old(self).spec_lent() < old(self).spec_max_size()),
            final(self).spec_max_size() == old(self).spec_max_size(),
            final(self).spec_lent() == if r {
                old(self).spec_lent() + 1
            } else {
                old(self).spec_lent() as int
            },
            final(self).well_formed(),
    {
        if self.lent < self.max_size {
            self.lent = self.lent + 1;
            true
        } else {
            false
        }
    }

    /// One release: the holder of a lent connection hands it back.
    pub fn release(&mut self)
        requires
            old(self).well_formed(),
            old(self).spec_lent() >= 1,
        ensures
            final(self).spec_max_size() == old(self).spec_max_size(),
            final(self).spec_lent() == old(self).spec_lent() - 1,
            final(self).well_formed(),
    {
        self.lent = self.lent - 1;
    }
}

/// How many of `requests` back-to-back acquisitions succeed against a pool
/// with `lent` of `max` connections out.
pub open spec fn granted(max: nat, lent: nat, requests: nat) -> nat
    decreases requests,
{
    if requests == 0 {
        0
    } else if lent < max {
        1 + granted(max, lent + 1, (requests - 1) as nat)
    } else {
        0
    }
}

proof fn lemma_granted_free(max: nat, lent: nat, requests: nat)
    requires
        lent <= max,
    ensures
        granted(max, lent, requests) == if requests <= max - lent {
            requests as int
        } else {
            max - lent
        },
    decreases requests,
{
    if requests > 0 && lent < max {
        lemma_granted_free(max, lent + 1, (requests - 1) as nat);
    }
}

/// Law: a fresh pool of bound `max_size` grants up to `max_size` concurrent
/// acquisitions without blocking, the next one is not granted while every
/// connection is lent out, and as soon as one holder releases, the blocked
/// acquisition is granted.
pub proof fn lemma_pool_capacity(max_size: nat, n: nat)
    ensures
        granted(max_size, 0, n) == if n <= max_size {
            n as int
        } else {
            max_size as int
        },
        granted(max_size, max_size, 1) == 0,
        max_size >= 1 ==> granted(max_size, (max_size - 1) as nat, 1) == 1,
{
    lemma_granted_free(max_size, 0, n);
    if max_size >= 1 {
        lemma_granted_free(max_size, (max_size - 1) as nat, 1);
    }
}

} // verus!
