//! Byte accounting for every buffer of a tree of arrays.
//!
//! A pool counts the bytes that its buffers hold, remembers the highest count
//! it has seen, and refuses a request that would take the count over its
//! ceiling. It hands out no memory itself: a buffer asks the pool before it
//! grows and tells it when it is released.

use vstd::prelude::*;
use crate::errors::{ArrowError, StatusCode};

verus! {

/// What a pool has counted.
pub struct PoolState {
    /// Bytes that live allocations hold.
    pub allocated: nat,
    /// The highest value `allocated` has had.
    pub peak: nat,
    /// The most that `allocated` may reach; `None` for an unbounded pool.
    pub ceiling: Option<nat>,
}

impl PoolState {
    /// The invariant of a pool: it never counts more than its peak, nor its peak
    /// more than its ceiling or than a `usize` holds.
    pub open spec fn wf(self) -> bool {
        &&& self.allocated <= self.peak
        &&& self.peak <= usize::MAX
        &&& self.ceiling matches Some(c) ==> self.peak <= c && c <= usize::MAX
    }

    /// Whether `extra` more bytes can be counted.
    pub open spec fn admits(self, extra: nat) -> bool {
        &&& self.allocated + extra <= usize::MAX
        &&& self.ceiling matches Some(c) ==> self.allocated + extra <= c
    }

    /// The state once `extra` more bytes are counted.
    pub open spec fn charged(self, extra: nat) -> PoolState {
        PoolState {
            allocated: self.allocated + extra,
            peak: if self.allocated + extra > self.peak {
                self.allocated + extra
            } else {
                self.peak
            },
            ceiling: self.ceiling,
        }
    }

    /// The state once `bytes` are handed back.
    pub open spec fn refunded(self, bytes: nat) -> PoolState {
        PoolState {
            allocated: (self.allocated - bytes) as nat,
            peak: self.peak,
            ceiling: self.ceiling,
        }
    }

    /// Counting `a` bytes and then `b` is counting `a + b` at once.
    pub proof fn charge_in_steps(self, a: nat, b: nat)
        ensures
            self.admits(a + b) <==> self.admits(a) && self.charged(a).admits(b),
            self.charged(a).charged(b) == self.charged(a + b),
    {
    }
}

/// The token for one live allocation: it remembers how many bytes it holds.
pub struct Allocation {
    bytes: usize,
}

impl Allocation {
    /// The bytes that this allocation holds.
    pub closed spec fn spec_bytes(&self) -> usize {
        self.bytes
    }

    /// The bytes that this allocation holds.
    #[verifier::when_used_as_spec(spec_bytes)]
    pub fn bytes(&self) -> (n: usize)
        ensures
            n == self.spec_bytes(),
    {
        self.bytes
    }
}

/// The allocation tracker.
pub struct MemoryPool {
    allocated: usize,
    peak: usize,
    ceiling: Option<usize>,
}

impl View for MemoryPool {
    type V = PoolState;

    closed spec fn view(&self) -> PoolState {
        PoolState {
            allocated: self.allocated as nat,
            peak: self.peak as nat,
            ceiling: match self.ceiling {
                Some(c) => Some(c as nat),
                None => None,
            },
        }
    }
}

impl MemoryPool {
    /// The invariant of a pool, which every call keeps.
    pub open spec fn wf(&self) -> bool {
        self@.wf()
    }

    /// A pool without a ceiling.
    pub fn new() -> (pool: MemoryPool)
        ensures
            pool.wf(),
            pool@ == (PoolState { allocated: 0, peak: 0, ceiling: None }),
    {
        MemoryPool { allocated: 0, peak: 0, ceiling: None }
    }

    /// A pool that never counts more than `ceiling` bytes.
    pub fn with_ceiling(ceiling: usize) -> (pool: MemoryPool)
        ensures
            pool.wf(),
            pool@ == (PoolState { allocated: 0, peak: 0, ceiling: Some(ceiling as nat) }),
    {
        MemoryPool { allocated: 0, peak: 0, ceiling: Some(ceiling) }
    }

    /// Bytes that live allocations hold.
    pub fn bytes_allocated(&self) -> (n: usize)
        ensures
            n == self@.allocated,
    {
        self.allocated
    }

    /// The highest value that `bytes_allocated` has had.
    pub fn max_memory(&self) -> (n: usize)
        ensures
            n == self@.peak,
    {
        self.peak
    }

    /// The ceiling, or `None` for an unbounded pool.
    pub fn ceiling(&self) -> (c: Option<usize>)
        ensures
            c is Some <==> self@.ceiling is Some,
            c matches Some(n) ==> self@.ceiling == Some(n as nat),
    {
        self.ceiling
    }

    /// Whether `extra` more bytes can be counted.
    pub fn admits(&self, extra: usize) -> (b: bool)
        ensures
            b == self@.admits(extra as nat),
    {
        match self.allocated.checked_add(extra) {
            None => false,
            Some(total) => match self.ceiling {
                Some(c) => total <= c,
                None => true,
            },
        }
    }

    /// Counts `extra` more bytes, which the pool admits.
    fn charge(&mut self, extra: usize)
        requires
            old(self).wf(),
            old(self)@.admits(extra as nat),
        ensures
            final(self).wf(),
            final(self)@ == old(self)@.charged(extra as nat),
    {
        let total = self.allocated + extra;
        self.allocated = total;
        if total > self.peak {
            self.peak = total;
        }
    }

    /// Counts a new allocation of `bytes` bytes, which the pool admits.
    pub(crate) fn allocate_granted(&mut self, bytes: usize) -> (handle: Allocation)
        requires
            old(self).wf(),
            old(self)@.admits(bytes as nat),
        ensures
            final(self).wf(),
            handle.bytes() == bytes,
            final(self)@ == old(self)@.charged(bytes as nat),
    {
        self.charge(bytes);
        Allocation { bytes }
    }

    /// Grows a live allocation to `new_bytes`, where the pool admits the
    /// additional bytes.
    pub(crate) fn reallocate_granted(&mut self, handle: &mut Allocation, new_bytes: usize)
        requires
            old(self).wf(),
            new_bytes >= old(handle).bytes(),
            old(self)@.admits((new_bytes - old(handle).bytes()) as nat),
        ensures
            final(self).wf(),
            final(handle).bytes() == new_bytes,
            final(self)@ == old(self)@.charged((new_bytes - old(handle).bytes()) as nat),
    {
        self.charge(new_bytes - handle.bytes);
        handle.bytes = new_bytes;
    }

    /// Counts a new allocation of `bytes` bytes.
    ///
    /// Fails with `OutOfMemory`, and counts nothing, when that would take the
    /// count over the ceiling or over what a `usize` holds.
    pub fn allocate(&mut self, bytes: usize) -> (r: Result<Allocation, ArrowError>)
        requires
            old(self).wf(),
        ensures
            final(self).wf(),
            match r {
                Ok(handle) => {
                    &&& old(self)@.admits(bytes as nat)
                    &&& handle.bytes() == bytes
                    &&& final(self)@ == old(self)@.charged(bytes as nat)
                },
                Err(e) => {
                    &&& !old(self)@.admits(bytes as nat)
                    &&& e.reports(StatusCode::OutOfMemory)
                    &&& *final(self) == *old(self)
                },
            },
    {
        if self.admits(bytes) {
            Ok(self.allocate_granted(bytes))
        } else {
            Err(ArrowError::of(StatusCode::OutOfMemory))
        }
    }

    /// Changes the size of a live allocation to `new_bytes`.
    ///
    /// Growing fails with `OutOfMemory`, and changes nothing, when the
    /// additional bytes would take the count over the ceiling or over what a
    /// `usize` holds. Shrinking hands bytes back and always succeeds; the pool
    /// must hold the bytes of the allocation it is asked to shrink.
    pub fn reallocate(&mut self, handle: &mut Allocation, new_bytes: usize) -> (r: Result<
        (),
        ArrowError,
    >)
        requires
            old(self).wf(),
            new_bytes < old(handle).bytes() ==> old(handle).bytes() <= old(self)@.allocated,
        ensures
            final(self).wf(),
            match r {
                Ok(()) => {
                    &&& final(handle).bytes() == new_bytes
                    &&& if new_bytes >= old(handle).bytes() {
                        &&& old(self)@.admits((new_bytes - old(handle).bytes()) as nat)
                        &&& final(self)@ == old(self)@.charged(
                            (new_bytes - old(handle).bytes()) as nat,
                        )
                    } else {
                        final(self)@ == old(self)@.refunded(
                            (old(handle).bytes() - new_bytes) as nat,
                        )
                    }
                },
                Err(e) => {
                    &&& new_bytes >= old(handle).bytes()
                    &&& !old(self)@.admits((new_bytes - old(handle).bytes()) as nat)
                    &&& e.reports(StatusCode::OutOfMemory)
                    &&& *final(self) == *old(self)
                    &&& *final(handle) == *old(handle)
                },
            },
    {
        if new_bytes >= handle.bytes {
            if self.admits(new_bytes - handle.bytes) {
                self.reallocate_granted(handle, new_bytes);
                Ok(())
            } else {
                Err(ArrowError::of(StatusCode::OutOfMemory))
            }
        } else {
            self.allocated = self.allocated - (handle.bytes - new_bytes);
            handle.bytes = new_bytes;
            Ok(())
        }
    }

    /// Hands the bytes of a live allocation back. The pool must hold them.
    pub fn free(&mut self, handle: Allocation)
        requires
            old(self).wf(),
            handle.bytes() <= old(self)@.allocated,
        ensures
            final(self).wf(),
            final(self)@ == old(self)@.refunded(handle.bytes() as nat),
    {
        self.allocated = self.allocated - handle.bytes;
    }
}

impl Default for MemoryPool {
    /// A pool without a ceiling.
    fn default() -> (pool: MemoryPool)
        ensures
            pool.wf(),
            pool@ == (PoolState { allocated: 0, peak: 0, ceiling: None }),
    {
        MemoryPool::new()
    }
}

} // verus!
