//! The growable buffer that every column of an array rests on.
//!
//! A buffer holds its items in order and has room for `capacity` of them.
//! When it is full it doubles its capacity, starting from one item, and asks
//! the memory pool for the additional bytes first. A buffer that is refused
//! stays as it was.

use vstd::prelude::*;
use vstd::arithmetic::power2::is_pow2;
use crate::errors::{ArrowError, StatusCode};
use crate::mempool::{Allocation, MemoryPool, PoolState};

verus! {

/// The capacity that follows `cap` when a buffer grows once.
pub open spec fn next_capacity(cap: nat) -> nat {
    if cap == 0 {
        1
    } else {
        2 * cap
    }
}

/// How far `cap` is from `target`: what decreases while a buffer grows.
pub open spec fn shortfall(cap: nat, target: nat) -> nat {
    if cap < target {
        (target - cap) as nat
    } else {
        0
    }
}

/// The capacity that a buffer of capacity `cap` has once it has grown,
/// by doubling, to hold `target` items.
pub open spec fn grown_capacity(cap: nat, target: nat) -> nat
    decreases shortfall(cap, target),
{
    if cap >= target {
        cap
    } else {
        grown_capacity(next_capacity(cap), target)
    }
}

/// The capacity of a buffer that was made empty and then pushed to `k` times.
pub open spec fn capacity_after(k: nat) -> nat
    decreases k,
{
    if k == 0 {
        0
    } else {
        grown_capacity(capacity_after((k - 1) as nat), k)
    }
}

/// The bytes that the pool must admit before a buffer of capacity `cap`,
/// whose items take `item` bytes each, can hold `target` items. `None` where
/// the grown capacity, or its bytes, are more than a `usize` holds.
pub open spec fn growth_bytes(cap: nat, target: nat, item: nat) -> Option<nat> {
    let grown = grown_capacity(cap, target);
    if grown <= usize::MAX && grown * item <= usize::MAX {
        Some(((grown - cap) * item) as nat)
    } else {
        None
    }
}

/// The sum of two growths, where both can be had.
pub open spec fn plus(a: Option<nat>, b: Option<nat>) -> Option<nat> {
    if a is Some && b is Some {
        Some(a.unwrap() + b.unwrap())
    } else {
        None
    }
}

/// The bytes that one item of type `V` takes in memory.
pub open spec fn item_bytes<V>() -> nat {
    vstd::layout::size_of::<V>()
}

/// Growing never lowers a capacity, and reaches the target.
pub proof fn lemma_grown_capacity(cap: nat, target: nat)
    ensures
        grown_capacity(cap, target) >= cap,
        grown_capacity(cap, target) >= target,
        cap >= target ==> grown_capacity(cap, target) == cap,
        cap < target ==> grown_capacity(cap, target) >= next_capacity(cap),
        cap < target <= next_capacity(cap) ==> grown_capacity(cap, target) == next_capacity(cap),
    decreases shortfall(cap, target),
{
    if cap < target {
        lemma_grown_capacity(next_capacity(cap), target);
    }
}

/// Growing to one target and then to a larger one is growing to the larger
/// one at once.
pub proof fn lemma_grown_in_steps(cap: nat, first: nat, second: nat)
    requires
        first <= second,
    ensures
        grown_capacity(grown_capacity(cap, first), second) == grown_capacity(cap, second),
    decreases shortfall(cap, second),
{
    if cap < first {
        lemma_grown_in_steps(next_capacity(cap), first, second);
    }
}

/// Growing a capacity that is zero or a power of two gives a capacity that
/// is zero or a power of two, and less than twice the target when it grew.
pub proof fn lemma_grown_capacity_doubles(cap: nat, target: nat)
    requires
        cap == 0 || is_pow2(cap as int),
    ensures
        grown_capacity(cap, target) == 0 || is_pow2(grown_capacity(cap, target) as int),
        cap < target ==> grown_capacity(cap, target) < 2 * target,
    decreases shortfall(cap, target),
{
    reveal(is_pow2);
    if cap < target {
        let next = next_capacity(cap);
        assert(is_pow2(next as int)) by {
            if cap != 0 {
                assert((2 * cap) as int / 2 == cap as int);
            }
        }
        lemma_grown_capacity_doubles(next, target);
    }
}

/// After `k` pushes into a buffer that was made empty, the capacity is at
/// least `k`; it is zero for `k == 0` and else the one power of two in
/// `k .. 2 * k`; and one more push never lowers it.
pub proof fn lemma_capacity_after(k: nat)
    ensures
        capacity_after(k) >= k,
        k == 0 ==> capacity_after(k) == 0,
        k > 0 ==> is_pow2(capacity_after(k) as int) && capacity_after(k) < 2 * k,
        capacity_after(k) <= capacity_after(k + 1),
    decreases k,
{
    reveal(is_pow2);
    if k > 0 {
        let before = (k - 1) as nat;
        lemma_capacity_after(before);
        lemma_grown_capacity(capacity_after(before), k);
        lemma_grown_capacity_doubles(capacity_after(before), k);
    }
    lemma_grown_capacity(capacity_after(k), k + 1);
}

/// Computes `grown_capacity`, or `None` where it is more than a `usize` holds.
fn grow_to(cap: usize, target: usize) -> (r: Option<usize>)
    ensures
        match r {
            Some(c) => c == grown_capacity(cap as nat, target as nat),
            None => grown_capacity(cap as nat, target as nat) > usize::MAX,
        },
{
    let mut c: usize = cap;
    while c < target
        invariant
            grown_capacity(c as nat, target as nat) == grown_capacity(cap as nat, target as nat),
        decreases shortfall(c as nat, target as nat),
    {
        if c == 0 {
            c = 1;
        } else {
            match c.checked_mul(2) {
                Some(d) => {
                    c = d;
                },
                None => {
                    proof {
                        lemma_grown_capacity(c as nat, target as nat);
                    }
                    return None;
                },
            }
        }
    }
    Some(c)
}

/// A planned growth of a buffer.
pub(crate) struct Growth {
    /// The capacity to grow to.
    pub capacity: usize,
    /// The bytes that the pool must admit.
    pub extra: usize,
}

/// A growable, contiguous run of items of one type.
///
/// The capacity of a buffer is the number of items for which the memory
/// pool has admitted bytes. The items themselves are kept in a `Vec`.
pub struct Buffer<V> {
    items: Vec<V>,
    cap: usize,
    mem: Option<Allocation>,
}

impl<V> View for Buffer<V> {
    type V = Seq<V>;

    closed spec fn view(&self) -> Seq<V> {
        self.items@
    }
}

impl<V> Buffer<V> {
    /// The number of items that fit before the buffer has to grow.
    pub closed spec fn spec_capacity(&self) -> usize {
        self.cap
    }

    /// The number of items.
    pub closed spec fn spec_len(&self) -> usize {
        self.items.len()
    }

    /// The bytes that the memory pool counts for this buffer.
    pub closed spec fn spec_bytes(&self) -> usize {
        match self.mem {
            Some(handle) => handle.bytes(),
            None => 0,
        }
    }

    /// The invariant of a buffer: its items fit in its capacity, its capacity
    /// is zero or a power of two, and the pool counts exactly its capacity.
    pub closed spec fn wf(&self) -> bool {
        &&& self.items.len() <= self.cap
        &&& self.cap == 0 || is_pow2(self.cap as int)
        &&& self.spec_bytes() == self.cap * item_bytes::<V>()
        &&& self.mem is None ==> self.cap == 0
    }

    /// What the invariant says, for callers.
    pub proof fn lemma_wf(&self)
        requires
            self.wf(),
        ensures
            self@.len() == self.spec_len(),
            self.spec_len() <= self.spec_capacity(),
            self.spec_capacity() == 0 || is_pow2(self.spec_capacity() as int),
            self.spec_bytes() == self.spec_capacity() * item_bytes::<V>(),
    {
    }

    /// The bytes that the pool must admit before this buffer can hold
    /// `target` items, or `None` where no such buffer fits this machine.
    pub open spec fn spec_growth(&self, target: nat) -> Option<nat> {
        growth_bytes(self.spec_capacity() as nat, target, item_bytes::<V>())
    }

    /// Whether `pool` lets this buffer grow to hold `target` items.
    pub open spec fn may_grow(&self, pool: PoolState, target: nat) -> bool {
        self.spec_growth(target) matches Some(extra) && pool.admits(extra)
    }

    /// The pool after this buffer has grown to hold `target` items.
    pub open spec fn pool_after(&self, pool: PoolState, target: nat) -> PoolState {
        pool.charged(self.spec_growth(target).unwrap())
    }

    /// A buffer without items, which holds no memory yet.
    pub fn new() -> (b: Buffer<V>)
        ensures
            b.wf(),
            b@ == Seq::<V>::empty(),
            b.spec_capacity() == 0,
            b.spec_bytes() == 0,
    {
        Buffer { items: Vec::new(), cap: 0, mem: None }
    }

    /// The number of items.
    #[verifier::when_used_as_spec(spec_len)]
    pub fn len(&self) -> (n: usize)
        ensures
            n == self.spec_len(),
            n == self@.len(),
    {
        self.items.len()
    }

    /// The number of items that fit before the buffer has to grow.
    #[verifier::when_used_as_spec(spec_capacity)]
    pub fn capacity(&self) -> (n: usize)
        ensures
            n == self.spec_capacity(),
    {
        self.cap
    }

    /// The bytes that the memory pool counts for this buffer.
    #[verifier::when_used_as_spec(spec_bytes)]
    pub fn bytes(&self) -> (n: usize)
        ensures
            n == self.spec_bytes(),
    {
        match &self.mem {
            Some(handle) => handle.bytes(),
            None => 0,
        }
    }

    /// Plans the growth to `target` items: the capacity to grow to, and the
    /// additional bytes. `None` where no such buffer fits this machine.
    pub(crate) fn plan(&self, target: usize) -> (r: Option<Growth>)
        requires
            self.wf(),
        ensures
            match r {
                Some(g) => {
                    &&& self.spec_growth(target as nat) == Some(g.extra as nat)
                    &&& g.capacity == grown_capacity(self.spec_capacity() as nat, target as nat)
                    &&& self.fits(g)
                },
                None => self.spec_growth(target as nat) is None,
            },
    {
        proof {
            lemma_grown_capacity(self.cap as nat, target as nat);
            lemma_grown_capacity_doubles(self.cap as nat, target as nat);
        }
        let size = core::mem::size_of::<V>();
        match grow_to(self.cap, target) {
            None => None,
            Some(capacity) => match capacity.checked_mul(size) {
                None => None,
                Some(total) => {
                    proof {
                        assert(self.cap * size <= capacity * size && (capacity - self.cap) * size
                            == capacity * size - self.cap * size) by (nonlinear_arith)
                            requires
                                self.cap <= capacity,
                                size >= 0,
                        ;
                    }
                    Some(Growth { capacity, extra: total - self.bytes() })
                },
            },
        }
    }

    /// Whether `g` is a growth that this buffer can take.
    pub(crate) closed spec fn fits(&self, g: Growth) -> bool {
        &&& g.capacity >= self.cap
        &&& g.capacity == 0 || is_pow2(g.capacity as int)
        &&& g.capacity * item_bytes::<V>() == self.spec_bytes() + g.extra
        &&& self.spec_bytes() + g.extra <= usize::MAX
        &&& g.capacity == self.cap ==> g.extra == 0
    }

    /// Grows as planned, where the pool admits the additional bytes.
    pub(crate) fn grow(&mut self, pool: &mut MemoryPool, g: Growth)
        requires
            old(self).wf(),
            old(pool).wf(),
            old(self).fits(g),
            old(pool)@.admits(g.extra as nat),
        ensures
            final(self).wf(),
            final(pool).wf(),
            final(self)@ == old(self)@,
            final(self).spec_capacity() == g.capacity,
            final(self).spec_bytes() == old(self).spec_bytes() + g.extra,
            final(pool)@ == old(pool)@.charged(g.extra as nat),
    {
        if g.capacity == self.cap {
            return ;
        }
        let total = self.bytes() + g.extra;
        match self.mem.take() {
            None => {
                self.mem = Some(pool.allocate_granted(total));
            },
            Some(handle) => {
                let mut handle = handle;
                pool.reallocate_granted(&mut handle, total);
                self.mem = Some(handle);
            },
        }
        self.cap = g.capacity;
    }

    /// The bytes that the pool must admit before this buffer can hold
    /// `target` items, or `None` where no such buffer fits this machine.
    pub fn growth(&self, target: usize) -> (r: Option<usize>)
        requires
            self.wf(),
        ensures
            match r {
                Some(extra) => self.spec_growth(target as nat) == Some(extra as nat),
                None => self.spec_growth(target as nat) is None,
            },
    {
        match self.plan(target) {
            Some(g) => Some(g.extra),
            None => None,
        }
    }

    /// Makes room for `target` items, doubling the capacity until they fit.
    ///
    /// Fails with `OutOfMemory`, and changes nothing, when the pool does not
    /// admit the additional bytes or no such buffer fits this machine.
    pub fn reserve(&mut self, pool: &mut MemoryPool, target: usize) -> (r: Result<(), ArrowError>)
        requires
            old(self).wf(),
            old(pool).wf(),
        ensures
            final(self).wf(),
            final(pool).wf(),
            match r {
                Ok(()) => {
                    &&& old(self).may_grow(old(pool)@, target as nat)
                    &&& final(self)@ == old(self)@
                    &&& final(self).spec_capacity() == grown_capacity(
                        old(self).spec_capacity() as nat,
                        target as nat,
                    )
                    &&& final(self).spec_capacity() >= old(self).spec_capacity()
                    &&& final(self).spec_capacity() >= target
                    &&& final(pool)@ == old(self).pool_after(old(pool)@, target as nat)
                },
                Err(e) => {
                    &&& !old(self).may_grow(old(pool)@, target as nat)
                    &&& e.reports(StatusCode::OutOfMemory)
                    &&& *final(self) == *old(self)
                    &&& *final(pool) == *old(pool)
                },
            },
    {
        proof {
            lemma_grown_capacity(self.cap as nat, target as nat);
        }
        match self.plan(target) {
            Some(g) => {
                if pool.admits(g.extra) {
                    self.grow(pool, g);
                    Ok(())
                } else {
                    Err(ArrowError::of(StatusCode::OutOfMemory))
                }
            },
            None => Err(ArrowError::of(StatusCode::OutOfMemory)),
        }
    }

    /// Appends one item to a buffer that has room for it.
    pub(crate) fn push_within(&mut self, value: V)
        requires
            old(self).wf(),
            old(self).spec_len() < old(self).spec_capacity(),
        ensures
            final(self).wf(),
            final(self)@ == old(self)@.push(value),
            final(self).spec_capacity() == old(self).spec_capacity(),
            final(self).spec_bytes() == old(self).spec_bytes(),
    {
        self.items.push(value);
    }

    /// Appends one item, doubling the capacity first when the buffer is full.
    ///
    /// Fails with `OutOfMemory`, and changes nothing, when the buffer is full
    /// and the pool does not admit the additional bytes or no larger buffer
    /// fits this machine.
    pub fn push(&mut self, pool: &mut MemoryPool, value: V) -> (r: Result<(), ArrowError>)
        requires
            old(self).wf(),
            old(pool).wf(),
        ensures
            final(self).wf(),
            final(pool).wf(),
            match r {
                Ok(()) => {
                    &&& old(self).may_grow(old(pool)@, old(self)@.len() + 1)
                    &&& final(self)@ == old(self)@.push(value)
                    &&& final(self).spec_capacity() == grown_capacity(
                        old(self).spec_capacity() as nat,
                        old(self)@.len() + 1,
                    )
                    &&& final(self).spec_capacity() >= old(self).spec_capacity()
                    &&& final(pool)@ == old(self).pool_after(old(pool)@, old(self)@.len() + 1)
                },
                Err(e) => {
                    &&& !old(self).may_grow(old(pool)@, old(self)@.len() + 1)
                    &&& e.reports(StatusCode::OutOfMemory)
                    &&& *final(self) == *old(self)
                    &&& *final(pool) == *old(pool)
                },
            },
    {
        let len = self.items.len();
        if len == usize::MAX {
            proof {
                lemma_grown_capacity(self.cap as nat, (len + 1) as nat);
            }
            return Err(ArrowError::of(StatusCode::OutOfMemory));
        }
        match self.reserve(pool, len + 1) {
            Ok(()) => {
                self.push_within(value);
                Ok(())
            },
            Err(e) => Err(e),
        }
    }

    /// The item at `index`, which lies before the end.
    pub(crate) fn at(&self, index: usize) -> (v: &V)
        requires
            index < self@.len(),
        ensures
            *v == self@[index as int],
    {
        &self.items[index]
    }

    /// Replaces the item at `index`, which lies before the end.
    pub(crate) fn put(&mut self, index: usize, value: V)
        requires
            old(self).wf(),
            index < old(self)@.len(),
        ensures
            final(self).wf(),
            final(self)@ == old(self)@.update(index as int, value),
            final(self).spec_capacity() == old(self).spec_capacity(),
            final(self).spec_bytes() == old(self).spec_bytes(),
    {
        self.items.set(index, value);
    }

    /// The items, as they lie in memory.
    pub fn as_slice(&self) -> (s: &[V])
        ensures
            s@ == self@,
    {
        self.items.as_slice()
    }

    /// The item at `index`, or `None` past the end.
    pub fn get(&self, index: usize) -> (r: Option<&V>)
        ensures
            match r {
                Some(v) => index < self@.len() && *v == self@[index as int],
                None => index >= self@.len(),
            },
    {
        if index < self.items.len() {
            Some(self.at(index))
        } else {
            None
        }
    }

    /// Replaces the item at `index`.
    ///
    /// Fails with `IndexOutOfBounds`, and changes nothing, past the end.
    pub fn set(&mut self, index: usize, value: V) -> (r: Result<(), ArrowError>)
        requires
            old(self).wf(),
        ensures
            final(self).wf(),
            final(self).spec_capacity() == old(self).spec_capacity(),
            final(self).spec_bytes() == old(self).spec_bytes(),
            match r {
                Ok(()) => {
                    &&& index < old(self)@.len()
                    &&& final(self)@ == old(self)@.update(index as int, value)
                },
                Err(e) => {
                    &&& index >= old(self)@.len()
                    &&& e.reports(StatusCode::IndexOutOfBounds)
                    &&& *final(self) == *old(self)
                },
            },
    {
        if index < self.items.len() {
            self.put(index, value);
            Ok(())
        } else {
            Err(ArrowError::of(StatusCode::IndexOutOfBounds))
        }
    }

    /// Gives the buffer up and hands its bytes back to the pool that counts
    /// them.
    pub fn release(self, pool: &mut MemoryPool)
        requires
            self.wf(),
            old(pool).wf(),
            self.spec_bytes() <= old(pool)@.allocated,
        ensures
            final(pool).wf(),
            final(pool)@ == old(pool)@.refunded(self.spec_bytes() as nat),
    {
        match self.mem {
            Some(handle) => pool.free(handle),
            None => {},
        }
    }
}

} // verus!
