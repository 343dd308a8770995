//! The bitmap that marks which slots of an array hold a value.
//!
//! Bits are packed eight to a byte, the least significant bit first: bit
//! `i` is bit `i % 8` of byte `i / 8`. A set bit says that the slot is not
//! null. A bit that was never written is set, so a bitmap that has just
//! grown marks every new slot as not null.

use vstd::prelude::*;
use crate::buffer::{Buffer, Growth, growth_bytes, grown_capacity, shortfall};
use crate::errors::{ArrowError, StatusCode};
use crate::mempool::{MemoryPool, PoolState};

verus! {

/// Bit `k` of `byte`, counted from the least significant one.
pub open spec fn bit_of(byte: u8, k: u8) -> bool {
    (byte >> k) & 1u8 == 1u8
}

/// The number of bytes that hold `bits` bits.
pub open spec fn bytes_for(bits: nat) -> nat {
    (bits + 7) / 8
}

proof fn lemma_bit_set(byte: u8, k: u8, j: u8)
    requires
        k < 8,
        j < 8,
    ensures
        bit_of(byte | (1u8 << k), j) == (j == k || bit_of(byte, j)),
{
    assert(((byte | (1u8 << k)) >> j) & 1u8 == 1u8 <==> (j == k || (byte >> j) & 1u8 == 1u8))
        by (bit_vector)
        requires
            k < 8,
            j < 8,
    ;
}

proof fn lemma_bit_clear(byte: u8, k: u8, j: u8)
    requires
        k < 8,
        j < 8,
    ensures
        bit_of(byte & !(1u8 << k), j) == (j != k && bit_of(byte, j)),
{
    assert(((byte & !(1u8 << k)) >> j) & 1u8 == 1u8 <==> (j != k && (byte >> j) & 1u8 == 1u8))
        by (bit_vector)
        requires
            k < 8,
            j < 8,
    ;
}

proof fn lemma_bit_full(j: u8)
    requires
        j < 8,
    ensures
        bit_of(0xffu8, j),
{
    assert((0xffu8 >> j) & 1u8 == 1u8) by (bit_vector)
        requires
            j < 8,
    ;
}

/// A buffer of bytes takes one byte of memory for each byte of capacity.
proof fn lemma_byte_buffer(bytes: &Buffer<u8>)
    requires
        bytes.wf(),
    ensures
        bytes.spec_bytes() == bytes.spec_capacity(),
        crate::buffer::item_bytes::<u8>() == 1,
{
    broadcast use vstd::layout::layout_of_primitives;

    bytes.lemma_wf();
    let size = crate::buffer::item_bytes::<u8>();
    assert(size == 1);
    assert(bytes.spec_capacity() * size == bytes.spec_capacity()) by (nonlinear_arith)
        requires
            size == 1,
    ;
}

/// A run of bits, one for each slot it covers.
pub struct BitMap {
    bytes: Buffer<u8>,
    bits: usize,
}

impl View for BitMap {
    type V = Seq<bool>;

    closed spec fn view(&self) -> Seq<bool> {
        Seq::new(self.bits as nat, |i: int| bit_of(self.bytes@[i / 8], (i % 8) as u8))
    }
}

impl BitMap {
    /// The invariant of a bitmap: it holds just the bytes that its bits
    /// need, and the bits of its last byte that lie past its length are set.
    pub closed spec fn wf(&self) -> bool {
        &&& self.bytes.wf()
        &&& self.bytes@.len() == bytes_for(self.bits as nat)
        &&& forall|p: int|
            self.bits <= p < 8 * self.bytes@.len() ==> bit_of(
                #[trigger] self.bytes@[p / 8],
                (p % 8) as u8,
            )
    }

    /// The number of slots that the bitmap covers.
    pub closed spec fn spec_len(&self) -> usize {
        self.bits
    }

    /// The bytes of the bitmap, as they lie in memory.
    pub closed spec fn raw(&self) -> Seq<u8> {
        self.bytes@
    }

    /// The bytes for which the bitmap has room before it has to grow.
    pub closed spec fn spec_byte_capacity(&self) -> usize {
        self.bytes.spec_capacity()
    }

    /// The bytes that the memory pool counts for this bitmap.
    pub closed spec fn spec_bytes(&self) -> usize {
        self.bytes.spec_bytes()
    }

    /// What the bitmap says of slot `index`: the bit where it has one, and
    /// "not null" past its end.
    pub open spec fn spec_get(&self, index: int) -> bool {
        if 0 <= index < self@.len() {
            self@[index]
        } else {
            true
        }
    }

    /// The bytes that the pool must admit before this bitmap can cover
    /// `bits` bits, or `None` where no such bitmap fits this machine.
    pub open spec fn spec_growth(&self, bits: nat) -> Option<nat> {
        growth_bytes(self.spec_byte_capacity() as nat, bytes_for(bits), 1)
    }

    /// Whether `pool` lets this bitmap grow to cover `bits` bits.
    pub open spec fn may_grow(&self, pool: PoolState, bits: nat) -> bool {
        self.spec_growth(bits) matches Some(extra) && pool.admits(extra)
    }

    /// The pool after this bitmap has grown to cover `bits` bits.
    pub open spec fn pool_after(&self, pool: PoolState, bits: nat) -> PoolState {
        pool.charged(self.spec_growth(bits).unwrap())
    }

    /// What the invariant says, for callers.
    pub proof fn lemma_wf(&self)
        requires
            self.wf(),
        ensures
            self@.len() == self.spec_len(),
            bytes_for(self.spec_len() as nat) <= self.spec_byte_capacity(),
            self.spec_bytes() == self.spec_byte_capacity(),
            self.spec_growth(self.spec_len() as nat) == Some(0nat),
    {
        self.bytes.lemma_wf();
        lemma_byte_buffer(&self.bytes);
        crate::buffer::lemma_grown_capacity(
            self.bytes.spec_capacity() as nat,
            bytes_for(self.bits as nat),
        );
    }

    /// How the bits lie in the bytes: the bitmap holds just the bytes that
    /// its bits need; bit `i` is bit `i % 8` of byte `i / 8`, counted from the
    /// least significant one; and the bits of the last byte that lie past the
    /// length are set.
    pub proof fn lemma_layout(&self)
        requires
            self.wf(),
        ensures
            self.raw().len() == bytes_for(self@.len()),
            forall|i: int|
                0 <= i < self@.len() ==> #[trigger] self@[i] == bit_of(
                    self.raw()[i / 8],
                    (i % 8) as u8,
                ),
            forall|p: int|
                self@.len() <= p < 8 * self.raw().len() ==> bit_of(
                    #[trigger] self.raw()[p / 8],
                    (p % 8) as u8,
                ),
    {
    }

    /// A bitmap that covers no slot and holds no memory.
    pub fn new() -> (b: BitMap)
        ensures
            b.wf(),
            b@ == Seq::<bool>::empty(),
            b.spec_byte_capacity() == 0,
            b.spec_bytes() == 0,
    {
        BitMap { bytes: Buffer::new(), bits: 0 }
    }

    /// The number of slots that the bitmap covers.
    #[verifier::when_used_as_spec(spec_len)]
    pub fn len(&self) -> (n: usize)
        ensures
            n == self.spec_len(),
            n == self@.len(),
    {
        self.bits
    }

    /// The bytes for which the bitmap has room before it has to grow.
    #[verifier::when_used_as_spec(spec_byte_capacity)]
    pub fn byte_capacity(&self) -> (n: usize)
        ensures
            n == self.spec_byte_capacity(),
    {
        self.bytes.capacity()
    }

    /// The bytes that the memory pool counts for this bitmap.
    #[verifier::when_used_as_spec(spec_bytes)]
    pub fn bytes(&self) -> (n: usize)
        ensures
            n == self.spec_bytes(),
    {
        self.bytes.bytes()
    }

    /// The bytes of the bitmap, as they lie in memory.
    pub fn as_bytes(&self) -> (s: &[u8])
        ensures
            s@ == self.raw(),
    {
        self.bytes.as_slice()
    }

    /// Whether slot `index` is marked as not null. A slot that the bitmap
    /// does not cover is not null.
    pub fn get(&self, index: usize) -> (b: bool)
        requires
            self.wf(),
        ensures
            b == self.spec_get(index as int),
    {
        if index < self.bits {
            match self.bytes.get(index / 8) {
                Some(byte) => (*byte >> ((index % 8) as u8)) & 1u8 == 1u8,
                None => true,
            }
        } else {
            true
        }
    }
    /// Rewrites the bit of slot `index`, which the bitmap covers.
    pub(crate) fn write(&mut self, index: usize, bit: bool)
        requires
            old(self).wf(),
            index < old(self)@.len(),
        ensures
            final(self).wf(),
            final(self)@ == old(self)@.update(index as int, bit),
            final(self).spec_byte_capacity() == old(self).spec_byte_capacity(),
            final(self).spec_bytes() == old(self).spec_bytes(),
    {
        let at = index / 8;
        let k = (index % 8) as u8;
        let byte = *self.bytes.at(at);
        let next = if bit {
            byte | (1u8 << k)
        } else {
            byte & !(1u8 << k)
        };
        proof {
            assert forall|j: u8| j < 8 implies bit_of(next, j) == if j == k {
                bit
            } else {
                bit_of(byte, j)
            } by {
                lemma_bit_set(byte, k, j);
                lemma_bit_clear(byte, k, j);
            }
        }
        self.bytes.put(at, next);
        proof {
            assert forall|p: int| self.bits <= p < 8 * self.bytes@.len() implies bit_of(
                #[trigger] self.bytes@[p / 8],
                (p % 8) as u8,
            ) by {
                assert(bit_of(old(self).bytes@[p / 8], (p % 8) as u8));
            }
            assert(self@ =~= old(self)@.update(index as int, bit));
        }
    }

    /// Marks slot `index` as not null. Doing so twice is doing so once.
    ///
    /// Fails with `IndexOutOfBounds`, and changes nothing, for a slot that
    /// the bitmap does not cover.
    pub fn set(&mut self, index: usize) -> (r: Result<(), ArrowError>)
        requires
            old(self).wf(),
        ensures
            final(self).wf(),
            final(self).spec_byte_capacity() == old(self).spec_byte_capacity(),
            final(self).spec_bytes() == old(self).spec_bytes(),
            match r {
                Ok(()) => {
                    &&& index < old(self)@.len()
                    &&& final(self)@ == old(self)@.update(index as int, true)
                },
                Err(e) => {
                    &&& index >= old(self)@.len()
                    &&& e.reports(StatusCode::IndexOutOfBounds)
                    &&& *final(self) == *old(self)
                },
            },
    {
        if index < self.bits {
            self.write(index, true);
            Ok(())
        } else {
            Err(ArrowError::of(StatusCode::IndexOutOfBounds))
        }
    }

    /// Marks slot `index` as null. Doing so twice is doing so once.
    ///
    /// Fails with `IndexOutOfBounds`, and changes nothing, for a slot that
    /// the bitmap does not cover.
    pub fn clear(&mut self, index: usize) -> (r: Result<(), ArrowError>)
        requires
            old(self).wf(),
        ensures
            final(self).wf(),
            final(self).spec_byte_capacity() == old(self).spec_byte_capacity(),
            final(self).spec_bytes() == old(self).spec_bytes(),
            match r {
                Ok(()) => {
                    &&& index < old(self)@.len()
                    &&& final(self)@ == old(self)@.update(index as int, false)
                },
                Err(e) => {
                    &&& index >= old(self)@.len()
                    &&& e.reports(StatusCode::IndexOutOfBounds)
                    &&& *final(self) == *old(self)
                },
            },
    {
        if index < self.bits {
            self.write(index, false);
            Ok(())
        } else {
            Err(ArrowError::of(StatusCode::IndexOutOfBounds))
        }
    }

    /// Plans the growth to `bits` bits. `None` where no such bitmap fits this
    /// machine.
    pub(crate) fn plan(&self, bits: usize) -> (r: Option<Growth>)
        requires
            self.wf(),
        ensures
            match r {
                Some(g) => {
                    &&& self.spec_growth(bits as nat) == Some(g.extra as nat)
                    &&& g.capacity == grown_capacity(
                        self.spec_byte_capacity() as nat,
                        bytes_for(bits as nat),
                    )
                    &&& self.fits(g, bits as nat)
                },
                None => self.spec_growth(bits as nat) is None,
            },
    {
        proof {
            crate::buffer::lemma_grown_capacity(
                self.bytes.spec_capacity() as nat,
                bytes_for(bits as nat),
            );
            lemma_byte_buffer(&self.bytes);
        }
        self.bytes.plan(byte_count(bits))
    }

    /// Whether `g` is a growth that this bitmap can take to cover `bits`
    /// bits.
    pub(crate) closed spec fn fits(&self, g: Growth, bits: nat) -> bool {
        self.bytes.fits(g) && g.capacity >= bytes_for(bits)
    }

    /// Grows as planned, where the pool admits the additional bytes, and
    /// covers `bits` slots.
    pub(crate) fn cover(&mut self, pool: &mut MemoryPool, g: Growth, bits: usize)
        requires
            old(self).wf(),
            old(pool).wf(),
            old(self).fits(g, bits as nat),
            old(pool)@.admits(g.extra as nat),
        ensures
            final(self).wf(),
            final(pool).wf(),
            final(self)@ == old(self)@ + Seq::new(
                shortfall(old(self)@.len(), bits as nat),
                |i: int| true,
            ),
            final(self).spec_byte_capacity() == g.capacity,
            final(self).spec_bytes() == old(self).spec_bytes() + g.extra,
            final(pool)@ == old(pool)@.charged(g.extra as nat),
    {
        let need = byte_count(bits);
        self.bytes.grow(pool, g);
        while self.bytes.len() < need
            invariant
                self.bytes.wf(),
                need <= self.bytes.spec_capacity(),
                self.bits == old(self).bits,
                self.bytes.spec_capacity() == g.capacity,
                self.bytes.spec_bytes() == old(self).bytes.spec_bytes() + g.extra,
                old(self).bytes@.len() <= self.bytes@.len(),
                self.bytes@.len() <= need || self.bytes@.len() == old(self).bytes@.len(),
                forall|i: int|
                    0 <= i < old(self).bytes@.len() ==> self.bytes@[i] == old(self).bytes@[i],
                forall|i: int|
                    old(self).bytes@.len() <= i < self.bytes@.len() ==> self.bytes@[i] == 0xffu8,
            decreases need - self.bytes@.len(),
        {
            proof {
                self.bytes.lemma_wf();
            }
            self.bytes.push_within(0xffu8);
        }
        if bits > self.bits {
            self.bits = bits;
        }
        proof {
            assert forall|j: u8| j < 8 implies bit_of(0xffu8, j) by {
                lemma_bit_full(j);
            }
            assert forall|p: int| self.bits <= p < 8 * self.bytes@.len() implies bit_of(
                #[trigger] self.bytes@[p / 8],
                (p % 8) as u8,
            ) by {
                if p / 8 < old(self).bytes@.len() {
                    assert(bit_of(old(self).bytes@[p / 8], (p % 8) as u8));
                }
            }
            let grown = old(self)@ + Seq::new(
                shortfall(old(self)@.len(), bits as nat),
                |i: int| true,
            );
            assert(self@.len() == grown.len());
            assert forall|i: int| 0 <= i < self@.len() implies self@[i] == grown[i] by {
                if i >= old(self).bits && i / 8 < old(self).bytes@.len() {
                    assert(bit_of(old(self).bytes@[i / 8], (i % 8) as u8));
                }
            }
            assert(self@ =~= grown);
        }
    }

    /// The bytes that the pool must admit before this bitmap can cover
    /// `bits` bits, or `None` where no such bitmap fits this machine.
    pub fn growth(&self, bits: usize) -> (r: Option<usize>)
        requires
            self.wf(),
        ensures
            match r {
                Some(extra) => self.spec_growth(bits as nat) == Some(extra as nat),
                None => self.spec_growth(bits as nat) is None,
            },
    {
        match self.plan(bits) {
            Some(g) => Some(g.extra),
            None => None,
        }
    }

    /// Grows the bitmap until it covers at least `bits` slots, doubling its
    /// capacity until they fit. The slots that it newly covers are marked as
    /// not null. A bitmap that covers as many already stays as it is.
    ///
    /// Fails with `OutOfMemory`, and changes nothing, when the pool does not
    /// admit the additional bytes or no such bitmap fits this machine.
    pub fn ensure_capacity(&mut self, pool: &mut MemoryPool, bits: usize) -> (r: Result<
        (),
        ArrowError,
    >)
        requires
            old(self).wf(),
            old(pool).wf(),
        ensures
            final(self).wf(),
            final(pool).wf(),
            match r {
                Ok(()) => {
                    &&& old(self).may_grow(old(pool)@, bits as nat)
                    &&& final(self)@ == old(self)@ + Seq::new(
                        shortfall(old(self)@.len(), bits as nat),
                        |i: int| true,
                    )
                    &&& final(self).spec_byte_capacity() == grown_capacity(
                        old(self).spec_byte_capacity() as nat,
                        bytes_for(bits as nat),
                    )
                    &&& final(self).spec_byte_capacity() >= old(self).spec_byte_capacity()
                    &&& final(pool)@ == old(self).pool_after(old(pool)@, bits as nat)
                },
                Err(e) => {
                    &&& !old(self).may_grow(old(pool)@, bits as nat)
                    &&& e.reports(StatusCode::OutOfMemory)
                    &&& *final(self) == *old(self)
                    &&& *final(pool) == *old(pool)
                },
            },
    {
        proof {
            crate::buffer::lemma_grown_capacity(
                self.bytes.spec_capacity() as nat,
                bytes_for(bits as nat),
            );
        }
        match self.plan(bits) {
            Some(g) => {
                if pool.admits(g.extra) {
                    self.cover(pool, g, bits);
                    Ok(())
                } else {
                    Err(ArrowError::of(StatusCode::OutOfMemory))
                }
            },
            None => Err(ArrowError::of(StatusCode::OutOfMemory)),
        }
    }

    /// Gives the bitmap up and hands its bytes back to the pool that counts
    /// them.
    pub fn release(self, pool: &mut MemoryPool)
        requires
            self.wf(),
            old(pool).wf(),
            self.spec_bytes() <= old(pool)@.allocated,
        ensures
            final(pool).wf(),
            final(pool)@ == old(pool)@.refunded(self.spec_bytes() as nat),
    {
        self.bytes.release(pool);
    }
}

/// Computes `bytes_for`.
fn byte_count(bits: usize) -> (n: usize)
    ensures
        n == bytes_for(bits as nat),
{
    if bits % 8 == 0 {
        bits / 8
    } else {
        bits / 8 + 1
    }
}

} // verus!
