//! Arrays: typed sequences of slots, built by appending.
//!
//! An array has a length, a logical type, a null bitmap and a payload whose
//! shape the type decides: one buffer of values for a primitive type, and
//! offsets with a child array for a type of lists. An array starts without
//! slots and without memory. Every call that appends to it asks the memory
//! pool first for all the bytes by which its buffers grow, and appends only
//! when the pool admits them: a call that fails leaves the array and the
//! pool as they were.

use vstd::prelude::*;
use crate::bitmap::{BitMap, bytes_for};
use crate::buffer::{
    Buffer, Growth, growth_bytes, grown_capacity, item_bytes, lemma_grown_capacity, plus,
    shortfall,
};
use crate::column::Column;
use crate::dtypes::{DataType, List, PrimitiveType, Scalar};
use crate::errors::{ArrowError, StatusCode};
use crate::mempool::{MemoryPool, PoolState};

verus! {

/// What every shape of payload can say of itself.
pub trait ArrayData: Sized {
    /// The invariant of the payload.
    spec fn wf(&self) -> bool;

    /// The number of slots that the payload holds.
    spec fn slots(&self) -> nat;

    /// The bytes that the memory pool counts for the payload, with all that
    /// is nested in it.
    spec fn bytes(&self) -> nat;

    /// The bytes that the memory pool counts for the payload, or `None`
    /// where they are more than a `usize` holds.
    fn allocated(&self) -> (r: Option<usize>)
        requires
            self.wf(),
        ensures
            match r {
                Some(n) => n == self.bytes(),
                None => self.bytes() > usize::MAX,
            },
    ;

    /// Gives the payload up and hands its bytes back to the pool that counts
    /// them.
    fn release(self, pool: &mut MemoryPool)
        requires
            self.wf(),
            old(pool).wf(),
            self.bytes() <= old(pool)@.allocated,
        ensures
            final(pool).wf(),
            final(pool)@ == old(pool)@.refunded(self.bytes()),
    ;
}

/// The payload of an array of a primitive type: one buffer of values, a
/// value for every slot.
pub struct PrimitiveData<T: Scalar> {
    values: Buffer<T::Item>,
}

impl<T: Scalar> PrimitiveData<T> {
    /// The values, slot by slot. The value in the slot of a null stands for
    /// nothing.
    pub closed spec fn values(&self) -> Seq<T::Item> {
        self.values@
    }

    /// The number of values that fit before the payload has to grow.
    pub closed spec fn capacity(&self) -> nat {
        self.values.spec_capacity() as nat
    }

    /// A payload without values, which holds no memory.
    pub fn new() -> (d: Self)
        ensures
            d.wf(),
            d.values() == Seq::<T::Item>::empty(),
            d.slots() == 0,
            d.capacity() == 0,
            d.bytes() == 0,
    {
        PrimitiveData { values: Buffer::new() }
    }
}

impl<T: Scalar> ArrayData for PrimitiveData<T> {
    closed spec fn wf(&self) -> bool {
        self.values.wf()
    }

    closed spec fn slots(&self) -> nat {
        self.values@.len()
    }

    closed spec fn bytes(&self) -> nat {
        self.values.spec_bytes() as nat
    }

    fn allocated(&self) -> (r: Option<usize>) {
        Some(self.values.bytes())
    }

    fn release(self, pool: &mut MemoryPool) {
        self.values.release(pool);
    }
}

/// The payload of an array of lists: the values of all its lists, one after
/// the other, in a child array, and the offsets at which the lists start and
/// end. The list of slot `i` is the values from `offsets[i]` up to
/// `offsets[i + 1]`.
pub struct ListData<T: DataType> {
    offsets: Buffer<u32>,
    values: Array<T>,
}

impl<T: DataType> ListData<T> {
    /// The offsets as a reader counts them: one more than there are slots,
    /// the first of them zero. They are what lies in memory, but for a
    /// payload without slots: it holds no memory, and its one offset, zero,
    /// is written when the first slot is appended.
    pub closed spec fn offsets(&self) -> Seq<u32> {
        if self.offsets@.len() == 0 {
            seq![0u32]
        } else {
            self.offsets@
        }
    }

    /// The offsets that lie in memory: none for a payload without slots,
    /// and else all of `offsets()`.
    pub closed spec fn stored_offsets(&self) -> Seq<u32> {
        self.offsets@
    }

    /// The number of offsets that fit before the offsets have to grow.
    pub closed spec fn offset_capacity(&self) -> nat {
        self.offsets.spec_capacity() as nat
    }

    /// The child array.
    pub closed spec fn child(&self) -> Array<T> {
        self.values
    }

    /// A payload without slots. `dtype` is the type of the values in the
    /// lists. It holds no memory.
    pub fn new(dtype: T) -> (d: Self)
        ensures
            d.wf(),
            d.slots() == 0,
            d.bytes() == 0,
            d.offsets() == seq![0u32],
            d.stored_offsets() == Seq::<u32>::empty(),
            d.offset_capacity() == 0,
            d.child().wf(),
            d.child().spec_len() == 0,
            d.child().spec_dtype() == dtype,
            !d.child().has_bitmap(),
            d.child().bytes() == 0,
    {
        ListData { offsets: Buffer::new(), values: Array::new(dtype) }
    }
}

impl<T: DataType> ArrayData for ListData<T> {
    closed spec fn wf(&self) -> bool {
        &&& self.offsets.wf()
        &&& self.values.wf()
        &&& self.offsets@.len() != 1
        &&& self.offsets()[0] == 0
        &&& forall|i: int, j: int|
            0 <= i <= j < self.offsets().len() ==> self.offsets()[i] <= self.offsets()[j]
        &&& self.offsets().last() == self.values.spec_len()
    }

    closed spec fn slots(&self) -> nat {
        (self.offsets().len() - 1) as nat
    }

    closed spec fn bytes(&self) -> nat {
        self.offsets.spec_bytes() as nat + self.values.bytes()
    }

    fn allocated(&self) -> (r: Option<usize>) {
        match self.values.allocated() {
            Some(n) => self.offsets.bytes().checked_add(n),
            None => None,
        }
    }

    fn release(self, pool: &mut MemoryPool) {
        self.offsets.release(pool);
        self.values.release(pool);
    }
}

/// A planned growth of an array.
struct Plan {
    /// The growth of the values, or of the offsets of an array of lists.
    values: Growth,
    /// The growth of the null bitmap, where it is to grow.
    bitmap: Option<Growth>,
    /// The bytes that the pool must admit for both together.
    extra: usize,
}

/// A typed sequence of slots, each holding a value or a null, that is still
/// being built.
pub struct Array<T: DataType> {
    len: usize,
    dtype: T,
    nulls: BitMap,
    data: T::Data,
}

impl<T: DataType> Array<T> {
    /// The invariant of an array: its payload holds `len` slots, and its
    /// null bitmap is absent or covers just those.
    pub closed spec fn wf(&self) -> bool {
        &&& self.data.wf()
        &&& self.data.slots() == self.len
        &&& self.nulls.wf()
        &&& self.nulls@.len() == 0 || self.nulls@.len() == self.len
        &&& self.dtype.describes(&self.data)
    }

    /// The number of slots.
    pub closed spec fn spec_len(&self) -> usize {
        self.len
    }

    /// The logical type of the array.
    pub closed spec fn spec_dtype(&self) -> T {
        self.dtype
    }

    /// The null bitmap. It covers no slot until a null is appended, and
    /// every slot from then on.
    pub closed spec fn bitmap(&self) -> BitMap {
        self.nulls
    }

    /// Whether the null bitmap has been allocated: whether a null was ever
    /// appended.
    pub open spec fn has_bitmap(&self) -> bool {
        self.bitmap()@.len() > 0
    }

    /// The bytes for which the null bitmap has room before it has to grow.
    pub open spec fn bitmap_capacity(&self) -> nat {
        self.bitmap().spec_byte_capacity() as nat
    }

    /// The bytes by which the null bitmap grows before the array can hold
    /// `target` slots: none where the array has no bitmap and `nulls` asks
    /// for none.
    pub open spec fn bitmap_growth(&self, target: nat, nulls: bool) -> Option<nat> {
        if nulls || self.has_bitmap() {
            growth_bytes(self.bitmap_capacity(), bytes_for(target), 1)
        } else {
            Some(0nat)
        }
    }

    /// The capacity of the null bitmap once the array can hold `target`
    /// slots.
    pub open spec fn bitmap_grown(&self, target: nat, nulls: bool) -> nat {
        if nulls || self.has_bitmap() {
            grown_capacity(self.bitmap_capacity(), bytes_for(target))
        } else {
            self.bitmap_capacity()
        }
    }

    /// For each slot, whether it holds a value (`true`) or a null.
    pub open spec fn validity(&self) -> Seq<bool> {
        Seq::new(self.spec_len() as nat, |i: int| self.bitmap().spec_get(i))
    }

    /// The bytes that the memory pool counts for this array, with all that
    /// is nested in it.
    pub closed spec fn bytes(&self) -> nat {
        self.nulls.spec_bytes() as nat + self.data.bytes()
    }

    /// An array of the given type without slots. It has no null bitmap and
    /// holds no memory: no value and, for a type of lists, no offset lies in
    /// memory yet, and the child array is as new as the array itself
    /// (`lemma_wf` for a primitive type, `lemma_offsets` and `lemma_bitmap`
    /// for a type of lists).
    pub fn new(dtype: T) -> (a: Self)
        ensures
            a.wf(),
            a.spec_len() == 0,
            a.spec_dtype() == dtype,
            !a.has_bitmap(),
            a.validity() == Seq::<bool>::empty(),
            a.bitmap_capacity() == 0,
            a.bytes() == 0,
    {
        let data = dtype.empty();
        Array { len: 0, dtype: dtype, nulls: BitMap::new(), data: data }
    }

    /// The bytes that the memory pool counts for this array, with all that
    /// is nested in it, or `None` where they are more than a `usize` holds.
    pub fn allocated(&self) -> (r: Option<usize>)
        requires
            self.wf(),
        ensures
            match r {
                Some(n) => n == self.bytes(),
                None => self.bytes() > usize::MAX,
            },
    {
        match self.data.allocated() {
            Some(n) => self.nulls.bytes().checked_add(n),
            None => None,
        }
    }

    /// Gives the array up and hands its bytes back to the pool that counts
    /// them.
    pub fn release(self, pool: &mut MemoryPool)
        requires
            self.wf(),
            old(pool).wf(),
            self.bytes() <= old(pool)@.allocated,
        ensures
            final(pool).wf(),
            final(pool)@ == old(pool)@.refunded(self.bytes()),
    {
        self.nulls.release(pool);
        self.data.release(pool);
    }

    /// Whether slot `index` holds a null.
    ///
    /// Fails with `IndexOutOfBounds` for an index that is no slot.
    pub fn is_null(&self, index: usize) -> (r: Result<bool, ArrowError>)
        requires
            self.wf(),
        ensures
            match r {
                Ok(null) => index < self.spec_len() && null == !self.validity()[index as int],
                Err(e) => index >= self.spec_len() && e.reports(StatusCode::IndexOutOfBounds),
            },
    {
        if index < self.len {
            Ok(!self.nulls.get(index))
        } else {
            Err(ArrowError::of(StatusCode::IndexOutOfBounds))
        }
    }

    /// What the invariant says of the null bitmap: it keeps its own
    /// invariant, and it covers no slot or every slot. An array without
    /// slots has no null bitmap.
    pub proof fn lemma_bitmap(&self)
        requires
            self.wf(),
        ensures
            self.bitmap().wf(),
            self.bitmap()@.len() == 0 || self.bitmap()@.len() == self.spec_len(),
            self.validity().len() == self.spec_len(),
            self.spec_len() == 0 ==> !self.has_bitmap(),
    {
    }

    /// The null bitmap, to read.
    pub fn nulls(&self) -> (b: &BitMap)
        requires
            self.wf(),
        ensures
            *b == self.bitmap(),
            b.wf(),
    {
        &self.nulls
    }

    /// Whether a null was ever appended: whether the null bitmap has been
    /// allocated.
    pub fn has_nulls(&self) -> (b: bool)
        requires
            self.wf(),
        ensures
            b == self.has_bitmap(),
    {
        self.nulls.len() > 0
    }

    /// The number of slots.
    #[verifier::when_used_as_spec(spec_len)]
    pub fn len(&self) -> (n: usize)
        ensures
            n == self.spec_len(),
    {
        self.len
    }

    /// The logical type of the array.
    #[verifier::when_used_as_spec(spec_dtype)]
    pub fn dtype(&self) -> (t: T)
        ensures
            t == self.spec_dtype(),
    {
        self.dtype
    }
}

impl<T: PrimitiveType> Array<T> {
    /// The values, slot by slot. The value in the slot of a null stands for
    /// nothing.
    pub closed spec fn values(&self) -> Seq<T::Item> {
        self.data.values@
    }

    /// The number of values that fit before the array has to grow.
    pub closed spec fn spec_capacity(&self) -> usize {
        self.data.values.spec_capacity()
    }

    /// The array as a mathematical value.
    pub open spec fn column(&self) -> Column<T::Item> {
        Column {
            values: self.values(),
            validity: self.validity(),
            has_bitmap: self.has_bitmap(),
            capacity: self.spec_capacity() as nat,
            bitmap_capacity: self.bitmap_capacity(),
        }
    }

    /// The slots as a reader sees them: a value, or `None` for a null.
    pub open spec fn slots(&self) -> Seq<Option<T::Item>> {
        self.column().slots()
    }

    /// The bytes that the pool must admit before the array can hold `target`
    /// slots: those by which the values grow and, where the array has a null
    /// bitmap or `nulls` asks for one, those by which the bitmap grows.
    /// `None` where no such array fits this machine.
    pub open spec fn spec_growth(&self, target: nat, nulls: bool) -> Option<nat> {
        plus(
            growth_bytes(self.spec_capacity() as nat, target, item_bytes::<T::Item>()),
            self.bitmap_growth(target, nulls),
        )
    }

    /// Whether `pool` lets the array grow to hold `target` slots.
    pub open spec fn may_grow(&self, pool: PoolState, target: nat, nulls: bool) -> bool {
        self.spec_growth(target, nulls) matches Some(extra) && pool.admits(extra)
    }

    /// The pool after the array has grown to hold `target` slots.
    pub open spec fn pool_after(&self, pool: PoolState, target: nat, nulls: bool) -> PoolState {
        pool.charged(self.spec_growth(target, nulls).unwrap())
    }

    /// What the invariant says, for callers.
    pub proof fn lemma_wf(&self)
        requires
            self.wf(),
        ensures
            self.values().len() == self.spec_len(),
            self.validity().len() == self.spec_len(),
            self.spec_len() <= self.spec_capacity(),
            !self.has_bitmap() ==> self.validity() == Seq::new(
                self.spec_len() as nat,
                |i: int| true,
            ),
            self.bytes() == self.spec_capacity() * item_bytes::<T::Item>() + self.bitmap_capacity(),
            self.bytes() == 0 ==> self.spec_capacity() == 0,
            self.spec_len() == 0 && self.bytes() == 0 ==> self.column() == Column::<
                T::Item,
            >::empty(),
    {
        self.data.values.lemma_wf();
        self.nulls.lemma_wf();
        T::lemma_item_bytes();
        if self.bytes() == 0 {
            assert(self.spec_capacity() == 0) by (nonlinear_arith)
                requires
                    self.spec_capacity() * item_bytes::<T::Item>() == 0,
                    item_bytes::<T::Item>() >= 1,
            ;
            if self.spec_len() == 0 {
                assert(self.values() =~= Seq::empty());
                assert(self.validity() =~= Seq::empty());
            }
        }
    }

    /// Whether `p` is a plan by which this array can grow to `target` slots.
    closed spec fn fits(&self, p: Plan, target: nat, nulls: bool) -> bool {
        &&& self.data.values.fits(p.values)
        &&& p.values.capacity == grown_capacity(self.data.values.spec_capacity() as nat, target)
        &&& p.values.extra == growth_bytes(
            self.data.values.spec_capacity() as nat,
            target,
            item_bytes::<T::Item>(),
        ).unwrap()
        &&& p.bitmap is Some <==> nulls || self.has_bitmap()
        &&& p.bitmap matches Some(g) ==> {
            &&& self.nulls.fits(g, target)
            &&& g.capacity == grown_capacity(
                self.nulls.spec_byte_capacity() as nat,
                bytes_for(target),
            )
            &&& g.extra == self.bitmap_growth(target, nulls).unwrap()
            &&& p.extra == p.values.extra + g.extra
        }
        &&& p.bitmap is None ==> p.extra == p.values.extra
    }

    /// Plans the growth to `target` slots, in the values and in the null
    /// bitmap where there is one or `nulls` asks for one. `None` where no
    /// such array fits this machine.
    fn plan(&self, target: usize, nulls: bool) -> (r: Option<Plan>)
        requires
            self.wf(),
        ensures
            match r {
                Some(p) => {
                    &&& self.spec_growth(target as nat, nulls) == Some(p.extra as nat)
                    &&& self.fits(p, target as nat, nulls)
                },
                None => self.spec_growth(target as nat, nulls) is None || self.spec_growth(
                    target as nat,
                    nulls,
                ).unwrap() > usize::MAX,
            },
    {
        let values = match self.data.values.plan(target) {
            Some(g) => g,
            None => {
                return None;
            },
        };
        if nulls || self.nulls.len() > 0 {
            let bitmap = match self.nulls.plan(target) {
                Some(g) => g,
                None => {
                    return None;
                },
            };
            let extra = match values.extra.checked_add(bitmap.extra) {
                Some(extra) => extra,
                None => {
                    return None;
                },
            };
            Some(Plan { values, bitmap: Some(bitmap), extra })
        } else {
            let extra = values.extra;
            Some(Plan { values, bitmap: None, extra })
        }
    }

    /// Grows as planned, where the pool admits the additional bytes of the
    /// plan. The null bitmap, where the plan has one, then covers `target`
    /// slots, which breaks the invariant until the array has as many.
    fn grow(&mut self, pool: &mut MemoryPool, p: Plan, target: usize, nulls: bool)
        requires
            old(self).wf(),
            old(pool).wf(),
            target >= old(self).len,
            old(self).fits(p, target as nat, nulls),
            old(pool)@.admits(p.extra as nat),
        ensures
            final(pool).wf(),
            final(pool)@ == old(pool)@.charged(p.extra as nat),
            final(self).len == old(self).len,
            final(self).dtype == old(self).dtype,
            final(self).data.values.wf(),
            final(self).data.values@ == old(self).data.values@,
            final(self).data.values.spec_capacity() == grown_capacity(
                old(self).data.values.spec_capacity() as nat,
                target as nat,
            ),
            final(self).nulls.wf(),
            final(self).nulls@ == if nulls || old(self).has_bitmap() {
                old(self).nulls@ + Seq::new(
                    shortfall(old(self).nulls@.len(), target as nat),
                    |i: int| true,
                )
            } else {
                old(self).nulls@
            },
            final(self).bitmap_capacity() == old(self).bitmap_grown(target as nat, nulls),
            final(self).data.values.spec_bytes() + final(self).nulls.spec_bytes() == old(
                self,
            ).data.values.spec_bytes() + old(self).nulls.spec_bytes() + p.extra,
    {
        proof {
            lemma_grown_capacity(
                self.nulls.spec_byte_capacity() as nat,
                bytes_for(target as nat),
            );
        }
        let Plan { values, bitmap, extra } = p;
        match bitmap {
            Some(bitmap) => {
                proof {
                    pool@.charge_in_steps(values.extra as nat, bitmap.extra as nat);
                }
                self.data.values.grow(pool, values);
                self.nulls.cover(pool, bitmap, target);
            },
            None => {
                self.data.values.grow(pool, values);
            },
        }
    }

    /// Makes room for `target` slots, or fails and changes nothing.
    fn reserve(&mut self, pool: &mut MemoryPool, target: usize, nulls: bool) -> (r: Result<
        (),
        ArrowError,
    >)
        requires
            old(self).wf(),
            old(pool).wf(),
            target >= old(self).len,
        ensures
            final(pool).wf(),
            match r {
                Ok(()) => {
                    &&& old(self).may_grow(old(pool)@, target as nat, nulls)
                    &&& final(pool)@ == old(self).pool_after(old(pool)@, target as nat, nulls)
                    &&& final(self).len == old(self).len
                    &&& final(self).dtype == old(self).dtype
                    &&& final(self).data.values.wf()
                    &&& final(self).data.values@ == old(self).data.values@
                    &&& final(self).data.values.spec_capacity() == grown_capacity(
                        old(self).data.values.spec_capacity() as nat,
                        target as nat,
                    )
                    &&& final(self).nulls.wf()
                    &&& final(self).nulls@ == if nulls || old(self).has_bitmap() {
                        old(self).nulls@ + Seq::new(
                            shortfall(old(self).nulls@.len(), target as nat),
                            |i: int| true,
                        )
                    } else {
                        old(self).nulls@
                    }
                    &&& final(self).bitmap_capacity() == old(self).bitmap_grown(
                        target as nat,
                        nulls,
                    )
                    &&& final(self).data.values.spec_bytes() + final(self).nulls.spec_bytes()
                        == old(self).data.values.spec_bytes() + old(self).nulls.spec_bytes() + old(
                        self,
                    ).spec_growth(target as nat, nulls).unwrap()
                },
                Err(e) => {
                    &&& !old(self).may_grow(old(pool)@, target as nat, nulls)
                    &&& e.reports(StatusCode::OutOfMemory)
                    &&& *final(self) == *old(self)
                    &&& *final(pool) == *old(pool)
                },
            },
    {
        match self.plan(target, nulls) {
            Some(p) => {
                if pool.admits(p.extra) {
                    self.grow(pool, p, target, nulls);
                    Ok(())
                } else {
                    Err(ArrowError::of(StatusCode::OutOfMemory))
                }
            },
            None => Err(ArrowError::of(StatusCode::OutOfMemory)),
        }
    }

    /// The number of values that fit before the array has to grow.
    #[verifier::when_used_as_spec(spec_capacity)]
    pub fn capacity(&self) -> (n: usize)
        ensures
            n == self.spec_capacity(),
    {
        self.data.values.capacity()
    }

    /// The values, as they lie in memory: one for every slot.
    pub fn as_slice(&self) -> (s: &[T::Item])
        ensures
            s@ == self.values(),
    {
        self.data.values.as_slice()
    }

    /// Appends a slot that holds `val`.
    ///
    /// The values double their capacity first when they are full, and the
    /// null bitmap, where the array has one, grows to mark the slot as not
    /// null. Fails with `OutOfMemory`, and changes nothing, when the pool
    /// does not admit the additional bytes or no larger array fits this
    /// machine.
    pub fn push(&mut self, pool: &mut MemoryPool, val: T::Item) -> (r: Result<(), ArrowError>)
        requires
            old(self).wf(),
            old(pool).wf(),
        ensures
            final(self).wf(),
            final(pool).wf(),
            match r {
                Ok(()) => {
                    &&& old(self).may_grow(old(pool)@, old(self).spec_len() as nat + 1, false)
                    &&& final(self).spec_len() == old(self).spec_len() + 1
                    &&& final(self).spec_dtype() == old(self).spec_dtype()
                    &&& final(self).column() == old(self).column().push(val)
                    &&& final(self).spec_capacity() >= old(self).spec_capacity()
                    &&& final(self).bytes() == old(self).bytes() + old(self).spec_growth(
                        old(self).spec_len() as nat + 1,
                        false,
                    ).unwrap()
                    &&& final(pool)@ == old(self).pool_after(
                        old(pool)@,
                        old(self).spec_len() as nat + 1,
                        false,
                    )
                },
                Err(e) => {
                    &&& !old(self).may_grow(old(pool)@, old(self).spec_len() as nat + 1, false)
                    &&& e.reports(StatusCode::OutOfMemory)
                    &&& *final(self) == *old(self)
                    &&& *final(pool) == *old(pool)
                },
            },
    {
        proof {
            self.lemma_wf();
            lemma_grown_capacity(self.spec_capacity() as nat, self.len as nat + 1);
        }
        if self.len == usize::MAX {
            return Err(ArrowError::of(StatusCode::OutOfMemory));
        }
        match self.reserve(pool, self.len + 1, false) {
            Ok(()) => {},
            Err(e) => {
                return Err(e);
            },
        }
        proof {
            self.data.values.lemma_wf();
        }
        self.data.values.push_within(val);
        self.len = self.len + 1;
        proof {
            self.dtype.lemma_describes(&self.data);
            assert(self.validity() =~= old(self).validity().push(true));
        }
        Ok(())
    }

    /// Appends a slot that holds a null.
    ///
    /// The first null allocates the null bitmap, which marks every earlier
    /// slot as not null. The slot of the null is filled with the type's
    /// filler, so that values and slots stay in step. Fails with
    /// `OutOfMemory`, and changes nothing, when the pool does not admit the
    /// additional bytes or no larger array fits this machine.
    pub fn push_null(&mut self, pool: &mut MemoryPool) -> (r: Result<(), ArrowError>)
        requires
            old(self).wf(),
            old(pool).wf(),
        ensures
            final(self).wf(),
            final(pool).wf(),
            match r {
                Ok(()) => {
                    &&& old(self).may_grow(old(pool)@, old(self).spec_len() as nat + 1, true)
                    &&& final(self).spec_len() == old(self).spec_len() + 1
                    &&& final(self).spec_dtype() == old(self).spec_dtype()
                    &&& final(self).column() == old(self).column().push_null(T::spec_filler())
                    &&& final(self).spec_capacity() >= old(self).spec_capacity()
                    &&& final(self).bytes() == old(self).bytes() + old(self).spec_growth(
                        old(self).spec_len() as nat + 1,
                        true,
                    ).unwrap()
                    &&& final(pool)@ == old(self).pool_after(
                        old(pool)@,
                        old(self).spec_len() as nat + 1,
                        true,
                    )
                },
                Err(e) => {
                    &&& !old(self).may_grow(old(pool)@, old(self).spec_len() as nat + 1, true)
                    &&& e.reports(StatusCode::OutOfMemory)
                    &&& *final(self) == *old(self)
                    &&& *final(pool) == *old(pool)
                },
            },
    {
        proof {
            self.lemma_wf();
            lemma_grown_capacity(self.spec_capacity() as nat, self.len as nat + 1);
        }
        if self.len == usize::MAX {
            return Err(ArrowError::of(StatusCode::OutOfMemory));
        }
        match self.reserve(pool, self.len + 1, true) {
            Ok(()) => {},
            Err(e) => {
                return Err(e);
            },
        }
        proof {
            self.data.values.lemma_wf();
        }
        let filler = self.dtype.filler();
        self.data.values.push_within(filler);
        self.nulls.write(self.len, false);
        self.len = self.len + 1;
        proof {
            self.dtype.lemma_describes(&self.data);
            assert(self.validity() =~= old(self).validity().push(false));
        }
        Ok(())
    }

    /// Appends a slot for each of `items`, in order, or none of them.
    ///
    /// The array grows once, to the capacity that as many calls of `push`
    /// would have given it. Fails with `OutOfMemory`, and changes nothing,
    /// when the pool does not admit the additional bytes or no such array
    /// fits this machine.
    pub fn extend(&mut self, pool: &mut MemoryPool, items: &[T::Item]) -> (r: Result<
        (),
        ArrowError,
    >)
        requires
            old(self).wf(),
            old(pool).wf(),
        ensures
            final(self).wf(),
            final(pool).wf(),
            match r {
                Ok(()) => {
                    &&& old(self).may_grow(
                        old(pool)@,
                        old(self).spec_len() as nat + items@.len(),
                        false,
                    )
                    &&& final(self).spec_len() == old(self).spec_len() + items@.len()
                    &&& final(self).spec_dtype() == old(self).spec_dtype()
                    &&& final(self).column() == old(self).column().extend(items@)
                    &&& final(self).spec_capacity() >= old(self).spec_capacity()
                    &&& final(self).bytes() == old(self).bytes() + old(self).spec_growth(
                        old(self).spec_len() as nat + items@.len(),
                        false,
                    ).unwrap()
                    &&& final(pool)@ == old(self).pool_after(
                        old(pool)@,
                        old(self).spec_len() as nat + items@.len(),
                        false,
                    )
                },
                Err(e) => {
                    &&& !old(self).may_grow(
                        old(pool)@,
                        old(self).spec_len() as nat + items@.len(),
                        false,
                    )
                    &&& e.reports(StatusCode::OutOfMemory)
                    &&& *final(self) == *old(self)
                    &&& *final(pool) == *old(pool)
                },
            },
    {
        proof {
            self.lemma_wf();
            lemma_grown_capacity(
                self.spec_capacity() as nat,
                self.len as nat + items@.len(),
            );
        }
        let target = match self.len.checked_add(items.len()) {
            Some(target) => target,
            None => {
                return Err(ArrowError::of(StatusCode::OutOfMemory));
            },
        };
        match self.reserve(pool, target, false) {
            Ok(()) => {},
            Err(e) => {
                return Err(e);
            },
        }
        self.fill(items);
        self.len = target;
        proof {
            self.dtype.lemma_describes(&self.data);
            assert(self.validity() =~= old(self).validity() + Seq::new(
                items@.len(),
                |i: int| true,
            ));
        }
        Ok(())
    }

    /// Appends `items` to the values, which have room for them.
    fn fill(&mut self, items: &[T::Item])
        requires
            old(self).data.values.wf(),
            old(self).data.values@.len() + items@.len() <= old(self).data.values.spec_capacity(),
        ensures
            final(self).data.values.wf(),
            final(self).data.values@ == old(self).data.values@ + items@,
            final(self).data.values.spec_capacity() == old(self).data.values.spec_capacity(),
            final(self).data.values.spec_bytes() == old(self).data.values.spec_bytes(),
            final(self).len == old(self).len,
            final(self).dtype == old(self).dtype,
            final(self).nulls == old(self).nulls,
    {
        let mut i: usize = 0;
        while i < items.len()
            invariant
                i <= items@.len(),
                self.data.values.wf(),
                self.data.values@ == old(self).data.values@ + items@.subrange(0, i as int),
                self.data.values.spec_capacity() == old(self).data.values.spec_capacity(),
                self.data.values.spec_bytes() == old(self).data.values.spec_bytes(),
                old(self).data.values@.len() + items@.len() <= old(
                    self,
                ).data.values.spec_capacity(),
                self.len == old(self).len,
                self.dtype == old(self).dtype,
                self.nulls == old(self).nulls,
            decreases items@.len() - i,
        {
            proof {
                self.data.values.lemma_wf();
            }
            self.data.values.push_within(items[i]);
            proof {
                assert(items@.subrange(0, i + 1) =~= items@.subrange(0, i as int).push(
                    items@[i as int],
                ));
            }
            i = i + 1;
        }
        proof {
            assert(items@.subrange(0, items@.len() as int) =~= items@);
        }
    }

    /// The bytes that the pool must admit for a copy of this array: those
    /// of values with room for its slots and, where it has a null bitmap,
    /// those of a bitmap that covers them. `None` where no such array fits
    /// this machine.
    pub open spec fn copy_growth(&self) -> Option<nat> {
        plus(
            growth_bytes(0, self.spec_len() as nat, item_bytes::<T::Item>()),
            if self.has_bitmap() {
                growth_bytes(0, bytes_for(self.spec_len() as nat), 1)
            } else {
                Some(0nat)
            },
        )
    }

    /// A new array that holds what `source` holds, in memory of its own:
    /// the way from a frozen array to one that can be appended to.
    ///
    /// The copy has the capacity that an empty array has once it has grown
    /// to as many slots. Fails with `OutOfMemory`, and counts nothing, when
    /// the pool does not admit the bytes of the copy or no such array fits
    /// this machine.
    pub fn copy_of(source: &Array<T>, pool: &mut MemoryPool) -> (r: Result<Array<T>, ArrowError>)
        requires
            source.wf(),
            old(pool).wf(),
        ensures
            final(pool).wf(),
            match r {
                Ok(copy) => {
                    &&& source.copy_growth() matches Some(extra) && old(pool)@.admits(extra)
                    &&& copy.wf()
                    &&& copy.spec_dtype() == source.spec_dtype()
                    &&& copy.spec_len() == source.spec_len()
                    &&& copy.column() == (Column {
                        capacity: grown_capacity(0, source.spec_len() as nat),
                        bitmap_capacity: if source.has_bitmap() {
                            grown_capacity(0, bytes_for(source.spec_len() as nat))
                        } else {
                            0
                        },
                        ..source.column()
                    })
                    &&& copy.bytes() == source.copy_growth().unwrap()
                    &&& final(pool)@ == old(pool)@.charged(source.copy_growth().unwrap())
                },
                Err(e) => {
                    &&& !(source.copy_growth() matches Some(extra) && old(pool)@.admits(extra))
                    &&& e.reports(StatusCode::OutOfMemory)
                    &&& *final(pool) == *old(pool)
                },
            },
    {
        let mut copy = Array::new(source.dtype);
        proof {
            source.lemma_wf();
            copy.lemma_wf();
            copy.nulls.lemma_wf();
            lemma_grown_capacity(0, source.len as nat);
            lemma_grown_capacity(0, bytes_for(source.len as nat));
        }
        match copy.reserve(pool, source.len, source.nulls.len() > 0) {
            Ok(()) => {},
            Err(e) => {
                return Err(e);
            },
        }
        let mut i: usize = 0;
        while i < source.len
            invariant
                i <= source.len,
                source.wf(),
                source.data.values@.len() == source.len,
                copy.len == 0,
                copy.dtype == source.dtype,
                copy.data.values.wf(),
                copy.data.values.spec_capacity() >= source.len,
                copy.data.values.spec_capacity() == grown_capacity(0, source.len as nat),
                copy.data.values@ == source.data.values@.subrange(0, i as int),
                copy.data.values.spec_bytes() + copy.nulls.spec_bytes()
                    == source.copy_growth().unwrap(),
                copy.nulls.wf(),
                copy.nulls@.len() == source.nulls@.len(),
                copy.bitmap_capacity() == if source.has_bitmap() {
                    grown_capacity(0, bytes_for(source.len as nat))
                } else {
                    0
                },
                forall|j: int|
                    0 <= j < i && j < copy.nulls@.len() ==> copy.nulls@[j] == source.nulls@[j],
                forall|j: int| i <= j < copy.nulls@.len() ==> copy.nulls@[j],
            decreases source.len - i,
        {
            proof {
                copy.data.values.lemma_wf();
            }
            copy.data.values.push_within(*source.data.values.at(i));
            if !source.nulls.get(i) {
                copy.nulls.write(i, false);
            }
            proof {
                assert(source.data.values@.subrange(0, i + 1) =~= source.data.values@.subrange(
                    0,
                    i as int,
                ).push(source.data.values@[i as int]));
            }
            i = i + 1;
        }
        copy.len = source.len;
        proof {
            copy.dtype.lemma_describes(&copy.data);
            assert(copy.data.values@ =~= source.data.values@);
            assert(copy.nulls@ =~= source.nulls@);
            assert(copy.validity() =~= source.validity());
        }
        Ok(copy)
    }

    /// Whether `r` is what reading slot `index` gives: what the slot holds,
    /// or `IndexOutOfBounds` for an index that is no slot.
    pub open spec fn reads(&self, index: usize, r: Result<Option<T::Item>, ArrowError>) -> bool {
        match r {
            Ok(v) => index < self.spec_len() && v == self.slots()[index as int],
            Err(e) => index >= self.spec_len() && e.reports(StatusCode::IndexOutOfBounds),
        }
    }

    /// What slot `index` holds: a value, or `None` for a null.
    ///
    /// Fails with `IndexOutOfBounds` for an index that is no slot.
    pub fn value(&self, index: usize) -> (r: Result<Option<T::Item>, ArrowError>)
        requires
            self.wf(),
        ensures
            self.reads(index, r),
    {
        proof {
            self.lemma_wf();
        }
        if index < self.len {
            if self.nulls.get(index) {
                Ok(Some(*self.data.values.at(index)))
            } else {
                Ok(None)
            }
        } else {
            Err(ArrowError::of(StatusCode::IndexOutOfBounds))
        }
    }
}

impl<T: DataType> Array<List<T>> {
    /// The offsets as a reader counts them: one more than there are slots,
    /// the first of them zero. The list of slot `i` is the values of the
    /// child from `offsets[i]` up to `offsets[i + 1]`. They are what lies
    /// in memory, but for an array without slots: it holds no memory, and
    /// its one offset, zero, is written when the first slot is appended.
    pub closed spec fn offsets(&self) -> Seq<u32> {
        self.data.offsets()
    }

    /// The offsets that lie in memory: none for an array without slots, and
    /// else all of `offsets()`.
    pub closed spec fn stored_offsets(&self) -> Seq<u32> {
        self.data.stored_offsets()
    }

    /// The child array, which holds the values of all lists.
    pub closed spec fn child(&self) -> Array<T> {
        self.data.values
    }

    /// The number of offsets that fit before the offsets have to grow.
    pub closed spec fn spec_offset_capacity(&self) -> usize {
        self.data.offsets.spec_capacity()
    }

    /// What the invariant says of the array without its child: of its
    /// offsets and of its null bitmap.
    closed spec fn shell_wf(&self) -> bool {
        &&& self.data.offsets.wf()
        &&& self.data.offsets@.len() == if self.len == 0 {
            0
        } else {
            self.len + 1
        }
        &&& self.data.offsets()[0] == 0
        &&& forall|i: int, j: int|
            0 <= i <= j < self.data.offsets().len() ==> self.data.offsets()[i]
                <= self.data.offsets()[j]
        &&& self.nulls.wf()
        &&& self.nulls@.len() == 0 || self.nulls@.len() == self.len
    }

    /// The offsets start at zero, never fall, and end at the length of the
    /// child; there is one more of them than there are slots.
    pub proof fn lemma_offsets(&self)
        requires
            self.wf(),
        ensures
            self.child().wf(),
            self.child().spec_dtype() == self.spec_dtype().0,
            self.child().spec_len() == 0 ==> !self.child().has_bitmap(),
            self.stored_offsets() == if self.spec_len() == 0 {
                Seq::<u32>::empty()
            } else {
                self.offsets()
            },
            self.offsets().len() == self.spec_len() + 1,
            self.validity().len() == self.spec_len(),
            self.offsets()[0] == 0,
            forall|i: int, j: int|
                0 <= i <= j <= self.spec_len() ==> self.offsets()[i] <= self.offsets()[j],
            self.offsets()[self.spec_len() as int] == self.child().spec_len(),
            self.spec_len() + 1 <= self.spec_offset_capacity() || self.spec_len() == 0,
            self.bytes() == self.spec_offset_capacity() * item_bytes::<u32>()
                + self.bitmap_capacity() + self.child().bytes(),
    {
        self.data.offsets.lemma_wf();
        self.nulls.lemma_wf();
    }

    /// The bytes that the pool must admit before the array can hold one more
    /// slot, the child staying as it is: those by which the offsets grow and,
    /// where the array has a null bitmap or `nulls` asks for one, those by
    /// which the bitmap grows. `None` where no such array fits this machine.
    pub open spec fn slot_growth(&self, nulls: bool) -> Option<nat> {
        plus(
            growth_bytes(
                self.spec_offset_capacity() as nat,
                self.spec_len() as nat + 2,
                item_bytes::<u32>(),
            ),
            self.bitmap_growth(self.spec_len() as nat + 1, nulls),
        )
    }

    /// Whether `p` is a plan by which this array can grow by one slot.
    closed spec fn fits_slot(&self, p: Plan, nulls: bool) -> bool {
        &&& self.data.offsets.fits(p.values)
        &&& p.values.capacity == grown_capacity(
            self.data.offsets.spec_capacity() as nat,
            self.len as nat + 2,
        )
        &&& p.values.extra == growth_bytes(
            self.data.offsets.spec_capacity() as nat,
            self.len as nat + 2,
            item_bytes::<u32>(),
        ).unwrap()
        &&& p.bitmap is Some <==> nulls || self.has_bitmap()
        &&& p.bitmap matches Some(g) ==> {
            &&& self.nulls.fits(g, self.len as nat + 1)
            &&& g.capacity == grown_capacity(
                self.nulls.spec_byte_capacity() as nat,
                bytes_for(self.len as nat + 1),
            )
            &&& g.extra == self.bitmap_growth(self.len as nat + 1, nulls).unwrap()
            &&& p.extra == p.values.extra + g.extra
        }
        &&& p.bitmap is None ==> p.extra == p.values.extra
    }

    /// Plans the growth by one slot, or `None` where no such array fits this
    /// machine.
    fn plan_slot(&self, nulls: bool) -> (r: Option<Plan>)
        requires
            self.shell_wf(),
        ensures
            match r {
                Some(p) => {
                    &&& self.slot_growth(nulls) == Some(p.extra as nat)
                    &&& self.fits_slot(p, nulls)
                    &&& self.len + 2 <= usize::MAX
                },
                None => self.slot_growth(nulls) is None || self.slot_growth(nulls).unwrap()
                    > usize::MAX,
            },
    {
        proof {
            self.data.offsets.lemma_wf();
            lemma_grown_capacity(self.data.offsets.spec_capacity() as nat, self.len as nat + 2);
        }
        if self.len >= usize::MAX - 1 {
            return None;
        }
        let values = match self.data.offsets.plan(self.len + 2) {
            Some(g) => g,
            None => {
                return None;
            },
        };
        if nulls || self.nulls.len() > 0 {
            let bitmap = match self.nulls.plan(self.len + 1) {
                Some(g) => g,
                None => {
                    return None;
                },
            };
            let extra = match values.extra.checked_add(bitmap.extra) {
                Some(extra) => extra,
                None => {
                    return None;
                },
            };
            Some(Plan { values, bitmap: Some(bitmap), extra })
        } else {
            let extra = values.extra;
            Some(Plan { values, bitmap: None, extra })
        }
    }

    /// Grows as planned and appends a slot that ends where the child ends
    /// now. The pool admits the additional bytes of the plan.
    fn close_slot(&mut self, pool: &mut MemoryPool, p: Plan, valid: bool)
        requires
            old(self).shell_wf(),
            old(self).len + 2 <= usize::MAX,
            old(self).data.offsets().last() <= old(self).data.values.spec_len() <= u32::MAX,
            old(pool).wf(),
            old(self).fits_slot(p, !valid),
            old(pool)@.admits(p.extra as nat),
        ensures
            final(pool).wf(),
            final(pool)@ == old(pool)@.charged(p.extra as nat),
            final(self).len == old(self).len + 1,
            final(self).dtype == old(self).dtype,
            final(self).data.values == old(self).data.values,
            final(self).shell_wf(),
            final(self).data.offsets() == old(self).data.offsets().push(
                old(self).data.values.spec_len() as u32,
            ),
            final(self).data.offsets.spec_capacity() == grown_capacity(
                old(self).data.offsets.spec_capacity() as nat,
                old(self).len as nat + 2,
            ),
            final(self).has_bitmap() == (!valid || old(self).has_bitmap()),
            final(self).validity() == old(self).validity().push(valid),
            final(self).bitmap_capacity() == old(self).bitmap_grown(
                old(self).len as nat + 1,
                !valid,
            ),
            final(self).data.offsets.spec_bytes() + final(self).nulls.spec_bytes() == old(
                self,
            ).data.offsets.spec_bytes() + old(self).nulls.spec_bytes() + p.extra,
    {
        proof {
            lemma_grown_capacity(self.data.offsets.spec_capacity() as nat, self.len as nat + 2);
            lemma_grown_capacity(
                self.nulls.spec_byte_capacity() as nat,
                bytes_for(self.len as nat + 1),
            );
        }
        let Plan { values, bitmap, extra } = p;
        match bitmap {
            Some(bitmap) => {
                proof {
                    pool@.charge_in_steps(values.extra as nat, bitmap.extra as nat);
                }
                self.data.offsets.grow(pool, values);
                self.nulls.cover(pool, bitmap, self.len + 1);
                if !valid {
                    self.nulls.write(self.len, false);
                }
            },
            None => {
                self.data.offsets.grow(pool, values);
            },
        }
        proof {
            self.data.offsets.lemma_wf();
        }
        let end = self.data.values.len() as u32;
        if self.data.offsets.len() == 0 {
            self.data.offsets.push_within(0u32);
            proof {
                self.data.offsets.lemma_wf();
            }
        }
        self.data.offsets.push_within(end);
        self.len = self.len + 1;
        proof {
            assert(self.data.offsets() =~= old(self).data.offsets().push(end));
            assert(self.validity() =~= old(self).validity().push(valid));
        }
    }

    /// The child array, which holds the values of all lists.
    pub fn values(&self) -> (c: &Array<T>)
        ensures
            *c == self.child(),
    {
        &self.data.values
    }

    /// The offsets, as they lie in memory: none for an array without slots,
    /// and else one more than there are slots.
    pub fn offsets_slice(&self) -> (s: &[u32])
        ensures
            s@ == self.stored_offsets(),
    {
        self.data.offsets.as_slice()
    }

    /// The number of offsets that fit before the offsets have to grow.
    #[verifier::when_used_as_spec(spec_offset_capacity)]
    pub fn offset_capacity(&self) -> (n: usize)
        ensures
            n == self.spec_offset_capacity(),
    {
        self.data.offsets.capacity()
    }

    /// The offset at `index`: where the list of slot `index` starts and
    /// where the list before it ends.
    ///
    /// Fails with `IndexOutOfBounds` for an index past the number of slots.
    pub fn offset(&self, index: usize) -> (r: Result<u32, ArrowError>)
        requires
            self.wf(),
        ensures
            match r {
                Ok(o) => index <= self.spec_len() && o == self.offsets()[index as int],
                Err(e) => index > self.spec_len() && e.reports(StatusCode::IndexOutOfBounds),
            },
    {
        proof {
            self.lemma_offsets();
        }
        if index > self.len {
            Err(ArrowError::of(StatusCode::IndexOutOfBounds))
        } else if self.data.offsets.len() == 0 {
            Ok(0)
        } else {
            Ok(*self.data.offsets.at(index))
        }
    }

    /// Appends a slot that holds a null: a list that ends where it starts.
    ///
    /// The first null allocates the null bitmap, which marks every earlier
    /// slot as not null. Fails with `OutOfMemory`, and changes nothing, when
    /// the pool does not admit the additional bytes or no larger array fits
    /// this machine.
    pub fn push_null(&mut self, pool: &mut MemoryPool) -> (r: Result<(), ArrowError>)
        requires
            old(self).wf(),
            old(pool).wf(),
        ensures
            final(self).wf(),
            final(pool).wf(),
            match r {
                Ok(()) => {
                    &&& old(self).slot_growth(true) matches Some(extra) && old(pool)@.admits(extra)
                    &&& final(self).spec_len() == old(self).spec_len() + 1
                    &&& final(self).spec_dtype() == old(self).spec_dtype()
                    &&& final(self).offsets() == old(self).offsets().push(
                        old(self).offsets().last(),
                    )
                    &&& final(self).child() == old(self).child()
                    &&& final(self).validity() == old(self).validity().push(false)
                    &&& final(self).has_bitmap()
                    &&& final(self).spec_offset_capacity() == grown_capacity(
                        old(self).spec_offset_capacity() as nat,
                        old(self).spec_len() as nat + 2,
                    )
                    &&& final(self).bitmap_capacity() == old(self).bitmap_grown(
                        old(self).spec_len() as nat + 1,
                        true,
                    )
                    &&& final(self).bytes() == old(self).bytes() + old(self).slot_growth(
                        true,
                    ).unwrap()
                    &&& final(pool)@ == old(pool)@.charged(old(self).slot_growth(true).unwrap())
                },
                Err(e) => {
                    &&& !(old(self).slot_growth(true) matches Some(extra) && old(pool)@.admits(
                        extra,
                    ))
                    &&& e.reports(StatusCode::OutOfMemory)
                    &&& *final(self) == *old(self)
                    &&& *final(pool) == *old(pool)
                },
            },
    {
        proof {
            self.lemma_offsets();
        }
        let p = match self.plan_slot(true) {
            Some(p) => p,
            None => {
                return Err(ArrowError::of(StatusCode::OutOfMemory));
            },
        };
        if !pool.admits(p.extra) {
            return Err(ArrowError::of(StatusCode::OutOfMemory));
        }
        self.close_slot(pool, p, false);
        Ok(())
    }
}

impl<T: PrimitiveType> Array<List<T>> {
    /// The bytes that the pool must admit before the array can hold one more
    /// list of `count` values: those by which the child grows and those by
    /// which the offsets and the null bitmap grow. `None` where no such
    /// array fits this machine.
    pub open spec fn append_growth(&self, count: nat) -> Option<nat> {
        plus(
            self.child().spec_growth(self.child().spec_len() as nat + count, false),
            self.slot_growth(false),
        )
    }

    /// Appends a slot that holds the list of `items`: appends each of them
    /// to the child, and then the new length of the child to the offsets.
    ///
    /// Fails with `IndexOutOfBounds` when the child would hold more values
    /// than an offset can count, and with `OutOfMemory` when the pool does
    /// not admit the additional bytes or no larger array fits this machine.
    /// A call that fails changes nothing.
    pub fn append(&mut self, pool: &mut MemoryPool, items: &[T::Item]) -> (r: Result<
        (),
        ArrowError,
    >)
        requires
            old(self).wf(),
            old(pool).wf(),
        ensures
            final(self).wf(),
            final(pool).wf(),
            match r {
                Ok(()) => {
                    &&& old(self).child().spec_len() + items@.len() <= u32::MAX
                    &&& old(self).append_growth(items@.len()) matches Some(extra) && old(
                        pool,
                    )@.admits(extra)
                    &&& final(self).spec_len() == old(self).spec_len() + 1
                    &&& final(self).spec_dtype() == old(self).spec_dtype()
                    &&& final(self).offsets() == old(self).offsets().push(
                        (old(self).child().spec_len() + items@.len()) as u32,
                    )
                    &&& final(self).validity() == old(self).validity().push(true)
                    &&& final(self).has_bitmap() == old(self).has_bitmap()
                    &&& final(self).spec_offset_capacity() == grown_capacity(
                        old(self).spec_offset_capacity() as nat,
                        old(self).spec_len() as nat + 2,
                    )
                    &&& final(self).child().wf()
                    &&& final(self).child().spec_len() == old(self).child().spec_len()
                        + items@.len()
                    &&& final(self).child().spec_dtype() == old(self).child().spec_dtype()
                    &&& final(self).child().column() == old(self).child().column().extend(items@)
                    &&& final(self).bitmap_capacity() == old(self).bitmap_grown(
                        old(self).spec_len() as nat + 1,
                        false,
                    )
                    &&& final(self).bytes() == old(self).bytes() + old(self).append_growth(
                        items@.len(),
                    ).unwrap()
                    &&& final(pool)@ == old(pool)@.charged(
                        old(self).append_growth(items@.len()).unwrap(),
                    )
                },
                Err(e) => {
                    &&& if old(self).child().spec_len() + items@.len() > u32::MAX {
                        e.reports(StatusCode::IndexOutOfBounds)
                    } else {
                        &&& !(old(self).append_growth(items@.len()) matches Some(extra) && old(
                            pool,
                        )@.admits(extra))
                        &&& e.reports(StatusCode::OutOfMemory)
                    }
                    &&& *final(self) == *old(self)
                    &&& *final(pool) == *old(pool)
                },
            },
    {
        proof {
            self.lemma_offsets();
        }
        let end = match self.data.values.len.checked_add(items.len()) {
            Some(end) => end,
            None => {
                return Err(ArrowError::of(StatusCode::IndexOutOfBounds));
            },
        };
        if end > u32::MAX as usize {
            return Err(ArrowError::of(StatusCode::IndexOutOfBounds));
        }
        let child = match self.data.values.plan(end, false) {
            Some(p) => p,
            None => {
                return Err(ArrowError::of(StatusCode::OutOfMemory));
            },
        };
        let slot = match self.plan_slot(false) {
            Some(p) => p,
            None => {
                return Err(ArrowError::of(StatusCode::OutOfMemory));
            },
        };
        let total = match child.extra.checked_add(slot.extra) {
            Some(total) => total,
            None => {
                return Err(ArrowError::of(StatusCode::OutOfMemory));
            },
        };
        if !pool.admits(total) {
            return Err(ArrowError::of(StatusCode::OutOfMemory));
        }
        proof {
            pool@.charge_in_steps(child.extra as nat, slot.extra as nat);
            self.data.values.lemma_wf();
            lemma_grown_capacity(self.data.values.spec_capacity() as nat, end as nat);
        }
        self.data.values.grow(pool, child, end, false);
        self.data.values.fill(items);
        self.data.values.len = end;
        proof {
            self.data.values.dtype.lemma_describes(&self.data.values.data);
            assert(self.data.values.validity() =~= old(self).data.values.validity() + Seq::new(
                items@.len(),
                |i: int| true,
            ));
        }
        self.close_slot(pool, slot, true);
        Ok(())
    }
}

/// An array of lists whose child is out: the offsets and the null bitmap of
/// the array, kept while the child is appended to elsewhere.
///
/// This is how an array of lists of any type is built. `open` takes the
/// child out of the array, the child is appended to as any array is, and
/// `seal` takes it back and appends to the array a slot for the values that
/// the child has gained.
pub struct OpenList<T: DataType> {
    shell: Array<List<T>>,
}

impl<T: DataType> Array<List<T>> {
    /// The last offset: where the next list starts.
    fn end(&self) -> (o: u32)
        requires
            self.shell_wf(),
        ensures
            o == self.data.offsets().last(),
    {
        if self.data.offsets.len() == 0 {
            0
        } else {
            *self.data.offsets.at(self.len)
        }
    }

    /// Takes the child out of the array.
    pub fn open(self) -> (r: (OpenList<T>, Array<T>))
        requires
            self.wf(),
        ensures
            r.0.wf(),
            r.0.shell().spec_dtype() == self.spec_dtype(),
            r.0.shell().spec_len() == self.spec_len(),
            r.0.shell().offsets() == self.offsets(),
            r.0.shell().bitmap() == self.bitmap(),
            r.0.shell().spec_offset_capacity() == self.spec_offset_capacity(),
            r.0.bytes() + self.child().bytes() == self.bytes(),
            r.1 == self.child(),
            r.1.wf(),
            r.1.spec_dtype() == self.spec_dtype().0,
    {
        let mut shell = self;
        let mut child = Array::new(shell.dtype.0);
        core::mem::swap(&mut child, &mut shell.data.values);
        (OpenList { shell }, child)
    }
}

impl<T: DataType> OpenList<T> {
    /// The array as it is while its child is out: with its offsets and its
    /// null bitmap, and with an empty array for its child.
    pub closed spec fn shell(&self) -> Array<List<T>> {
        self.shell
    }

    /// The invariant: that of the array, but for what it says of the child.
    pub closed spec fn wf(&self) -> bool {
        &&& self.shell.shell_wf()
        &&& self.shell.data.values.wf()
        &&& self.shell.data.values.spec_len() == 0
        &&& self.shell.data.values.bytes() == 0
    }

    /// The bytes that the memory pool counts for the offsets and the null
    /// bitmap.
    pub closed spec fn bytes(&self) -> nat {
        self.shell.data.offsets.spec_bytes() as nat + self.shell.nulls.spec_bytes() as nat
    }

    /// Whether `child` can be the child of the array: whether it holds the
    /// values that the offsets point to, and no more than an offset can
    /// count.
    pub open spec fn takes(&self, child: &Array<T>) -> bool {
        self.shell().offsets().last() <= child.spec_len() <= u32::MAX
    }

    /// What the invariant says, for callers.
    pub proof fn lemma_wf(&self)
        requires
            self.wf(),
        ensures
            self.shell().offsets().len() == self.shell().spec_len() + 1,
            self.shell().offsets()[0] == 0,
            forall|i: int, j: int|
                0 <= i <= j <= self.shell().spec_len() ==> self.shell().offsets()[i]
                    <= self.shell().offsets()[j],
            self.shell().child().spec_len() == 0,
            self.bytes() == self.shell().spec_offset_capacity() * item_bytes::<u32>()
                + self.shell().bitmap_capacity(),
    {
        self.shell.data.offsets.lemma_wf();
        self.shell.nulls.lemma_wf();
    }

    /// Takes `child` for the child of the array and appends a slot that
    /// holds, as a list, the values of `child` from the last offset on.
    ///
    /// Fails with `IndexOutOfBounds` when `child` ends before the last
    /// offset or holds more values than an offset can count, and with
    /// `OutOfMemory` when the pool does not admit the additional bytes or no
    /// larger array fits this machine. A call that fails gives back what it
    /// was given and changes nothing.
    pub fn seal(self, pool: &mut MemoryPool, child: Array<T>) -> (r: Result<
        Array<List<T>>,
        (ArrowError, OpenList<T>, Array<T>),
    >)
        requires
            self.wf(),
            child.wf(),
            child.spec_dtype() == self.shell().spec_dtype().0,
            old(pool).wf(),
        ensures
            final(pool).wf(),
            match r {
                Ok(array) => {
                    &&& self.takes(&child)
                    &&& self.shell().slot_growth(false) matches Some(extra) && old(
                        pool,
                    )@.admits(extra)
                    &&& array.wf()
                    &&& array.spec_dtype() == self.shell().spec_dtype()
                    &&& array.spec_len() == self.shell().spec_len() + 1
                    &&& array.offsets() == self.shell().offsets().push(child.spec_len() as u32)
                    &&& array.child() == child
                    &&& array.validity() == self.shell().validity().push(true)
                    &&& array.has_bitmap() == self.shell().has_bitmap()
                    &&& array.spec_offset_capacity() == grown_capacity(
                        self.shell().spec_offset_capacity() as nat,
                        self.shell().spec_len() as nat + 2,
                    )
                    &&& array.bitmap_capacity() == self.shell().bitmap_grown(
                        self.shell().spec_len() as nat + 1,
                        false,
                    )
                    &&& array.bytes() == self.bytes() + child.bytes() + self.shell().slot_growth(
                        false,
                    ).unwrap()
                    &&& final(pool)@ == old(pool)@.charged(
                        self.shell().slot_growth(false).unwrap(),
                    )
                },
                Err((e, list, back)) => {
                    &&& if !self.takes(&child) {
                        e.reports(StatusCode::IndexOutOfBounds)
                    } else {
                        &&& !(self.shell().slot_growth(false) matches Some(extra) && old(
                            pool,
                        )@.admits(extra))
                        &&& e.reports(StatusCode::OutOfMemory)
                    }
                    &&& list == self
                    &&& back == child
                    &&& *final(pool) == *old(pool)
                },
            },
    {
        let OpenList { shell } = self;
        let mut array = shell;
        let mut child = child;
        if child.len < array.end() as usize || child.len > u32::MAX as usize {
            return Err(
                (ArrowError::of(StatusCode::IndexOutOfBounds), OpenList { shell: array }, child),
            );
        }
        let p = match array.plan_slot(false) {
            Some(p) => p,
            None => {
                return Err(
                    (ArrowError::of(StatusCode::OutOfMemory), OpenList { shell: array }, child),
                );
            },
        };
        if !pool.admits(p.extra) {
            return Err(
                (ArrowError::of(StatusCode::OutOfMemory), OpenList { shell: array }, child),
            );
        }
        core::mem::swap(&mut child, &mut array.data.values);
        array.close_slot(pool, p, true);
        Ok(array)
    }

    /// Takes `child` for the child of the array, which gets no new slot.
    ///
    /// Fails with `IndexOutOfBounds`, and gives back what it was given,
    /// unless `child` ends at the last offset.
    pub fn close(self, child: Array<T>) -> (r: Result<
        Array<List<T>>,
        (ArrowError, OpenList<T>, Array<T>),
    >)
        requires
            self.wf(),
            child.wf(),
            child.spec_dtype() == self.shell().spec_dtype().0,
        ensures
            match r {
                Ok(array) => {
                    &&& child.spec_len() == self.shell().offsets().last()
                    &&& array.wf()
                    &&& array.spec_dtype() == self.shell().spec_dtype()
                    &&& array.spec_len() == self.shell().spec_len()
                    &&& array.offsets() == self.shell().offsets()
                    &&& array.child() == child
                    &&& array.bitmap() == self.shell().bitmap()
                    &&& array.spec_offset_capacity() == self.shell().spec_offset_capacity()
                    &&& array.bytes() == self.bytes() + child.bytes()
                },
                Err((e, list, back)) => {
                    &&& child.spec_len() != self.shell().offsets().last()
                    &&& e.reports(StatusCode::IndexOutOfBounds)
                    &&& list == self
                    &&& back == child
                },
            },
    {
        let OpenList { shell } = self;
        let mut array = shell;
        let mut child = child;
        if child.len != array.end() as usize {
            return Err(
                (ArrowError::of(StatusCode::IndexOutOfBounds), OpenList { shell: array }, child),
            );
        }
        core::mem::swap(&mut child, &mut array.data.values);
        Ok(array)
    }

    /// Gives the offsets and the null bitmap up and hands their bytes back
    /// to the pool that counts them.
    pub fn release(self, pool: &mut MemoryPool)
        requires
            self.wf(),
            old(pool).wf(),
            self.bytes() <= old(pool)@.allocated,
        ensures
            final(pool).wf(),
            final(pool)@ == old(pool)@.refunded(self.bytes()),
    {
        let OpenList { shell } = self;
        let Array { len, dtype, nulls, data } = shell;
        let ListData { offsets, values } = data;
        offsets.release(pool);
        nulls.release(pool);
    }
}

} // verus!
