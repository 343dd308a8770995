//! Frozen arrays: what building an array ends in.
//!
//! An array is built by one owner and then frozen. Freezing takes the array
//! and gives back a value that only reads: whoever holds a reference to it
//! sees the same slots, and no call changes them. An array is frozen with
//! all that is nested in it. To build on from a frozen array, copy it.

use vstd::prelude::*;
use crate::array::Array;
use crate::dtypes::{DataType, List, PrimitiveType};
use crate::errors::{ArrowError, StatusCode};
use crate::mempool::MemoryPool;

verus! {

/// An array that is built: nothing appends to it any more, and any number
/// of readers may share it.
pub struct FrozenArray<T: DataType> {
    inner: Array<T>,
}

impl<T: DataType> Array<T> {
    /// Ends the building of the array. What comes back holds the same
    /// slots, with all that is nested in them, and lets nobody change them.
    pub fn freeze(self) -> (f: FrozenArray<T>)
        requires
            self.wf(),
        ensures
            f.array() == self,
    {
        FrozenArray { inner: self }
    }
}

impl<T: DataType> FrozenArray<T> {
    /// What holds of every frozen array: the invariant of the array in it.
    #[verifier::type_invariant]
    spec fn inv(&self) -> bool {
        self.inner.wf()
    }

    /// The array as it was when it was frozen.
    pub closed spec fn array(&self) -> Array<T> {
        self.inner
    }

    /// The array, to read.
    pub fn get(&self) -> (a: &Array<T>)
        ensures
            *a == self.array(),
            a.wf(),
    {
        proof {
            use_type_invariant(self);
        }
        &self.inner
    }

    /// The number of slots.
    pub fn len(&self) -> (n: usize)
        ensures
            n == self.array().spec_len(),
    {
        self.inner.len()
    }

    /// The logical type of the array.
    pub fn dtype(&self) -> (t: T)
        ensures
            t == self.array().spec_dtype(),
    {
        self.inner.dtype()
    }

    /// Whether slot `index` holds a null.
    ///
    /// Fails with `IndexOutOfBounds` for an index that is no slot.
    pub fn is_null(&self, index: usize) -> (r: Result<bool, ArrowError>)
        ensures
            match r {
                Ok(null) => index < self.array().spec_len() && null
                    == !self.array().validity()[index as int],
                Err(e) => index >= self.array().spec_len() && e.reports(
                    StatusCode::IndexOutOfBounds,
                ),
            },
    {
        proof {
            use_type_invariant(self);
        }
        self.inner.is_null(index)
    }

    /// Appending a null to a frozen array fails with `InvalidState` and
    /// changes nothing.
    pub fn push_null(&self, pool: &mut MemoryPool) -> (r: Result<(), ArrowError>)
        ensures
            r matches Err(e) && e.reports(StatusCode::InvalidState),
            *final(pool) == *old(pool),
    {
        Err(ArrowError::of(StatusCode::InvalidState))
    }

    /// Gives the array up and hands its bytes back to the pool that counts
    /// them.
    pub fn release(self, pool: &mut MemoryPool)
        requires
            old(pool).wf(),
            self.array().bytes() <= old(pool)@.allocated,
        ensures
            final(pool).wf(),
            final(pool)@ == old(pool)@.refunded(self.array().bytes()),
    {
        proof {
            use_type_invariant(&self);
        }
        self.inner.release(pool);
    }
}

impl<T: PrimitiveType> FrozenArray<T> {
    /// What slot `index` holds: a value, or `None` for a null.
    ///
    /// Fails with `IndexOutOfBounds` for an index that is no slot.
    pub fn value(&self, index: usize) -> (r: Result<Option<T::Item>, ArrowError>)
        ensures
            self.array().reads(index, r),
    {
        proof {
            use_type_invariant(self);
        }
        self.inner.value(index)
    }

    /// Readers of a frozen array agree: whatever two reads of one slot
    /// give, at any time and by whomever, is the same value, the same null,
    /// or the same error.
    pub proof fn lemma_reads_agree(
        &self,
        index: usize,
        first: Result<Option<T::Item>, ArrowError>,
        second: Result<Option<T::Item>, ArrowError>,
    )
        requires
            self.array().reads(index, first),
            self.array().reads(index, second),
        ensures
            first is Ok <==> second is Ok,
            first is Ok ==> first == second,
            first is Err ==> first->Err_0.code == second->Err_0.code && first->Err_0.msg@
                == second->Err_0.msg@,
    {
    }

    /// Appending a value to a frozen array fails with `InvalidState` and
    /// changes nothing.
    pub fn push(&self, pool: &mut MemoryPool, val: T::Item) -> (r: Result<(), ArrowError>)
        ensures
            r matches Err(e) && e.reports(StatusCode::InvalidState),
            *final(pool) == *old(pool),
    {
        Err(ArrowError::of(StatusCode::InvalidState))
    }
}

impl<T: PrimitiveType> FrozenArray<List<T>> {
    /// Appending a list to a frozen array fails with `InvalidState` and
    /// changes nothing.
    pub fn append(&self, pool: &mut MemoryPool, items: &[T::Item]) -> (r: Result<
        (),
        ArrowError,
    >)
        ensures
            r matches Err(e) && e.reports(StatusCode::InvalidState),
            *final(pool) == *old(pool),
    {
        Err(ArrowError::of(StatusCode::InvalidState))
    }
}

} // verus!
