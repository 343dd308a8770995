//! An array of a primitive type as a mathematical value, and what holds of
//! every array that was made empty and then appended to.

use vstd::prelude::*;
use vstd::arithmetic::power2::is_pow2;
use crate::bitmap::bytes_for;
use crate::buffer::{
    capacity_after, grown_capacity, lemma_capacity_after, lemma_grown_capacity,
    lemma_grown_in_steps,
};

verus! {

/// What there is to know of an array of a primitive type.
pub struct Column<V> {
    /// The values, slot by slot. The value in the slot of a null stands for
    /// nothing.
    pub values: Seq<V>,
    /// For each slot, whether it holds a value (`true`) or a null.
    pub validity: Seq<bool>,
    /// Whether the null bitmap has been allocated.
    pub has_bitmap: bool,
    /// The number of values that fit before the values have to grow.
    pub capacity: nat,
    /// The bytes for which the null bitmap has room before it has to grow.
    pub bitmap_capacity: nat,
}

impl<V> Column<V> {
    /// The array without slots, which holds no memory.
    pub open spec fn empty() -> Column<V> {
        Column {
            values: Seq::empty(),
            validity: Seq::empty(),
            has_bitmap: false,
            capacity: 0,
            bitmap_capacity: 0,
        }
    }

    /// The number of slots.
    pub open spec fn len(self) -> nat {
        self.values.len()
    }

    /// The capacity of the null bitmap once the array holds `slots` slots:
    /// a bitmap that is there grows, by doubling, until it covers them.
    pub open spec fn bitmap_grown(self, slots: nat) -> nat {
        if self.has_bitmap {
            grown_capacity(self.bitmap_capacity, bytes_for(slots))
        } else {
            self.bitmap_capacity
        }
    }

    /// The array after a slot that holds `value` is appended.
    pub open spec fn push(self, value: V) -> Column<V> {
        Column {
            values: self.values.push(value),
            validity: self.validity.push(true),
            has_bitmap: self.has_bitmap,
            capacity: grown_capacity(self.capacity, self.values.len() + 1),
            bitmap_capacity: self.bitmap_grown(self.values.len() + 1),
        }
    }

    /// The array after a slot that holds a null is appended.
    pub open spec fn push_null(self, filler: V) -> Column<V> {
        Column {
            values: self.values.push(filler),
            validity: self.validity.push(false),
            has_bitmap: true,
            capacity: grown_capacity(self.capacity, self.values.len() + 1),
            bitmap_capacity: grown_capacity(
                self.bitmap_capacity,
                bytes_for(self.values.len() + 1),
            ),
        }
    }

    /// The array after a slot is appended for each of `items`.
    pub open spec fn extend(self, items: Seq<V>) -> Column<V> {
        Column {
            values: self.values + items,
            validity: self.validity + Seq::new(items.len(), |i: int| true),
            has_bitmap: self.has_bitmap,
            capacity: grown_capacity(self.capacity, self.values.len() + items.len()),
            bitmap_capacity: self.bitmap_grown(self.values.len() + items.len()),
        }
    }

    /// The slots as a reader sees them: a value, or `None` for a null.
    pub open spec fn slots(self) -> Seq<Option<V>> {
        Seq::new(
            self.values.len(),
            |i: int|
                if self.validity[i] {
                    Some(self.values[i])
                } else {
                    None
                },
        )
    }

    /// The array that was made empty and then appended to once for each
    /// entry of `history`, in order: a value for `Some`, a null for `None`.
    pub open spec fn built(history: Seq<Option<V>>, filler: V) -> Column<V>
        decreases history.len(),
    {
        if history.len() == 0 {
            Column::empty()
        } else {
            let before = Column::built(history.drop_last(), filler);
            match history.last() {
                Some(value) => before.push(value),
                None => before.push_null(filler),
            }
        }
    }

    /// Of every array that was made empty and then appended to: it has one
    /// slot for each append; a reader finds in slot `i` what append `i`
    /// gave, the value or the null; the slots that are marked as null are
    /// just those that a null was appended for; the array has a null bitmap
    /// if and only if a null was appended, and one that has grown from
    /// nothing to cover its slots; and its capacity is that of as many
    /// pushes: at least the number of slots, and zero or the one power of
    /// two below twice that number.
    pub proof fn lemma_built(history: Seq<Option<V>>, filler: V)
        ensures
            Column::built(history, filler).len() == history.len(),
            Column::built(history, filler).validity.len() == history.len(),
            Column::built(history, filler).slots() == history,
            forall|i: int|
                0 <= i < history.len() ==> (Column::built(history, filler).validity[i]
                    <==> #[trigger] history[i] is Some),
            Column::built(history, filler).has_bitmap <==> exists|i: int|
                0 <= i < history.len() && #[trigger] history[i] is None,
            Column::built(history, filler).bitmap_capacity == if Column::built(
                history,
                filler,
            ).has_bitmap {
                grown_capacity(0, bytes_for(history.len()))
            } else {
                0
            },
            Column::built(history, filler).capacity == capacity_after(history.len()),
            Column::built(history, filler).capacity >= history.len(),
            history.len() > 0 ==> is_pow2(Column::built(history, filler).capacity as int)
                && Column::built(history, filler).capacity < 2 * history.len(),
        decreases history.len(),
    {
        lemma_capacity_after(history.len());
        if history.len() > 0 {
            let earlier = history.drop_last();
            let before = Column::built(earlier, filler);
            let after = Column::built(history, filler);
            Self::lemma_built(earlier, filler);
            lemma_grown_in_steps(0, bytes_for(earlier.len()), bytes_for(history.len()));
            assert(after.slots() =~= history) by {
                assert forall|i: int| 0 <= i < history.len() implies after.slots()[i]
                    == history[i] by {
                    if i < earlier.len() {
                        assert(before.slots()[i] == earlier[i]);
                    }
                }
            }
            assert forall|i: int| 0 <= i < history.len() implies (after.validity[i]
                <==> #[trigger] history[i] is Some) by {
                if i < earlier.len() {
                    assert(earlier[i] == history[i]);
                }
            }
            if after.has_bitmap {
                if history.last() is Some {
                    let i = choose|i: int| 0 <= i < earlier.len() && #[trigger] earlier[i] is None;
                    assert(history[i] is None);
                } else {
                    assert(history[history.len() - 1] is None);
                }
            }
            if exists|i: int| 0 <= i < history.len() && #[trigger] history[i] is None {
                let i = choose|i: int| 0 <= i < history.len() && #[trigger] history[i] is None;
                if i < earlier.len() {
                    assert(earlier[i] is None);
                }
            }
        }
    }

    /// Appending the items of a list at once gives what appending them one
    /// by one gives.
    pub proof fn lemma_extend(self, items: Seq<V>)
        requires
            self.values.len() <= self.capacity,
            bytes_for(self.values.len()) <= self.bitmap_capacity,
        ensures
            items.len() == 0 ==> self.extend(items) == self,
            items.len() > 0 ==> self.extend(items) == self.extend(items.drop_last()).push(
                items.last(),
            ),
    {
        lemma_grown_capacity(self.capacity, self.values.len());
        lemma_grown_capacity(self.bitmap_capacity, bytes_for(self.values.len()));
        if items.len() == 0 {
            assert(self.extend(items).values =~= self.values);
            assert(self.extend(items).validity =~= self.validity);
        } else {
            let shorter = self.extend(items.drop_last());
            let longer = shorter.push(items.last());
            assert(longer.values =~= self.extend(items).values);
            assert(longer.validity =~= self.extend(items).validity);
            lemma_grown_in_steps(
                self.capacity,
                self.values.len() + items.drop_last().len(),
                self.values.len() + items.len(),
            );
            lemma_grown_in_steps(
                self.bitmap_capacity,
                bytes_for(self.values.len() + items.drop_last().len()),
                bytes_for(self.values.len() + items.len()),
            );
        }
    }
}

} // verus!
