//! Annotations that a schema or a field may carry.

use vstd::prelude::*;

verus! {

/// Keys and values, in two lists of text.
#[derive(Clone, Debug, Eq, PartialEq, Hash)]
pub struct KeyValueMetadata {
    keys: Vec<String>,
    values: Vec<String>,
}

/// The texts of a list of strings.
pub open spec fn texts(list: Seq<String>) -> Seq<Seq<char>> {
    Seq::new(list.len(), |i: int| list[i]@)
}

/// The texts of a list of string slices.
pub open spec fn slice_texts(list: Seq<&str>) -> Seq<Seq<char>> {
    Seq::new(list.len(), |i: int| list[i]@)
}

fn owned(list: Vec<&str>) -> (out: Vec<String>)
    ensures
        texts(out@) == slice_texts(list@),
{
    let mut out: Vec<String> = Vec::new();
    let mut i: usize = 0;
    while i < list.len()
        invariant
            i <= list@.len(),
            out@.len() == i,
            forall|j: int| 0 <= j < i ==> out@[j]@ == list@[j]@,
        decreases list@.len() - i,
    {
        out.push(list[i].to_owned());
        i = i + 1;
    }
    proof {
        assert(texts(out@) =~= slice_texts(list@));
    }
    out
}

impl KeyValueMetadata {
    /// The keys, in the order in which they were given.
    pub closed spec fn spec_keys(&self) -> Seq<Seq<char>> {
        texts(self.keys@)
    }

    /// The values, in the order in which they were given.
    pub closed spec fn spec_values(&self) -> Seq<Seq<char>> {
        texts(self.values@)
    }

    /// Metadata that holds the given keys and values, in their order.
    pub fn new(keys: Vec<&str>, values: Vec<&str>) -> (m: KeyValueMetadata)
        ensures
            m.spec_keys() == slice_texts(keys@),
            m.spec_values() == slice_texts(values@),
    {
        KeyValueMetadata { keys: owned(keys), values: owned(values) }
    }

    /// The keys, in the order in which they were given.
    pub fn keys(&self) -> (k: &Vec<String>)
        ensures
            texts(k@) == self.spec_keys(),
    {
        &self.keys
    }

    /// The values, in the order in which they were given.
    pub fn values(&self) -> (v: &Vec<String>)
        ensures
            texts(v@) == self.spec_values(),
    {
        &self.values
    }
}

} // verus!
