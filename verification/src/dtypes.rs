//! The logical types of a column, and the storage that each of them asks for.
//!
//! Every logical type is a small value of its own: `Int64`, `Float32`,
//! `List(Int64)`. Its `DataType` impl names it, gives its width in bits where
//! it has one, and makes the empty payload of the one shape that arrays of
//! this type are stored in.

use vstd::prelude::*;
use crate::array::{ArrayData, ListData, PrimitiveData};
use crate::buffer::item_bytes;
use crate::errors::{ArrowError, StatusCode};

verus! {

/// The unit in which a time is counted.
#[derive(Copy, Clone, Debug, PartialEq, Eq, Hash, Structural)]
pub enum TimeUnit {
    Second,
    Milli,
    Micro,
    Nano,
}

/// The unit in which a date is counted.
#[derive(Copy, Clone, Debug, PartialEq, Eq, Hash, Structural)]
pub enum DateUnit {
    Day,
    Milli,
}

/// The unit in which an interval is counted.
#[derive(Copy, Clone, Debug, PartialEq, Eq, Hash, Structural)]
pub enum IntervalUnit {
    YearMonth,
    DayTime,
}

/// The precision of a floating-point type.
#[derive(Copy, Clone, Debug, PartialEq, Eq, Hash, Structural)]
pub enum Precision {
    Half,
    Single,
    Double,
}

/// What a fixed-width logical type keeps in each slot.
pub trait Scalar: Copy {
    /// The in-memory form of one value.
    type Item: Copy;

    /// The value that fills the slot of a null.
    spec fn spec_filler() -> Self::Item;

    /// The value that fills the slot of a null. It stands for nothing: a
    /// reader asks the null bitmap before it reads the slot.
    fn filler(&self) -> (v: Self::Item)
        ensures
            v == Self::spec_filler(),
    ;

    /// A value takes at least one byte.
    proof fn lemma_item_bytes()
        ensures
            item_bytes::<Self::Item>() >= 1,
    ;
}

/// A logical type. Every logical type has one shape of payload, `Data`.
pub trait DataType: Copy {
    /// The shape of payload in which arrays of this type are stored.
    type Data: ArrayData;

    /// The name of this type in the vocabulary that schemas use.
    spec fn name_text(&self) -> Seq<char>;

    /// The width of one value in bits, for a type of fixed width.
    spec fn bit_width(&self) -> Option<nat>;

    /// Whether `data` is a payload of this type: whether the array nested
    /// in it, if there is one, has the type that this type gives it.
    spec fn describes(&self, data: &Self::Data) -> bool;

    /// The name of this type in the vocabulary that schemas use.
    fn name(&self) -> (s: &str)
        ensures
            s@ == self.name_text(),
    ;

    /// The width of one value in bits.
    ///
    /// Fails with `TypeError` for a type without a fixed width.
    fn bits(&self) -> (r: Result<usize, ArrowError>)
        ensures
            match r {
                Ok(n) => self.bit_width() == Some(n as nat),
                Err(e) => self.bit_width() is None && e.reports(StatusCode::TypeError),
            },
    ;

    /// The payload of an array of this type that has no slot yet. It holds
    /// no memory.
    fn empty(&self) -> (d: Self::Data)
        ensures
            d.wf(),
            d.slots() == 0,
            d.bytes() == 0,
            self.describes(&d),
    ;
}

/// A logical type of fixed width, stored as one buffer of values.
pub trait PrimitiveType: DataType<Data = PrimitiveData<Self>> + Scalar {
    /// Nothing is nested in a buffer of values: every such payload is one
    /// of this type.
    proof fn lemma_describes(&self, data: &PrimitiveData<Self>)
        ensures
            self.describes(data),
    ;
}

/// A primitive type that holds floating-point numbers.
pub trait FloatingType: PrimitiveType {
    /// The precision of the numbers.
    spec fn spec_precision(&self) -> Precision;

    /// The precision of the numbers.
    fn precision(&self) -> (p: Precision)
        ensures
            p == self.spec_precision(),
    ;
}

/// A logical type whose values are sequences of values of another type.
pub trait ListType: DataType {
}

/// A logical type whose values are records.
pub trait StructType: DataType {
}

/// Truth values, one byte each.
#[derive(Copy, Clone, Debug, PartialEq, Eq, Hash, Structural)]
pub struct Boolean;

impl Scalar for Boolean {
    type Item = bool;

    open spec fn spec_filler() -> bool {
        false
    }

    fn filler(&self) -> bool {
        false
    }

    proof fn lemma_item_bytes() {
        broadcast use vstd::layout::layout_of_primitives;

    }
}

impl DataType for Boolean {
    type Data = PrimitiveData<Boolean>;

    open spec fn name_text(&self) -> Seq<char> {
        "bool"@
    }

    open spec fn bit_width(&self) -> Option<nat> {
        Some(8)
    }

    open spec fn describes(&self, data: &Self::Data) -> bool {
        true
    }

    fn name(&self) -> (s: &str) {
        "bool"
    }

    fn bits(&self) -> (r: Result<usize, ArrowError>) {
        broadcast use vstd::layout::layout_of_primitives;

        Ok(core::mem::size_of::<bool>() * 8)
    }

    fn empty(&self) -> (d: Self::Data)
        ensures
            d.values().len() == 0,
            d.capacity() == 0,
    {
        PrimitiveData::new()
    }
}

impl PrimitiveType for Boolean {
    proof fn lemma_describes(&self, data: &PrimitiveData<Boolean>) {
    }
}

/// Signed integers of 8 bits.
#[derive(Copy, Clone, Debug, PartialEq, Eq, Hash, Structural)]
pub struct Int8;

impl Scalar for Int8 {
    type Item = i8;

    open spec fn spec_filler() -> i8 {
        0
    }

    fn filler(&self) -> i8 {
        0
    }

    proof fn lemma_item_bytes() {
        broadcast use vstd::layout::layout_of_primitives;

    }
}

impl DataType for Int8 {
    type Data = PrimitiveData<Int8>;

    open spec fn name_text(&self) -> Seq<char> {
        "int8"@
    }

    open spec fn bit_width(&self) -> Option<nat> {
        Some(8)
    }

    open spec fn describes(&self, data: &Self::Data) -> bool {
        true
    }

    fn name(&self) -> (s: &str) {
        "int8"
    }

    fn bits(&self) -> (r: Result<usize, ArrowError>) {
        broadcast use vstd::layout::layout_of_primitives;

        Ok(core::mem::size_of::<i8>() * 8)
    }

    fn empty(&self) -> (d: Self::Data)
        ensures
            d.values().len() == 0,
            d.capacity() == 0,
    {
        PrimitiveData::new()
    }
}

impl PrimitiveType for Int8 {
    proof fn lemma_describes(&self, data: &PrimitiveData<Int8>) {
    }
}

/// Signed integers of 16 bits.
#[derive(Copy, Clone, Debug, PartialEq, Eq, Hash, Structural)]
pub struct Int16;

impl Scalar for Int16 {
    type Item = i16;

    open spec fn spec_filler() -> i16 {
        0
    }

    fn filler(&self) -> i16 {
        0
    }

    proof fn lemma_item_bytes() {
        broadcast use vstd::layout::layout_of_primitives;

    }
}

impl DataType for Int16 {
    type Data = PrimitiveData<Int16>;

    open spec fn name_text(&self) -> Seq<char> {
        "int16"@
    }

    open spec fn bit_width(&self) -> Option<nat> {
        Some(16)
    }

    open spec fn describes(&self, data: &Self::Data) -> bool {
        true
    }

    fn name(&self) -> (s: &str) {
        "int16"
    }

    fn bits(&self) -> (r: Result<usize, ArrowError>) {
        broadcast use vstd::layout::layout_of_primitives;

        Ok(core::mem::size_of::<i16>() * 8)
    }

    fn empty(&self) -> (d: Self::Data)
        ensures
            d.values().len() == 0,
            d.capacity() == 0,
    {
        PrimitiveData::new()
    }
}

impl PrimitiveType for Int16 {
    proof fn lemma_describes(&self, data: &PrimitiveData<Int16>) {
    }
}

/// Signed integers of 32 bits.
#[derive(Copy, Clone, Debug, PartialEq, Eq, Hash, Structural)]
pub struct Int32;

impl Scalar for Int32 {
    type Item = i32;

    open spec fn spec_filler() -> i32 {
        0
    }

    fn filler(&self) -> i32 {
        0
    }

    proof fn lemma_item_bytes() {
        broadcast use vstd::layout::layout_of_primitives;

    }
}

impl DataType for Int32 {
    type Data = PrimitiveData<Int32>;

    open spec fn name_text(&self) -> Seq<char> {
        "int32"@
    }

    open spec fn bit_width(&self) -> Option<nat> {
        Some(32)
    }

    open spec fn describes(&self, data: &Self::Data) -> bool {
        true
    }

    fn name(&self) -> (s: &str) {
        "int32"
    }

    fn bits(&self) -> (r: Result<usize, ArrowError>) {
        broadcast use vstd::layout::layout_of_primitives;

        Ok(core::mem::size_of::<i32>() * 8)
    }

    fn empty(&self) -> (d: Self::Data)
        ensures
            d.values().len() == 0,
            d.capacity() == 0,
    {
        PrimitiveData::new()
    }
}

impl PrimitiveType for Int32 {
    proof fn lemma_describes(&self, data: &PrimitiveData<Int32>) {
    }
}

/// Signed integers of 64 bits.
#[derive(Copy, Clone, Debug, PartialEq, Eq, Hash, Structural)]
pub struct Int64;

impl Scalar for Int64 {
    type Item = i64;

    open spec fn spec_filler() -> i64 {
        0
    }

    fn filler(&self) -> i64 {
        0
    }

    proof fn lemma_item_bytes() {
        broadcast use vstd::layout::layout_of_primitives;

    }
}

impl DataType for Int64 {
    type Data = PrimitiveData<Int64>;

    open spec fn name_text(&self) -> Seq<char> {
        "int64"@
    }

    open spec fn bit_width(&self) -> Option<nat> {
        Some(64)
    }

    open spec fn describes(&self, data: &Self::Data) -> bool {
        true
    }

    fn name(&self) -> (s: &str) {
        "int64"
    }

    fn bits(&self) -> (r: Result<usize, ArrowError>) {
        broadcast use vstd::layout::layout_of_primitives;

        Ok(core::mem::size_of::<i64>() * 8)
    }

    fn empty(&self) -> (d: Self::Data)
        ensures
            d.values().len() == 0,
            d.capacity() == 0,
    {
        PrimitiveData::new()
    }
}

impl PrimitiveType for Int64 {
    proof fn lemma_describes(&self, data: &PrimitiveData<Int64>) {
    }
}

/// Unsigned integers of 8 bits.
#[derive(Copy, Clone, Debug, PartialEq, Eq, Hash, Structural)]
pub struct UInt8;

impl Scalar for UInt8 {
    type Item = u8;

    open spec fn spec_filler() -> u8 {
        0
    }

    fn filler(&self) -> u8 {
        0
    }

    proof fn lemma_item_bytes() {
        broadcast use vstd::layout::layout_of_primitives;

    }
}

impl DataType for UInt8 {
    type Data = PrimitiveData<UInt8>;

    open spec fn name_text(&self) -> Seq<char> {
        "uint8"@
    }

    open spec fn bit_width(&self) -> Option<nat> {
        Some(8)
    }

    open spec fn describes(&self, data: &Self::Data) -> bool {
        true
    }

    fn name(&self) -> (s: &str) {
        "uint8"
    }

    fn bits(&self) -> (r: Result<usize, ArrowError>) {
        broadcast use vstd::layout::layout_of_primitives;

        Ok(core::mem::size_of::<u8>() * 8)
    }

    fn empty(&self) -> (d: Self::Data)
        ensures
            d.values().len() == 0,
            d.capacity() == 0,
    {
        PrimitiveData::new()
    }
}

impl PrimitiveType for UInt8 {
    proof fn lemma_describes(&self, data: &PrimitiveData<UInt8>) {
    }
}

/// Unsigned integers of 16 bits.
#[derive(Copy, Clone, Debug, PartialEq, Eq, Hash, Structural)]
pub struct UInt16;

impl Scalar for UInt16 {
    type Item = u16;

    open spec fn spec_filler() -> u16 {
        0
    }

    fn filler(&self) -> u16 {
        0
    }

    proof fn lemma_item_bytes() {
        broadcast use vstd::layout::layout_of_primitives;

    }
}

impl DataType for UInt16 {
    type Data = PrimitiveData<UInt16>;

    open spec fn name_text(&self) -> Seq<char> {
        "uint16"@
    }

    open spec fn bit_width(&self) -> Option<nat> {
        Some(16)
    }

    open spec fn describes(&self, data: &Self::Data) -> bool {
        true
    }

    fn name(&self) -> (s: &str) {
        "uint16"
    }

    fn bits(&self) -> (r: Result<usize, ArrowError>) {
        broadcast use vstd::layout::layout_of_primitives;

        Ok(core::mem::size_of::<u16>() * 8)
    }

    fn empty(&self) -> (d: Self::Data)
        ensures
            d.values().len() == 0,
            d.capacity() == 0,
    {
        PrimitiveData::new()
    }
}

impl PrimitiveType for UInt16 {
    proof fn lemma_describes(&self, data: &PrimitiveData<UInt16>) {
    }
}

/// Unsigned integers of 32 bits.
#[derive(Copy, Clone, Debug, PartialEq, Eq, Hash, Structural)]
pub struct UInt32;

impl Scalar for UInt32 {
    type Item = u32;

    open spec fn spec_filler() -> u32 {
        0
    }

    fn filler(&self) -> u32 {
        0
    }

    proof fn lemma_item_bytes() {
        broadcast use vstd::layout::layout_of_primitives;

    }
}

impl DataType for UInt32 {
    type Data = PrimitiveData<UInt32>;

    open spec fn name_text(&self) -> Seq<char> {
        "uint32"@
    }

    open spec fn bit_width(&self) -> Option<nat> {
        Some(32)
    }

    open spec fn describes(&self, data: &Self::Data) -> bool {
        true
    }

    fn name(&self) -> (s: &str) {
        "uint32"
    }

    fn bits(&self) -> (r: Result<usize, ArrowError>) {
        broadcast use vstd::layout::layout_of_primitives;

        Ok(core::mem::size_of::<u32>() * 8)
    }

    fn empty(&self) -> (d: Self::Data)
        ensures
            d.values().len() == 0,
            d.capacity() == 0,
    {
        PrimitiveData::new()
    }
}

impl PrimitiveType for UInt32 {
    proof fn lemma_describes(&self, data: &PrimitiveData<UInt32>) {
    }
}

/// Unsigned integers of 64 bits.
#[derive(Copy, Clone, Debug, PartialEq, Eq, Hash, Structural)]
pub struct UInt64;

impl Scalar for UInt64 {
    type Item = u64;

    open spec fn spec_filler() -> u64 {
        0
    }

    fn filler(&self) -> u64 {
        0
    }

    proof fn lemma_item_bytes() {
        broadcast use vstd::layout::layout_of_primitives;

    }
}

impl DataType for UInt64 {
    type Data = PrimitiveData<UInt64>;

    open spec fn name_text(&self) -> Seq<char> {
        "uint64"@
    }

    open spec fn bit_width(&self) -> Option<nat> {
        Some(64)
    }

    open spec fn describes(&self, data: &Self::Data) -> bool {
        true
    }

    fn name(&self) -> (s: &str) {
        "uint64"
    }

    fn bits(&self) -> (r: Result<usize, ArrowError>) {
        broadcast use vstd::layout::layout_of_primitives;

        Ok(core::mem::size_of::<u64>() * 8)
    }

    fn empty(&self) -> (d: Self::Data)
        ensures
            d.values().len() == 0,
            d.capacity() == 0,
    {
        PrimitiveData::new()
    }
}

impl PrimitiveType for UInt64 {
    proof fn lemma_describes(&self, data: &PrimitiveData<UInt64>) {
    }
}

/// Floating-point numbers of 32 bits. A slot holds the bit pattern of the
/// number in the IEEE 754 binary32 format.
#[derive(Copy, Clone, Debug, PartialEq, Eq, Hash, Structural)]
pub struct Float32;

impl Scalar for Float32 {
    type Item = u32;

    open spec fn spec_filler() -> u32 {
        0
    }

    fn filler(&self) -> u32 {
        0
    }

    proof fn lemma_item_bytes() {
        broadcast use vstd::layout::layout_of_primitives;

    }
}

impl DataType for Float32 {
    type Data = PrimitiveData<Float32>;

    open spec fn name_text(&self) -> Seq<char> {
        "float32"@
    }

    open spec fn bit_width(&self) -> Option<nat> {
        Some(32)
    }

    open spec fn describes(&self, data: &Self::Data) -> bool {
        true
    }

    fn name(&self) -> (s: &str) {
        "float32"
    }

    fn bits(&self) -> (r: Result<usize, ArrowError>) {
        broadcast use vstd::layout::layout_of_primitives;

        Ok(core::mem::size_of::<u32>() * 8)
    }

    fn empty(&self) -> (d: Self::Data)
        ensures
            d.values().len() == 0,
            d.capacity() == 0,
    {
        PrimitiveData::new()
    }
}

impl PrimitiveType for Float32 {
    proof fn lemma_describes(&self, data: &PrimitiveData<Float32>) {
    }
}

impl FloatingType for Float32 {
    open spec fn spec_precision(&self) -> Precision {
        Precision::Single
    }

    fn precision(&self) -> (p: Precision) {
        Precision::Single
    }
}

/// Floating-point numbers of 64 bits. A slot holds the bit pattern of the
/// number in the IEEE 754 binary64 format.
#[derive(Copy, Clone, Debug, PartialEq, Eq, Hash, Structural)]
pub struct Float64;

impl Scalar for Float64 {
    type Item = u64;

    open spec fn spec_filler() -> u64 {
        0
    }

    fn filler(&self) -> u64 {
        0
    }

    proof fn lemma_item_bytes() {
        broadcast use vstd::layout::layout_of_primitives;

    }
}

impl DataType for Float64 {
    type Data = PrimitiveData<Float64>;

    open spec fn name_text(&self) -> Seq<char> {
        "float64"@
    }

    open spec fn bit_width(&self) -> Option<nat> {
        Some(64)
    }

    open spec fn describes(&self, data: &Self::Data) -> bool {
        true
    }

    fn name(&self) -> (s: &str) {
        "float64"
    }

    fn bits(&self) -> (r: Result<usize, ArrowError>) {
        broadcast use vstd::layout::layout_of_primitives;

        Ok(core::mem::size_of::<u64>() * 8)
    }

    fn empty(&self) -> (d: Self::Data)
        ensures
            d.values().len() == 0,
            d.capacity() == 0,
    {
        PrimitiveData::new()
    }
}

impl PrimitiveType for Float64 {
    proof fn lemma_describes(&self, data: &PrimitiveData<Float64>) {
    }
}

impl FloatingType for Float64 {
    open spec fn spec_precision(&self) -> Precision {
        Precision::Double
    }

    fn precision(&self) -> (p: Precision) {
        Precision::Double
    }
}

/// The type of lists whose values have the type that it wraps.
#[derive(Copy, Clone, Debug, PartialEq, Eq, Hash)]
pub struct List<T: DataType>(pub T);

impl<T: DataType> DataType for List<T> {
    type Data = ListData<T>;

    open spec fn name_text(&self) -> Seq<char> {
        "list"@
    }

    open spec fn bit_width(&self) -> Option<nat> {
        None
    }

    open spec fn describes(&self, data: &Self::Data) -> bool {
        data.child().spec_dtype() == self.0
    }

    fn name(&self) -> (s: &str) {
        "list"
    }

    fn bits(&self) -> (r: Result<usize, ArrowError>) {
        Err(ArrowError::of(StatusCode::TypeError))
    }

    fn empty(&self) -> (d: Self::Data)
        ensures
            d.offsets() == seq![0u32],
            d.stored_offsets() == Seq::<u32>::empty(),
            d.offset_capacity() == 0,
            d.child().wf(),
            d.child().spec_dtype() == self.0,
            d.child().spec_len() == 0,
            !d.child().has_bitmap(),
            d.child().bytes() == 0,
    {
        ListData::new(self.0)
    }
}

impl<T: DataType> ListType for List<T> {
}

} // verus!
