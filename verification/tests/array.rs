use arrow::array::{Array, ArrayData, ListData, PrimitiveData};
use arrow::dtypes::{
    Boolean, DataType, FloatingType, Float32, Float64, Int16, Int32, Int64, Int8, List,
    Precision, PrimitiveType, Scalar, UInt16, UInt32, UInt64, UInt8,
};
use arrow::frozen::FrozenArray;
use arrow::errors::StatusCode;
use arrow::mempool::MemoryPool;

#[test]
fn test_from_dtype() {
    Array::new(Float32);
    Array::new(Float64);

    Array::new(Int8);
    Array::new(Int16);
    Array::new(Int32);
    Array::new(Int64);
    Array::new(UInt8);
    Array::new(UInt16);
    Array::new(UInt32);
    Array::new(UInt64);

    Array::new(List(Int64));
    Array::new(List(Float64));
}

#[test]
fn test_simple() {
    let mut pool = MemoryPool::new();
    let mut a = Array::new(Int64);

    assert_eq!(a.len(), 0);
    assert_eq!(a.dtype(), Int64);

    println!("{}", a.len());
    println!("{}", a.capacity());

    for i in 1..100 {
        a.push(&mut pool, i).unwrap();
    }
    assert_eq!(a.len(), 99);
    assert_eq!(a.capacity(), 128);
    for i in 0..99usize {
        assert_eq!(a.value(i).unwrap(), Some(i as i64 + 1));
    }
}

#[test]
fn new_array_is_empty_and_holds_no_memory() {
    let a = Array::new(Int32);
    assert_eq!(a.len(), 0);
    assert_eq!(a.capacity(), 0);
    assert!(!a.has_nulls());
    assert_eq!(a.value(0).unwrap_err().code(), StatusCode::IndexOutOfBounds);
    assert_eq!(a.is_null(0).unwrap_err().code(), StatusCode::IndexOutOfBounds);
    assert!(a.as_slice().is_empty());
    assert!(a.nulls().as_bytes().is_empty());
    assert_eq!(a.nulls().len(), 0);
    assert_eq!(a.allocated(), Some(0));
    let nested = Array::new(List(List(Boolean)));
    assert!(nested.offsets_slice().is_empty());
    assert_eq!(nested.len(), 0);
    assert_eq!(nested.dtype(), List(List(Boolean)));
    assert_eq!(nested.offset(0).unwrap(), 0);
    assert_eq!(nested.values().len(), 0);
}

#[test]
fn int64_scenario_push_one_two_three() {
    let mut pool = MemoryPool::new();
    let mut a = Array::new(Int64);
    for v in [1i64, 2, 3] {
        a.push(&mut pool, v).unwrap();
    }
    assert_eq!(a.len(), 3);
    assert_eq!(a.value(0).unwrap(), Some(1));
    assert_eq!(a.value(1).unwrap(), Some(2));
    assert_eq!(a.value(2).unwrap(), Some(3));
    assert!(!a.has_nulls());
    for i in 0..3 {
        assert_eq!(a.is_null(i).unwrap(), false);
    }
    assert_eq!(a.capacity(), 4);
    assert_eq!(pool.bytes_allocated(), 32);
}

#[test]
fn pushes_read_back_in_order() {
    let mut pool = MemoryPool::new();
    let mut a = Array::new(UInt16);
    let values: Vec<u16> = (0..1000u32).map(|i| (i * 7 % 65536) as u16).collect();
    for v in &values {
        a.push(&mut pool, *v).unwrap();
    }
    assert_eq!(a.len(), values.len());
    for (i, v) in values.iter().enumerate() {
        assert_eq!(a.value(i).unwrap(), Some(*v));
    }
    assert_eq!(a.value(values.len()).unwrap_err().code(), StatusCode::IndexOutOfBounds);
}

#[test]
fn capacity_follows_the_powers_of_two() {
    let mut pool = MemoryPool::new();
    let mut a = Array::new(UInt8);
    let mut last = a.capacity();
    assert_eq!(last, 0);
    for k in 1..=300usize {
        a.push(&mut pool, 0).unwrap();
        let cap = a.capacity();
        assert!(cap >= k);
        assert!(cap >= last);
        assert_eq!(cap, k.next_power_of_two());
        last = cap;
    }
    assert_eq!(pool.bytes_allocated(), 512);
    assert_eq!(pool.max_memory(), 512);
}

#[test]
fn push_null_marks_just_its_own_slots() {
    let mut pool = MemoryPool::new();
    let mut a = Array::new(Int32);
    a.push(&mut pool, 10).unwrap();
    a.push(&mut pool, 20).unwrap();
    assert!(!a.has_nulls());
    a.push_null(&mut pool).unwrap();
    assert!(a.has_nulls());
    a.push(&mut pool, 40).unwrap();
    a.push_null(&mut pool).unwrap();
    a.push_null(&mut pool).unwrap();
    for _ in 0..10 {
        a.push(&mut pool, 7).unwrap();
    }
    assert_eq!(a.len(), 16);
    let nulls = [2usize, 4, 5];
    for i in 0..16 {
        assert_eq!(a.is_null(i).unwrap(), nulls.contains(&i));
    }
    assert_eq!(a.value(0).unwrap(), Some(10));
    assert_eq!(a.value(1).unwrap(), Some(20));
    assert_eq!(a.value(2).unwrap(), None);
    assert_eq!(a.value(3).unwrap(), Some(40));
    assert_eq!(a.value(4).unwrap(), None);
    assert_eq!(a.value(15).unwrap(), Some(7));
    assert_eq!(a.is_null(16).unwrap_err().code(), StatusCode::IndexOutOfBounds);
    for i in 0..16 {
        assert_eq!(a.nulls().get(i), !nulls.contains(&i));
    }
    // the least significant bit comes first: slots 2, 4 and 5 are cleared
    assert_eq!(a.nulls().as_bytes(), &[0b1100_1011u8, 0xff]);
    assert_eq!(a.nulls().len(), 16);
    assert_eq!(a.as_slice(), &[10, 20, 0, 40, 0, 0, 7, 7, 7, 7, 7, 7, 7, 7, 7, 7]);
    // sixteen values of four bytes each, and two bytes of bitmap
    assert_eq!(pool.bytes_allocated(), 16 * 4 + 2);
}

#[test]
fn push_null_counts_one_slot_each_time() {
    let mut pool = MemoryPool::new();
    let mut a = Array::new(Boolean);
    for n in 1..=20usize {
        a.push_null(&mut pool).unwrap();
        assert_eq!(a.len(), n);
        assert_eq!(a.is_null(n - 1).unwrap(), true);
    }
}

#[test]
fn extend_appends_all_or_nothing() {
    let mut pool = MemoryPool::with_ceiling(40);
    let mut a = Array::new(Int64);
    a.extend(&mut pool, &[1, 2, 3]).unwrap();
    assert_eq!(a.len(), 3);
    assert_eq!(a.capacity(), 4);
    assert_eq!(pool.bytes_allocated(), 32);
    let err = a.extend(&mut pool, &[4, 5]).unwrap_err();
    assert_eq!(err.code(), StatusCode::OutOfMemory);
    assert_eq!(a.len(), 3);
    assert_eq!(a.capacity(), 4);
    assert_eq!(pool.bytes_allocated(), 32);
    a.extend(&mut pool, &[4]).unwrap();
    assert_eq!(a.len(), 4);
    assert_eq!(a.value(3).unwrap(), Some(4));
    a.extend(&mut pool, &[]).unwrap();
    assert_eq!(a.len(), 4);
}

#[test]
fn ceiling_of_64_bytes_refuses_the_ninth_int64() {
    let mut pool = MemoryPool::with_ceiling(64);
    let mut a = Array::new(Int64);
    for i in 0..8 {
        a.push(&mut pool, i).unwrap();
    }
    assert_eq!(a.len(), 8);
    assert_eq!(pool.bytes_allocated(), 64);
    let err = a.push(&mut pool, 8).unwrap_err();
    assert_eq!(err.code(), StatusCode::OutOfMemory);
    assert_eq!(err.to_string(), "Out of memory");
    assert_eq!(a.len(), 8);
    assert_eq!(a.capacity(), 8);
    assert_eq!(pool.bytes_allocated(), 64);
    assert_eq!(pool.max_memory(), 64);
    for i in 0..8usize {
        assert_eq!(a.value(i).unwrap(), Some(i as i64));
    }
    // a null needs a bitmap, for which no byte is left
    let err = a.push_null(&mut pool).unwrap_err();
    assert_eq!(err.code(), StatusCode::OutOfMemory);
    assert_eq!(a.len(), 8);
    assert!(!a.has_nulls());
    assert_eq!(pool.bytes_allocated(), 64);
}

#[test]
fn refused_null_leaves_no_bitmap_behind() {
    // room for the bitmap, none for the values to double
    let mut pool = MemoryPool::with_ceiling(9);
    let mut a = Array::new(Int64);
    a.push(&mut pool, 5).unwrap();
    assert_eq!(pool.bytes_allocated(), 8);
    let err = a.push_null(&mut pool).unwrap_err();
    assert_eq!(err.code(), StatusCode::OutOfMemory);
    assert_eq!(a.len(), 1);
    assert!(!a.has_nulls());
    assert_eq!(pool.bytes_allocated(), 8);
    assert_eq!(pool.max_memory(), 8);
}

#[test]
fn list_scenario_offsets_and_child() {
    let mut pool = MemoryPool::new();
    let mut a = Array::new(List(Int64));
    a.append(&mut pool, &[1, 2]).unwrap();
    a.append(&mut pool, &[]).unwrap();
    a.append(&mut pool, &[3]).unwrap();
    assert_eq!(a.len(), 3);
    let offsets: Vec<u32> = (0..=3).map(|i| a.offset(i).unwrap()).collect();
    assert_eq!(offsets, vec![0, 2, 2, 3]);
    assert_eq!(a.offsets_slice(), &[0, 2, 2, 3]);
    assert_eq!(a.values().as_slice(), &[1, 2, 3]);
    let child = a.values();
    assert_eq!(child.len(), 3);
    assert_eq!(child.value(0).unwrap(), Some(1));
    assert_eq!(child.value(1).unwrap(), Some(2));
    assert_eq!(child.value(2).unwrap(), Some(3));
    assert!(!a.has_nulls());
    assert_eq!(a.offset(4).unwrap_err().code(), StatusCode::IndexOutOfBounds);
    assert_eq!(a.offset_capacity(), 4);
    // four offsets of four bytes, four values of eight
    assert_eq!(pool.bytes_allocated(), 16 + 32);
}

#[test]
fn list_offsets_never_fall_and_end_at_the_child() {
    let mut pool = MemoryPool::new();
    let mut a = Array::new(List(UInt8));
    for n in 0..40usize {
        if n % 5 == 3 {
            a.push_null(&mut pool).unwrap();
        } else {
            let items: Vec<u8> = (0..(n % 4) as u8).collect();
            a.append(&mut pool, &items).unwrap();
        }
        assert_eq!(a.len(), n + 1);
        assert_eq!(a.offset(0).unwrap(), 0);
        for i in 0..a.len() {
            assert!(a.offset(i).unwrap() <= a.offset(i + 1).unwrap());
        }
        assert_eq!(a.offset(a.len()).unwrap() as usize, a.values().len());
    }
    for i in 0..40usize {
        assert_eq!(a.is_null(i).unwrap(), i % 5 == 3);
        if i % 5 == 3 {
            assert_eq!(a.offset(i).unwrap(), a.offset(i + 1).unwrap());
        }
    }
}

#[test]
fn list_append_is_refused_whole() {
    let mut pool = MemoryPool::with_ceiling(16);
    let mut a = Array::new(List(Int32));
    // two offsets and two values: sixteen bytes
    a.append(&mut pool, &[1, 2]).unwrap();
    assert_eq!(pool.bytes_allocated(), 16);
    let err = a.append(&mut pool, &[3]).unwrap_err();
    assert_eq!(err.code(), StatusCode::OutOfMemory);
    assert_eq!(a.len(), 1);
    assert_eq!(a.values().len(), 2);
    assert_eq!(a.values().capacity(), 2);
    assert_eq!(a.offset_capacity(), 2);
    assert_eq!(pool.bytes_allocated(), 16);
    let err = a.push_null(&mut pool).unwrap_err();
    assert_eq!(err.code(), StatusCode::OutOfMemory);
    assert_eq!(a.len(), 1);
    assert!(!a.has_nulls());
}

#[test]
fn frozen_array_reads_the_same_every_time() {
    let mut pool = MemoryPool::new();
    let mut a = Array::new(Int16);
    a.push(&mut pool, -3).unwrap();
    a.push_null(&mut pool).unwrap();
    a.push(&mut pool, 9).unwrap();
    let frozen: FrozenArray<Int16> = a.freeze();
    for _ in 0..3 {
        assert_eq!(frozen.len(), 3);
        assert_eq!(frozen.dtype(), Int16);
        assert_eq!(frozen.value(0).unwrap(), Some(-3));
        assert_eq!(frozen.value(1).unwrap(), None);
        assert_eq!(frozen.value(2).unwrap(), Some(9));
        assert_eq!(frozen.is_null(1).unwrap(), true);
        assert_eq!(frozen.value(3).unwrap_err().code(), StatusCode::IndexOutOfBounds);
    }
    let readers: Vec<&FrozenArray<Int16>> = vec![&frozen, &frozen];
    assert_eq!(readers[0].value(2).unwrap(), readers[1].value(2).unwrap());
    assert_eq!(frozen.get().capacity(), 4);
}

#[test]
fn frozen_array_refuses_to_change() {
    let mut pool = MemoryPool::new();
    let mut a = Array::new(Int64);
    a.push(&mut pool, 1).unwrap();
    let before = pool.bytes_allocated();
    let frozen = a.freeze();
    let err = frozen.push(&mut pool, 2).unwrap_err();
    assert_eq!(err.code(), StatusCode::InvalidState);
    assert_eq!(err.to_string(), "Invalid state");
    assert_eq!(frozen.push_null(&mut pool).unwrap_err().code(), StatusCode::InvalidState);
    assert_eq!(frozen.len(), 1);
    assert_eq!(pool.bytes_allocated(), before);

    let mut lists = Array::new(List(Int64));
    lists.append(&mut pool, &[1]).unwrap();
    let frozen = lists.freeze();
    assert_eq!(frozen.append(&mut pool, &[2]).unwrap_err().code(), StatusCode::InvalidState);
    assert_eq!(frozen.push_null(&mut pool).unwrap_err().code(), StatusCode::InvalidState);
    assert_eq!(frozen.len(), 1);
    assert_eq!(frozen.get().values().len(), 1);
}

#[test]
fn release_hands_every_byte_back() {
    let mut pool = MemoryPool::new();
    let mut a = Array::new(List(Int64));
    a.append(&mut pool, &[1, 2, 3]).unwrap();
    a.push_null(&mut pool).unwrap();
    let mut b = Array::new(Float64);
    b.push(&mut pool, 1.5f64.to_bits()).unwrap();
    let peak = pool.bytes_allocated();
    assert!(peak > 0);
    b.release(&mut pool);
    a.freeze().release(&mut pool);
    assert_eq!(pool.bytes_allocated(), 0);
    assert_eq!(pool.max_memory(), peak);
}

#[test]
fn floats_are_held_as_their_bits() {
    let mut pool = MemoryPool::new();
    let mut a = Array::new(Float32);
    a.push(&mut pool, 2.5f32.to_bits()).unwrap();
    a.push(&mut pool, (-0.0f32).to_bits()).unwrap();
    assert_eq!(f32::from_bits(a.value(0).unwrap().unwrap()), 2.5f32);
    assert_eq!(a.value(1).unwrap().unwrap(), 0x8000_0000);
}

#[test]
fn names_and_widths_of_the_types() {
    assert_eq!(Boolean.name(), "bool");
    assert_eq!(Int8.name(), "int8");
    assert_eq!(Int16.name(), "int16");
    assert_eq!(Int32.name(), "int32");
    assert_eq!(Int64.name(), "int64");
    assert_eq!(UInt8.name(), "uint8");
    assert_eq!(UInt16.name(), "uint16");
    assert_eq!(UInt32.name(), "uint32");
    assert_eq!(UInt64.name(), "uint64");
    assert_eq!(Float32.name(), "float32");
    assert_eq!(Float64.name(), "float64");
    assert_eq!(List(Int8).name(), "list");
    assert_eq!(List(List(Float32)).name(), "list");

    assert_eq!(Boolean.bits().unwrap(), 8);
    assert_eq!(Int8.bits().unwrap(), 8);
    assert_eq!(Int16.bits().unwrap(), 16);
    assert_eq!(Int32.bits().unwrap(), 32);
    assert_eq!(Int64.bits().unwrap(), 64);
    assert_eq!(UInt8.bits().unwrap(), 8);
    assert_eq!(UInt16.bits().unwrap(), 16);
    assert_eq!(UInt32.bits().unwrap(), 32);
    assert_eq!(UInt64.bits().unwrap(), 64);
    assert_eq!(Float32.bits().unwrap(), 32);
    assert_eq!(Float64.bits().unwrap(), 64);
    let err = List(Int64).bits().unwrap_err();
    assert_eq!(err.code(), StatusCode::TypeError);
    assert_eq!(err.to_string(), "Type error");
}

#[test]
fn copy_of_a_frozen_array_can_be_appended_to() {
    let mut pool = MemoryPool::new();
    let mut a = Array::new(Int32);
    a.push(&mut pool, 5).unwrap();
    a.push_null(&mut pool).unwrap();
    a.push(&mut pool, 7).unwrap();
    let frozen = a.freeze();
    let before = pool.bytes_allocated();
    let mut copy = Array::copy_of(frozen.get(), &mut pool).unwrap();
    assert_eq!(copy.len(), 3);
    assert_eq!(copy.capacity(), 4);
    assert_eq!(copy.value(0).unwrap(), Some(5));
    assert_eq!(copy.value(1).unwrap(), None);
    assert_eq!(copy.value(2).unwrap(), Some(7));
    assert_eq!(copy.allocated(), Some(4 * 4 + 1));
    assert_eq!(pool.bytes_allocated(), before + 17);
    copy.push(&mut pool, 9).unwrap();
    assert_eq!(copy.len(), 4);
    assert_eq!(frozen.len(), 3);
    assert_eq!(frozen.value(1).unwrap(), None);

    let plain = Array::copy_of(&Array::new(Int32), &mut pool).unwrap();
    assert_eq!(plain.len(), 0);
    assert_eq!(plain.allocated(), Some(0));
    assert!(!plain.has_nulls());

    let mut tight = MemoryPool::with_ceiling(16);
    let err = Array::copy_of(frozen.get(), &mut tight).err().unwrap();
    assert_eq!(err.code(), StatusCode::OutOfMemory);
    assert_eq!(tight.bytes_allocated(), 0);
}

#[test]
fn allocated_counts_the_whole_tree() {
    let mut pool = MemoryPool::new();
    let mut a = Array::new(List(UInt16));
    assert_eq!(a.allocated(), Some(0));
    a.append(&mut pool, &[1, 2, 3]).unwrap();
    a.push_null(&mut pool).unwrap();
    // four offsets, four values, one byte of bitmap
    assert_eq!(a.allocated(), Some(4 * 4 + 4 * 2 + 1));
    assert_eq!(a.allocated(), Some(pool.bytes_allocated()));
}

#[test]
fn empty_payloads_hold_no_memory() {
    let values: PrimitiveData<Int64> = PrimitiveData::new();
    assert_eq!(values.allocated(), Some(0));
    let lists: ListData<Int8> = ListData::new(Int8);
    assert_eq!(lists.allocated(), Some(0));
    let mut pool = MemoryPool::with_ceiling(0);
    values.release(&mut pool);
    lists.release(&mut pool);
    let nested = List(List(UInt32)).empty();
    assert_eq!(nested.allocated(), Some(0));
    let a = Array::new(List(List(UInt32)));
    assert!(!a.has_nulls());
    assert!(!a.values().has_nulls());
    assert!(!a.values().values().has_nulls());
    assert_eq!(a.values().len(), 0);
    assert_eq!(a.values().values().len(), 0);
    assert_eq!(a.values().values().capacity(), 0);
    assert_eq!(a.offset(0).unwrap(), 0);
    assert!(a.offsets_slice().is_empty());
    assert!(a.values().offsets_slice().is_empty());
    assert_eq!(pool.bytes_allocated(), 0);
}

#[test]
fn fillers_and_precisions() {
    assert_eq!(Boolean.filler(), false);
    assert_eq!(Int8.filler(), 0);
    assert_eq!(UInt64.filler(), 0);
    assert_eq!(f32::from_bits(Float32.filler()), 0.0);
    assert_eq!(f64::from_bits(Float64.filler()), 0.0);
    assert_eq!(Float32.precision(), Precision::Single);
    assert_eq!(Float64.precision(), Precision::Double);
}

fn build<T: PrimitiveType>(dtype: T, items: &[T::Item]) -> (Array<T>, MemoryPool) {
    let mut pool = MemoryPool::new();
    let mut a = Array::new(dtype);
    for item in items {
        a.push(&mut pool, *item).unwrap();
    }
    a.push_null(&mut pool).unwrap();
    (a, pool)
}

#[test]
fn every_primitive_type_builds_the_same_way() {
    let (a, pool) = build(Boolean, &[true, false, true]);
    assert_eq!(a.as_slice(), &[true, false, true, false]);
    assert_eq!(a.value(1).unwrap(), Some(false));
    assert_eq!(a.value(3).unwrap(), None);
    assert_eq!(pool.bytes_allocated(), 4 + 1);
    let (a, pool) = build(Int8, &[-1, 2]);
    assert_eq!(a.as_slice(), &[-1, 2, 0]);
    assert_eq!(pool.bytes_allocated(), 4 + 1);
    let (a, pool) = build(UInt32, &[7]);
    assert_eq!(a.as_slice(), &[7, 0]);
    assert_eq!(a.nulls().as_bytes(), &[0b1111_1101u8]);
    assert_eq!(pool.bytes_allocated(), 2 * 4 + 1);
    let (a, pool) = build(Float64, &[1.0f64.to_bits(), 2.0f64.to_bits(), 3.0f64.to_bits()]);
    assert_eq!(a.len(), 4);
    assert_eq!(a.dtype().name(), "float64");
    assert_eq!(pool.bytes_allocated(), 4 * 8 + 1);
    let (a, _) = build(UInt64, &[]);
    assert_eq!(a.len(), 1);
    assert_eq!(a.value(0).unwrap(), None);
    let (a, _) = build(Int16, &[3; 9]);
    assert_eq!(a.capacity(), 16);
    assert_eq!(a.nulls().byte_capacity(), 2);
    let (a, _) = build(UInt8, &[1]);
    assert_eq!(a.as_slice(), &[1, 0]);
    let (a, _) = build(UInt16, &[1]);
    assert_eq!(a.as_slice(), &[1, 0]);
    let (a, _) = build(Int32, &[1]);
    assert_eq!(a.as_slice(), &[1, 0]);
    let (a, _) = build(Float32, &[1]);
    assert_eq!(a.as_slice(), &[1, 0]);
}

#[test]
fn lists_mark_their_nulls_in_the_bitmap() {
    let mut pool = MemoryPool::new();
    let mut a = Array::new(List(Int8));
    a.push_null(&mut pool).unwrap();
    a.append(&mut pool, &[4, 5]).unwrap();
    a.push_null(&mut pool).unwrap();
    assert_eq!(a.offsets_slice(), &[0, 0, 2, 2]);
    assert_eq!(a.nulls().as_bytes(), &[0b1111_1010u8]);
    assert_eq!(a.values().as_slice(), &[4, 5]);
    assert!(!a.values().has_nulls());
    assert_eq!(a.is_null(0).unwrap(), true);
    assert_eq!(a.is_null(1).unwrap(), false);
    assert_eq!(a.is_null(2).unwrap(), true);
}

#[test]
fn lists_of_lists_are_built_through_their_child() {
    let mut pool = MemoryPool::new();
    let outer = Array::new(List(List(Int64)));

    // [[1, 2], [3]]
    let (open, mut child) = outer.open();
    child.append(&mut pool, &[1, 2]).unwrap();
    child.append(&mut pool, &[3]).unwrap();
    let outer = open.seal(&mut pool, child).ok().unwrap();
    // []
    let (open, child) = outer.open();
    let outer = open.seal(&mut pool, child).ok().unwrap();
    // null
    let mut outer = outer;
    outer.push_null(&mut pool).unwrap();
    // [[4]]
    let (open, mut child) = outer.open();
    child.append(&mut pool, &[4]).unwrap();
    let outer = open.seal(&mut pool, child).ok().unwrap();

    assert_eq!(outer.len(), 4);
    assert_eq!(outer.offsets_slice(), &[0, 2, 2, 2, 3]);
    assert_eq!(outer.is_null(2).unwrap(), true);
    assert_eq!(outer.is_null(3).unwrap(), false);
    let inner = outer.values();
    assert_eq!(inner.len(), 3);
    assert_eq!(inner.offsets_slice(), &[0, 2, 3, 4]);
    assert_eq!(inner.values().as_slice(), &[1, 2, 3, 4]);
    assert_eq!(outer.allocated(), Some(pool.bytes_allocated()));
    // eight offsets and a byte of bitmap, four offsets, four values
    assert_eq!(pool.bytes_allocated(), 8 * 4 + 1 + 4 * 4 + 4 * 8);

    let frozen = outer.freeze();
    assert_eq!(frozen.get().values().values().value(3).unwrap(), Some(4));
    frozen.release(&mut pool);
    assert_eq!(pool.bytes_allocated(), 0);
}

#[test]
fn sealing_takes_only_a_child_that_the_offsets_fit() {
    let mut pool = MemoryPool::new();
    let mut a = Array::new(List(UInt8));
    a.append(&mut pool, &[1, 2, 3]).unwrap();
    let (open, child) = a.open();
    assert_eq!(child.len(), 3);

    // a child that ends before the last offset
    let mut short = Array::new(UInt8);
    short.push(&mut pool, 9).unwrap();
    let (err, open, short) = open.seal(&mut pool, short).err().unwrap();
    assert_eq!(err.code(), StatusCode::IndexOutOfBounds);
    assert_eq!(short.len(), 1);
    let (err, open, short) = open.close(short).err().unwrap();
    assert_eq!(err.code(), StatusCode::IndexOutOfBounds);
    short.release(&mut pool);

    // the child as it was: no new slot, or an empty one
    let a = open.close(child).ok().unwrap();
    assert_eq!(a.len(), 1);
    assert_eq!(a.offsets_slice(), &[0, 3]);
    let (open, mut child) = a.open();
    child.push(&mut pool, 4).unwrap();
    let (err, open, child) = open.close(child).err().unwrap();
    assert_eq!(err.code(), StatusCode::IndexOutOfBounds);
    let a = open.seal(&mut pool, child).ok().unwrap();
    assert_eq!(a.offsets_slice(), &[0, 3, 4]);
    assert_eq!(a.values().as_slice(), &[1, 2, 3, 4]);
    assert_eq!(a.allocated(), Some(pool.bytes_allocated()));
}

#[test]
fn refused_seal_gives_everything_back() {
    let mut pool = MemoryPool::with_ceiling(8 + 2);
    let mut a = Array::new(List(UInt8));
    // two offsets and two values
    a.append(&mut pool, &[7, 8]).unwrap();
    assert_eq!(pool.bytes_allocated(), 10);
    let (open, child) = a.open();
    let (err, open, child) = open.seal(&mut pool, child).err().unwrap();
    assert_eq!(err.code(), StatusCode::OutOfMemory);
    assert_eq!(pool.bytes_allocated(), 10);
    let a = open.close(child).ok().unwrap();
    assert_eq!(a.len(), 1);
    assert_eq!(a.offsets_slice(), &[0, 2]);
    let (open, child) = a.open();
    child.release(&mut pool);
    assert_eq!(pool.bytes_allocated(), 8);
    open.release(&mut pool);
    assert_eq!(pool.bytes_allocated(), 0);
}
