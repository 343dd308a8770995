use arrow::bitmap::BitMap;
use arrow::buffer::Buffer;
use arrow::errors::{ArrowError, StatusCode};
use arrow::mempool::MemoryPool;

#[test]
fn it_works() {
    assert_eq!(2 + 2, 4);
}

#[test]
fn test_mempool_allocate() {
    let mut pool = MemoryPool::default();
    let page = pool.allocate(100).unwrap();

    println!("{:?}", page.bytes());
    assert_eq!(100, pool.bytes_allocated());
    assert_eq!(100, pool.max_memory());

    pool.free(page);
    assert_eq!(0, pool.bytes_allocated());
    assert_eq!(100, pool.max_memory());
}

#[test]
fn pool_refuses_what_goes_over_its_ceiling() {
    let mut pool = MemoryPool::with_ceiling(64);
    assert_eq!(pool.ceiling(), Some(64));
    assert!(pool.admits(64));
    assert!(!pool.admits(65));
    let mut a = pool.allocate(40).unwrap();
    let err = pool.allocate(25).err().unwrap();
    assert_eq!(err.code(), StatusCode::OutOfMemory);
    assert_eq!(pool.bytes_allocated(), 40);
    let b = pool.allocate(24).unwrap();
    assert_eq!(pool.bytes_allocated(), 64);
    assert_eq!(pool.reallocate(&mut a, 41).unwrap_err().code(), StatusCode::OutOfMemory);
    assert_eq!(a.bytes(), 40);
    assert_eq!(pool.bytes_allocated(), 64);
    pool.reallocate(&mut a, 10).unwrap();
    assert_eq!(a.bytes(), 10);
    assert_eq!(pool.bytes_allocated(), 34);
    pool.reallocate(&mut a, 40).unwrap();
    assert_eq!(pool.bytes_allocated(), 64);
    pool.free(b);
    pool.free(a);
    assert_eq!(pool.bytes_allocated(), 0);
    assert_eq!(pool.max_memory(), 64);
}

#[test]
fn pool_without_ceiling_stops_at_the_machine() {
    let mut pool = MemoryPool::new();
    assert_eq!(pool.ceiling(), None);
    let a = pool.allocate(usize::MAX).unwrap();
    assert_eq!(pool.allocate(1).err().unwrap().code(), StatusCode::OutOfMemory);
    assert_eq!(pool.bytes_allocated(), usize::MAX);
    pool.free(a);
    let empty = pool.allocate(0).unwrap();
    assert_eq!(empty.bytes(), 0);
}

#[test]
fn buffer_doubles_and_counts_its_bytes() {
    let mut pool = MemoryPool::new();
    let mut b: Buffer<u32> = Buffer::new();
    assert_eq!((b.len(), b.capacity(), b.bytes()), (0, 0, 0));
    assert_eq!(pool.bytes_allocated(), 0);
    let expected = [1usize, 2, 4, 4, 8, 8, 8, 8, 16];
    for (i, cap) in expected.iter().enumerate() {
        assert_eq!(b.growth(i + 1), Some((cap - b.capacity()) * 4));
        b.push(&mut pool, i as u32 * 3).unwrap();
        assert_eq!(b.len(), i + 1);
        assert_eq!(b.capacity(), *cap);
        assert_eq!(b.bytes(), cap * 4);
        assert_eq!(pool.bytes_allocated(), cap * 4);
    }
    for i in 0..9usize {
        assert_eq!(b.get(i), Some(&(i as u32 * 3)));
    }
    assert_eq!(b.as_slice(), &[0, 3, 6, 9, 12, 15, 18, 21, 24]);
    assert_eq!(b.get(9), None);
    b.set(4, 77).unwrap();
    assert_eq!(b.get(4), Some(&77));
    assert_eq!(b.get(3), Some(&9));
    assert_eq!(b.set(9, 1).unwrap_err().code(), StatusCode::IndexOutOfBounds);
    b.release(&mut pool);
    assert_eq!(pool.bytes_allocated(), 0);
}

#[test]
fn buffer_reserve_doubles_until_it_fits() {
    let mut pool = MemoryPool::new();
    let mut b: Buffer<u8> = Buffer::new();
    b.reserve(&mut pool, 5).unwrap();
    assert_eq!(b.capacity(), 8);
    assert_eq!(b.len(), 0);
    b.reserve(&mut pool, 3).unwrap();
    assert_eq!(b.capacity(), 8);
    b.reserve(&mut pool, 9).unwrap();
    assert_eq!(b.capacity(), 16);
    b.reserve(&mut pool, 0).unwrap();
    assert_eq!(b.capacity(), 16);
    assert_eq!(pool.bytes_allocated(), 16);
    assert_eq!(b.growth(usize::MAX), None);
    assert_eq!(b.reserve(&mut pool, usize::MAX).unwrap_err().code(), StatusCode::OutOfMemory);
    assert_eq!(b.capacity(), 16);
}

#[test]
fn refused_buffer_stays_as_it_was() {
    let mut pool = MemoryPool::with_ceiling(10);
    let mut b: Buffer<u16> = Buffer::new();
    for i in 0..4 {
        b.push(&mut pool, i).unwrap();
    }
    assert_eq!(pool.bytes_allocated(), 8);
    let err = b.push(&mut pool, 4).unwrap_err();
    assert_eq!(err.code(), StatusCode::OutOfMemory);
    assert_eq!((b.len(), b.capacity(), b.bytes()), (4, 4, 8));
    assert_eq!(pool.bytes_allocated(), 8);
    assert_eq!(pool.max_memory(), 8);
    assert_eq!(b.get(3), Some(&3));
}

#[test]
fn bitmap_bits_default_to_set() {
    let mut pool = MemoryPool::new();
    let mut m = BitMap::new();
    assert_eq!(m.len(), 0);
    assert_eq!(m.byte_capacity(), 0);
    assert!(m.get(0));
    assert!(m.get(1000));
    assert_eq!(m.set(0).unwrap_err().code(), StatusCode::IndexOutOfBounds);
    assert_eq!(m.clear(0).unwrap_err().code(), StatusCode::IndexOutOfBounds);
    m.ensure_capacity(&mut pool, 10).unwrap();
    assert_eq!(m.len(), 10);
    assert_eq!(m.byte_capacity(), 2);
    assert_eq!(pool.bytes_allocated(), 2);
    for i in 0..20 {
        assert!(m.get(i));
    }
    m.clear(3).unwrap();
    m.clear(9).unwrap();
    m.clear(9).unwrap();
    for i in 0..20 {
        assert_eq!(m.get(i), i != 3 && i != 9);
    }
    assert_eq!(m.clear(10).unwrap_err().code(), StatusCode::IndexOutOfBounds);
    m.ensure_capacity(&mut pool, 4).unwrap();
    assert_eq!(m.len(), 10);
    m.ensure_capacity(&mut pool, 17).unwrap();
    assert_eq!(m.len(), 17);
    assert_eq!(m.byte_capacity(), 4);
    for i in 0..30 {
        assert_eq!(m.get(i), i != 3 && i != 9);
    }
    // slots 3 and 9 are cleared; what lies past slot 16 is set
    assert_eq!(m.as_bytes(), &[0b1111_0111u8, 0b1111_1101, 0xff]);
    m.set(3).unwrap();
    m.set(3).unwrap();
    assert!(m.get(3));
    assert!(!m.get(9));
    m.clear(16).unwrap();
    assert!(!m.get(16));
    assert!(m.get(15));
    m.release(&mut pool);
    assert_eq!(pool.bytes_allocated(), 0);
}

#[test]
fn bitmap_growth_is_refused_whole() {
    let mut pool = MemoryPool::with_ceiling(1);
    let mut m = BitMap::new();
    assert_eq!(m.growth(8), Some(1));
    assert_eq!(m.growth(9), Some(2));
    m.ensure_capacity(&mut pool, 8).unwrap();
    m.clear(7).unwrap();
    let err = m.ensure_capacity(&mut pool, 9).unwrap_err();
    assert_eq!(err.code(), StatusCode::OutOfMemory);
    assert_eq!(m.len(), 8);
    assert_eq!(m.byte_capacity(), 1);
    assert!(!m.get(7));
    assert_eq!(pool.bytes_allocated(), 1);
}

#[test]
fn status_codes_and_their_texts() {
    let all = [
        (StatusCode::OK, 0u8, "OK"),
        (StatusCode::OutOfMemory, 1, "Out of memory"),
        (StatusCode::KeyError, 2, "Key error"),
        (StatusCode::TypeError, 3, "Type error"),
        (StatusCode::Invalid, 4, "Invalid"),
        (StatusCode::IOError, 5, "IOError"),
        (StatusCode::InvalidState, 6, "Invalid state"),
        (StatusCode::IndexOutOfBounds, 7, "Index out of bounds"),
        (StatusCode::UnknownError, 9, "Unknown error"),
        (StatusCode::NotImplemented, 10, "NotImplemented"),
        (StatusCode::SerializationError, 11, "Unknown"),
        (StatusCode::PythonError, 12, "Unknown"),
        (StatusCode::PlasmaObjectExists, 20, "Unknown"),
        (StatusCode::PlasmaObjectNonexistent, 21, "Unknown"),
        (StatusCode::PlasmaStoreFull, 22, "Unknown"),
    ];
    for (code, value, text) in all {
        assert_eq!(code.value(), value);
        let e = ArrowError::new(code, "while testing");
        assert_eq!(e.code(), code);
        assert_eq!(e.message(), "while testing");
        assert_eq!(e.description(), text);
        assert_eq!(e.to_string(), text);
        let plain = ArrowError::of(code);
        assert_eq!(plain.message(), text);
        assert_eq!(plain.code(), code);
    }
}
