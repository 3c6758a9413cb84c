use tropaion::error::runtime_error::RuntimeError;
use tropaion::interpreter::heap::{AllocInfo, Heap};
use tropaion::interpreter::value::Value::{IntValue, Null};

#[test]
fn test_offset() {
    let mut heap = Heap::new(20, 100);

    let ptr = heap.allocate(7).unwrap();

    assert_eq!(ptr, 20);

    assert_eq!(heap.allocated, vec![AllocInfo { ptr: 0, len: 7 }]);
}

#[test]
fn test_alloc() {
    let mut heap = Heap::new(0, 100);

    let value1 = IntValue(5);
    let value2 = IntValue(10);

    let ptr = heap.allocate(5).unwrap();

    heap.store(ptr, 1, value1);

    let ptr2 = heap.allocate(1).unwrap();
    heap.store(ptr2, 0, value2);

    assert!(heap.mem.len() > 5);

    assert_eq!(heap.allocated, vec![AllocInfo { ptr: 0, len: 5 }, AllocInfo { ptr: 5, len: 1 }]);

    assert_eq!(heap.mem[1], value1);
    assert_eq!(heap.mem[5], value2);

    assert_eq!(heap.load(ptr, 1), value1);
    assert_eq!(heap.load(ptr2, 0), value2);
}

#[test]
fn test_free() {
    let mut heap = Heap::new(0, 100);

    heap.allocate(10).unwrap();

    let mid = heap.allocate(7).unwrap();

    heap.allocate(10).unwrap();

    heap.free(mid);

    let ptr = heap.allocate(4).unwrap();

    assert_eq!(ptr, 10);

    assert_eq!(heap.allocated, vec![AllocInfo { ptr: 0, len: 10 }, AllocInfo { ptr: 10, len: 4 }, AllocInfo { ptr: 17, len: 10 }]);
}

#[test]
fn test_free2() {
    let mut heap = Heap::new(0, 100);

    heap.allocate(10).unwrap();

    let mid = heap.allocate(7).unwrap();

    heap.allocate(10).unwrap();

    heap.free(mid);

    let ptr = heap.allocate(7).unwrap();

    assert_eq!(ptr, 10);

    assert_eq!(heap.allocated, vec![AllocInfo { ptr: 0, len: 10 }, AllocInfo { ptr: 10, len: 7 }, AllocInfo { ptr: 17, len: 10 }]);
}

#[test]
fn test_free3() {
    let mut heap = Heap::new(0, 100);

    heap.allocate(10).unwrap();

    let mid = heap.allocate(7).unwrap();

    heap.allocate(10).unwrap();

    heap.free(mid);

    let ptr = heap.allocate(8).unwrap();

    assert_eq!(ptr, 27);

    assert_eq!(heap.allocated, vec![AllocInfo { ptr: 0, len: 10 }, AllocInfo { ptr: 17, len: 10 }, AllocInfo { ptr: 27, len: 8 }]);
}

#[test]
fn heap_out_of_memory_keeps_block_at_end() {
    let mut heap = Heap::new(0, 10);
    heap.allocate(6).unwrap();
    assert_eq!(heap.allocate(4), Err(RuntimeError::OutOfMemory));
    assert_eq!(heap.allocated, vec![AllocInfo { ptr: 0, len: 6 }, AllocInfo { ptr: 6, len: 4 }]);
    assert_eq!(heap.free_space, 0);
}

#[test]
fn heap_load_after_store() {
    let mut heap = Heap::new(3, 100);
    let p = heap.allocate(4).unwrap();
    assert_eq!(p, 3);
    heap.store(p, 2, IntValue(9));
    assert_eq!(heap.load(p, 2), IntValue(9));
    assert_eq!(heap.load(p, 1), Null);
    assert_eq!(heap.load(p, 50), Null);
    assert_eq!(heap.mem, vec![Null, Null, IntValue(9)]);
    heap.store(p, 2, IntValue(4));
    assert_eq!(heap.load(p, 2), IntValue(4));
}

#[test]
fn heap_free_restores_space_order() {
    let mut heap = Heap::new(0, 100);
    let a = heap.allocate(2).unwrap();
    let b = heap.allocate(3).unwrap();
    heap.free(a);
    assert_eq!(heap.allocated, vec![AllocInfo { ptr: 2, len: 3 }]);
    let c = heap.allocate(2).unwrap();
    assert_eq!(c, 5);
    assert_eq!(heap.allocated, vec![AllocInfo { ptr: 2, len: 3 }, AllocInfo { ptr: 5, len: 2 }]);
    assert_eq!(b, 2);
}

#[test]
fn gc_keeps_blocks_that_are_reached() {
    let mut heap = Heap::new(0, 100);
    let p = heap.allocate(3).unwrap();
    assert_eq!(p, 0);
    heap.store(p, 0, tropaion::interpreter::value::Value::RefValue { ptr: 0, len: 1 });
    heap.gc(&[Null]);
    assert_eq!(heap.allocated, vec![AllocInfo { ptr: 0, len: 3 }]);
    assert_eq!(heap.free_space, 97);
}

#[test]
fn gc_releases_blocks_that_are_not_reached() {
    let mut heap = Heap::new(5, 100);
    heap.allocate(3).unwrap();
    heap.allocate(4).unwrap();
    assert_eq!(heap.free_space, 93);
    heap.gc(&[Null, Null, Null, Null, Null]);
    assert_eq!(heap.allocated, vec![]);
    assert_eq!(heap.free_space, 100);
}

#[test]
fn gc_alloc_collects_when_full() {
    let mut heap = Heap::new(0, 20);
    heap.allocate(6).unwrap();
    let p = heap.gc_alloc(3, &[Null]).unwrap();
    assert_eq!(p, 6);
    assert_eq!(heap.allocated, vec![AllocInfo { ptr: 0, len: 6 }, AllocInfo { ptr: 6, len: 3 }]);
    assert_eq!(heap.free_space, 11);
    let p = heap.gc_alloc(11, &[Null]).unwrap();
    assert_eq!(p, 0);
    assert_eq!(heap.allocated, vec![AllocInfo { ptr: 0, len: 11 }]);
    assert_eq!(heap.free_space, 9);
}
