use velocitas_fix::pool::{BufferPool};

#[test]
fn test_allocate_and_deallocate() {
    let mut pool = BufferPool::new(256, 16);

    let h1 = pool.allocate().expect("should allocate");
    let h2 = pool.allocate().expect("should allocate");
    assert_ne!(h1, h2);

    // Write to buffer
    let buf = pool.get_mut(h1);
    buf[0] = 42;
    assert_eq!(pool.get(h1)[0], 42);

    // Deallocate and reallocate
    pool.deallocate(h1);
    let h3 = pool.allocate().expect("should allocate recycled slot");
    assert_eq!(h3, h1); // LIFO: should get the same slot back
}

#[test]
fn pool_test_pool_exhaustion() {
    let mut pool = BufferPool::new(64, 2);

    let _h1 = pool.allocate().expect("first alloc");
    let _h2 = pool.allocate().expect("second alloc");
    assert!(pool.allocate().is_none(), "pool should be exhausted");
}

#[test]
fn test_allocate_all_and_return_all() {
    let mut pool = BufferPool::new(64, 100);
    let mut handles = Vec::new();

    for _ in 0..100 {
        handles.push(pool.allocate().expect("should allocate"));
    }
    assert!(pool.allocate().is_none());

    for h in handles {
        pool.deallocate(h);
    }

    // Should be able to allocate all again
    for _ in 0..100 {
        pool.allocate().expect("should allocate after dealloc");
    }
}
