//! The buffer pool.

use iot_gateway::bus::buffer_pool::GlobalBufferPool;

#[test]
fn test_pool_basic() {
    let mut pool = GlobalBufferPool::new();
    let idx = pool.acquire().expect("pool empty");
    pool.release(idx);
}

#[test]
fn test_pool_recycle() {
    let mut pool = GlobalBufferPool::new();
    let i1 = pool.acquire().unwrap();
    pool.release(i1);
    let i2 = pool.acquire().unwrap();
    assert_eq!(i1, i2);
    pool.release(i2);
}

#[test]
fn test_pool_with_buffer() {
    let mut pool = GlobalBufferPool::new();
    let idx = pool.acquire().unwrap();
    pool.write(idx, |v| {
        let _ = v.extend_from_slice(b"hello world");
    });
    let buf = pool.read(idx);
    if let Some(data) = buf {
        assert_eq!(&data[..11], b"hello world");
    }
    pool.release(idx);
}
