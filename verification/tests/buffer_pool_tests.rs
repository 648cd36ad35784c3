use hybrid_screen_capture::capture_core::buffer_pool::BufferPool;

#[test]
fn test_buffer_pool_basic() {
    let mut pool = BufferPool::new(1024, 3);
    let buf1 = pool.get_buffer();
    assert_eq!(buf1.len(), 1024);
    pool.return_buffer(buf1);
    let buf2 = pool.get_buffer();
    assert_eq!(buf2.len(), 1024);
    let (available, max) = pool.stats();
    assert_eq!(available, 0);
    assert_eq!(max, 3);
}

#[test]
fn test_buffer_pool_overflow() {
    let mut pool = BufferPool::new(512, 2);
    let buf1 = pool.get_buffer();
    let buf2 = pool.get_buffer();
    let buf3 = pool.get_buffer();
    pool.return_buffer(buf1);
    pool.return_buffer(buf2);
    pool.return_buffer(buf3);
    let (available, _) = pool.stats();
    assert_eq!(available, 2);
}

#[test]
fn returned_buffers_come_back_zeroed() {
    let mut pool = BufferPool::new(16, 2);
    let mut buf = pool.get_buffer();
    for b in buf.iter_mut() {
        *b = 255;
    }
    pool.return_buffer(buf);
    let again = pool.get_buffer();
    assert_eq!(again.len(), 16);
    assert!(again.iter().all(|&b| b == 0));
}

#[test]
fn resize_empties_the_pool_and_sets_the_size() {
    let mut pool = BufferPool::new(8, 4);
    let a = pool.get_buffer();
    let b = pool.get_buffer();
    pool.return_buffer(a);
    pool.return_buffer(b);
    assert_eq!(pool.stats(), (2, 4));
    pool.resize(16);
    assert_eq!(pool.stats(), (0, 4));
    assert_eq!(pool.get_buffer().len(), 16);
}
