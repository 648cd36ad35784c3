use hybrid_screen_capture::capture_core::ring_buffer::RingBuffer;

#[test]
fn test_ring_buffer_basic() {
    let mut rb = RingBuffer::new(1024, 4).unwrap();
    let test_data = vec![42u8; 1024];
    let mut read_data = vec![0u8; 1024];
    assert!(rb.write_frame(&test_data).is_ok());
    assert_eq!(rb.read_frame(&mut read_data).unwrap(), 1024);
    assert_eq!(read_data, test_data);
    let (available, total) = rb.status();
    assert_eq!(available, 0);
    assert_eq!(total, 4);
}

#[test]
fn ring_buffer_is_first_in_first_out() {
    let mut rb = RingBuffer::new(4, 3).unwrap();
    assert!(rb.write_frame(&[1, 1, 1, 1]).is_ok());
    assert!(rb.write_frame(&[2, 2, 2, 2]).is_ok());
    assert_eq!(rb.status(), (2, 3));
    let mut out = [0u8; 4];
    assert_eq!(rb.read_frame(&mut out).unwrap(), 4);
    assert_eq!(out, [1, 1, 1, 1]);
    assert!(rb.write_frame(&[3, 3, 3, 3]).is_ok());
    assert_eq!(rb.read_frame(&mut out).unwrap(), 4);
    assert_eq!(out, [2, 2, 2, 2]);
    assert_eq!(rb.read_frame(&mut out).unwrap(), 4);
    assert_eq!(out, [3, 3, 3, 3]);
    assert_eq!(rb.status(), (0, 3));
}

#[test]
fn ring_buffer_reports_its_errors() {
    let mut rb = RingBuffer::new(2, 2).unwrap();
    let mut out = [0u8; 2];
    assert_eq!(rb.read_frame(&mut out), Err("Buffer empty"));
    assert_eq!(rb.write_frame(&[9]), Err("Frame size mismatch"));
    assert!(rb.write_frame(&[5, 6]).is_ok());
    assert!(rb.write_frame(&[7, 8]).is_ok());
    assert_eq!(rb.write_frame(&[1, 1]), Err("Buffer full"));
    let mut short = [0u8; 1];
    assert_eq!(rb.read_frame(&mut short), Err("Output buffer size mismatch"));
    assert_eq!(rb.read_frame(&mut out), Ok(2));
    assert_eq!(out, [5, 6]);
}

#[test]
fn ring_built_over_a_granted_map() {
    let map = memmap2::MmapMut::map_anon(12).unwrap();
    let mut ring = RingBuffer::from_map(map, 4, 3);
    let mut out = [0u8; 4];
    assert!(ring.read_frame(&mut out).is_err());
    assert!(ring.write_frame(&[1, 2, 3, 4]).is_ok());
    assert!(ring.write_frame(&[5, 6, 7, 8]).is_ok());
    assert!(ring.write_frame(&[9, 9, 9, 9]).is_ok());
    assert_eq!(ring.write_frame(&[0, 0, 0, 0]), Err("Buffer full"));
    assert_eq!(ring.read_frame(&mut out), Ok(4));
    assert_eq!(out, [1, 2, 3, 4]);
    assert!(ring.write_frame(&[3, 3, 3, 3]).is_ok());
    assert_eq!(ring.status(), (3, 3));
}

#[test]
fn ring_larger_than_isize_max_is_refused() {
    assert!(RingBuffer::new(usize::MAX / 2 + 1, 1).is_err());
}

#[test]
fn ring_holds_as_many_frames_as_its_capacity() {
    let mut rb = RingBuffer::new(1024, 4).unwrap();
    for _ in 0..4 {
        assert_eq!(rb.write_frame(&[0u8; 1024]), Ok(()));
    }
    assert_eq!(rb.status(), (4, 4));
    assert_eq!(rb.write_frame(&[0u8; 1024]), Err("Buffer full"));
}
