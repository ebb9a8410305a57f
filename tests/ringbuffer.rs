use vvcore::SliceableRingBuffer;

#[test]
fn it_initializes_correctly() {
    let rb = SliceableRingBuffer::new(5, 0);
    assert_eq!(rb.get_slice(), &[0, 0, 0, 0, 0]);
}

#[test]
fn writing_and_reading() {
    let mut rb = SliceableRingBuffer::new(5, 0);
    for i in 1..=5 {
        rb.write(i);
    }
    assert_eq!(rb.get_slice(), &[1, 2, 3, 4, 5]);
}

#[test]
fn overwriting_elements() {
    let mut rb = SliceableRingBuffer::new(5, 0);
    for i in 1..=13 {
        rb.write(i);
    }
    // with capacity 5, the last 5 elements written remain
    assert_eq!(rb.get_slice(), &[9, 10, 11, 12, 13]);
}

#[test]
fn get_slice_with_len() {
    let mut rb = SliceableRingBuffer::new(5, 0);
    for i in 1..=13 {
        rb.write(i);
    }
    assert_eq!(rb.get_slice_with_len(3), &[11, 12, 13]);
}

#[test]
fn full_window_after_many_writes_is_last_writes() {
    let mut rb = SliceableRingBuffer::new(4, -1);
    let writes = [7, 3, 9, 1, 4, 4, 8, 2, 6, 5, 0];
    for w in writes.iter() {
        rb.write(*w);
    }
    assert_eq!(rb.get_slice(), &writes[writes.len() - 4..]);
}

#[test]
fn partial_fill_keeps_default_prefix() {
    let mut rb = SliceableRingBuffer::new(5, None);
    rb.write(Some(1));
    rb.write(Some(2));
    assert_eq!(rb.get_slice(), &[None, None, None, Some(1), Some(2)]);
    assert_eq!(rb.get_slice_with_len(0), &[] as &[Option<i32>]);
    assert_eq!(rb.capacity(), 5);
}

#[test]
fn capacity_one_keeps_last_write() {
    let mut rb = SliceableRingBuffer::new(1, 0u8);
    rb.write(3);
    rb.write(4);
    assert_eq!(rb.get_slice(), &[4]);
}
