use read_to_end::buffer::ByteBuffer;

#[test]
fn growth_starts_small_and_doubles() {
    let mut b = ByteBuffer::new();
    assert_eq!(b.capacity(), 0);
    b.grow();
    assert_eq!(b.capacity(), 32);
    b.grow();
    assert_eq!(b.capacity(), 64);
    b.grow();
    assert_eq!(b.capacity(), 128);
    assert_eq!(b.len(), 0);
}

#[test]
fn growth_from_small_occupied_buffer_adds_increment() {
    let mut b = ByteBuffer::from_vec(vec![0; 10]);
    assert_eq!(b.capacity(), 10);
    b.grow();
    // Below 32 bytes the step adds the 32-byte increment.
    assert_eq!(b.capacity(), 42);
    b.grow();
    assert_eq!(b.capacity(), 84);
    assert_eq!(b.len(), 10);
}

#[test]
fn spare_region_is_zero_filled_when_asked() {
    let mut b = ByteBuffer::from_vec(vec![9]);
    b.grow();
    let spare = b.take_spare(true);
    assert_eq!(spare.len(), 32);
    assert!(spare.iter().all(|&x| x == 0));
    assert_eq!(b.len(), 1);
    b.put_spare(spare, 0);
    assert_eq!(b.len(), 1);
    assert_eq!(b.capacity(), 33);
    assert_eq!(b.into_vec(), vec![9]);
}

#[test]
fn put_spare_commits_exactly_the_prefix() {
    let mut b = ByteBuffer::from_vec(vec![1]);
    b.grow();
    let mut spare = b.take_spare(true);
    spare[0] = 2;
    spare[1] = 3;
    spare[2] = 99;
    b.put_spare(spare, 2);
    assert_eq!(b.len(), 3);
    // The byte beyond the committed prefix stays invisible.
    assert_eq!(b.into_vec(), vec![1, 2, 3]);
}

#[test]
fn into_vec_discards_spare_storage() {
    let mut b = ByteBuffer::from_vec(vec![5, 6]);
    b.grow();
    assert!(b.capacity() > 2);
    let v = b.into_vec();
    assert_eq!(v, vec![5, 6]);
}
