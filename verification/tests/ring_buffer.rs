use mlogv32::ring::RingBuffer;

fn push(ring: &mut RingBuffer, bytes: &[u8]) -> usize {
    let run = ring.push_slice();
    let n = bytes.len().min(run.len());
    run[..n].copy_from_slice(&bytes[..n]);
    ring.push_done(n);
    n
}

fn pop(ring: &mut RingBuffer, most: usize) -> Vec<u8> {
    let run = ring.pop_slice();
    let n = most.min(run.len());
    let out = run[..n].to_vec();
    ring.pop_done(n);
    out
}

#[test]
fn new_ring_is_empty() {
    let ring = RingBuffer::new(vec![0; 4]);
    assert_eq!(ring.capacity(), 4);
    assert_eq!(ring.available(), 0);
    assert!(ring.is_empty());
    assert!(!ring.is_full());
    assert!(ring.pop_slice().is_empty());
}

#[test]
fn free_run_of_a_new_ring_is_the_whole_storage() {
    let mut ring = RingBuffer::new(vec![0; 4]);
    assert_eq!(ring.push_slice().len(), 4);
}

#[test]
fn bytes_come_out_in_the_order_they_went_in() {
    let mut ring = RingBuffer::new(vec![0; 8]);
    assert_eq!(push(&mut ring, &[1, 2, 3]), 3);
    assert_eq!(ring.available(), 3);
    assert_eq!(ring.pop_slice(), &[1, 2, 3]);
    assert_eq!(pop(&mut ring, 2), vec![1, 2]);
    assert_eq!(ring.pop_slice(), &[3]);
    assert_eq!(ring.available(), 1);
}

#[test]
fn full_ring_has_no_free_run() {
    let mut ring = RingBuffer::new(vec![0; 3]);
    assert_eq!(push(&mut ring, &[7, 8, 9, 10]), 3);
    assert!(ring.is_full());
    assert!(!ring.is_empty());
    assert_eq!(ring.available(), 3);
    assert!(ring.push_slice().is_empty());
    assert_eq!(ring.pop_slice(), &[7, 8, 9]);
}

#[test]
fn runs_stop_where_the_storage_wraps() {
    let mut ring = RingBuffer::new(vec![0; 4]);
    assert_eq!(push(&mut ring, &[1, 2, 3]), 3);
    assert_eq!(pop(&mut ring, 2), vec![1, 2]);
    // One place is left before the end of the storage, two after the wrap.
    assert_eq!(ring.push_slice().len(), 1);
    assert_eq!(push(&mut ring, &[4, 5, 6]), 1);
    assert_eq!(ring.push_slice().len(), 2);
    assert_eq!(push(&mut ring, &[5, 6]), 2);
    assert!(ring.is_full());
    // Unread: 3 4 | 5 6, in two runs.
    assert_eq!(ring.available(), 4);
    assert_eq!(ring.pop_slice(), &[3, 4]);
    assert_eq!(pop(&mut ring, 9), vec![3, 4]);
    assert_eq!(ring.pop_slice(), &[5, 6]);
    assert_eq!(pop(&mut ring, 9), vec![5, 6]);
    assert!(ring.is_empty());
}

#[test]
fn many_turns_keep_order() {
    let mut ring = RingBuffer::new(vec![0; 5]);
    let mut next_in: u8 = 0;
    let mut next_out: u8 = 0;
    for round in 0..200usize {
        let want = round % 4 + 1;
        let mut bytes = Vec::new();
        for k in 0..want {
            bytes.push(next_in.wrapping_add(k as u8));
        }
        let taken = push(&mut ring, &bytes);
        next_in = next_in.wrapping_add(taken as u8);
        for byte in pop(&mut ring, round % 3 + 1) {
            assert_eq!(byte, next_out);
            next_out = next_out.wrapping_add(1);
        }
    }
    assert!(next_out > 0);
}

#[test]
fn ring_without_storage_takes_nothing() {
    let mut ring = RingBuffer::new(Vec::new());
    assert_eq!(ring.capacity(), 0);
    assert!(ring.is_empty());
    assert!(!ring.is_full());
    assert!(ring.push_slice().is_empty());
    ring.push_done(0);
    assert!(ring.pop_slice().is_empty());
    ring.pop_done(0);
    assert_eq!(ring.available(), 0);
}

#[test]
fn writing_the_free_run_leaves_unread_bytes_alone() {
    let mut ring = RingBuffer::new(vec![0; 4]);
    assert_eq!(push(&mut ring, &[1, 2]), 2);
    let run = ring.push_slice();
    run[0] = 0xaa;
    run[1] = 0xbb;
    assert_eq!(ring.available(), 2);
    assert_eq!(ring.pop_slice(), &[1, 2]);
    ring.push_done(1);
    assert_eq!(ring.pop_slice(), &[1, 2, 0xaa]);
}
