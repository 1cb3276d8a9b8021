use heap_array::RingBuffer;

#[test]
fn fresh_buffer_reads_nothing_until_written() {
    let mut b = RingBuffer::from_slice(&[1, 2, 3]);
    assert_eq!(b.read(), None);
    b.write(4);
    assert_eq!(b.read(), Some(&4));
    assert_eq!(b.read(), None);
}

#[test]
fn writes_come_out_first_in_first_out() {
    let mut b = RingBuffer::from_slice(&[0u32; 5]);
    b.write(1);
    b.write(2);
    b.write(3);
    assert_eq!(b.read(), Some(&1));
    b.write(4);
    assert_eq!(b.read(), Some(&2));
    assert_eq!(b.read(), Some(&3));
    assert_eq!(b.read(), Some(&4));
    assert_eq!(b.read(), None);
}

#[test]
fn write_past_full_drops_the_oldest() {
    let mut b = RingBuffer::from_slice(&[0i32; 4]);
    b.write(10);
    b.write(20);
    b.write(30);
    b.write(40);
    let drained: Vec<i32> = b.read_all().into_iter().copied().collect();
    assert_eq!(drained, vec![20, 30, 40]);
    assert!(!drained.contains(&10));
    assert_eq!(b.read(), None);
}

#[test]
fn full_buffer_keeps_the_newest_across_wraparound() {
    let mut b = RingBuffer::from_slice(&[0u8; 3]);
    for v in 1..=7u8 {
        b.write(v);
    }
    assert_eq!(b.to_vec(), vec![6, 7]);
    b.write(8);
    assert_eq!(b.read(), Some(&8));
}

#[test]
fn read_all_on_empty_buffer_is_empty() {
    let mut b = RingBuffer::from_slice(&["a", "b"]);
    assert!(b.read_all().is_empty());
    assert_eq!(b.read(), None);
}

#[test]
fn read_all_returns_pending_in_write_order_and_empties() {
    let mut b = RingBuffer::from_slice(&[0u64; 6]);
    b.write(5);
    b.write(6);
    b.write(7);
    let got: Vec<u64> = b.read_all().into_iter().copied().collect();
    assert_eq!(got, vec![5, 6, 7]);
    assert!(b.read_all().is_empty());
    assert_eq!(b.read(), None);
}

#[test]
fn write_all_writes_in_order() {
    let mut b = RingBuffer::from_slice(&[String::new(), String::new(), String::new()]);
    b.write_all(vec![String::from("x"), String::from("y")]);
    assert_eq!(b.to_vec(), vec!["x", "y"]);
    b.write_all(vec![String::from("1"), String::from("2"), String::from("3")]);
    assert_eq!(b.to_vec(), vec!["2", "3"]);
    assert!(b.to_vec().is_empty());
}

#[test]
fn single_slot_buffer_never_holds_a_value() {
    let mut b = RingBuffer::from_slice(&[9u32]);
    b.write(1);
    assert_eq!(b.read(), None);
    b.write_all(vec![2, 3]);
    assert!(b.read_all().is_empty());
}

#[test]
fn two_slot_buffer_holds_one_value() {
    let mut b = RingBuffer::from_slice(&[0u32, 0]);
    b.write(1);
    b.write(2);
    assert_eq!(b.read(), Some(&2));
    assert_eq!(b.read(), None);
}
