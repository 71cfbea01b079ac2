use gpu_governor::circular_buffer::CircularBuffer;

#[test]
fn forward_it_non_full() {
    let mut buffer = CircularBuffer::<u32>::new(5);

    buffer.add(1);
    buffer.add(2);
    buffer.add(3);

    let mut it = buffer.iter();

    assert_eq!(it.next(), Some(&1));
    assert_eq!(it.next(), Some(&2));
    assert_eq!(it.next(), Some(&3));
}

#[test]
fn forward_it_overflown() {
    let mut buffer = CircularBuffer::<u32>::new(5);

    buffer.add(1);
    buffer.add(2);

    buffer.add(3);
    buffer.add(4);
    buffer.add(5);
    buffer.add(6);
    buffer.add(7);

    let mut it = buffer.iter();

    assert_eq!(it.next(), Some(&3));
    assert_eq!(it.next(), Some(&4));
    assert_eq!(it.next(), Some(&5));
    assert_eq!(it.next(), Some(&6));
    assert_eq!(it.next(), Some(&7));
}

#[test]
fn reverse_it_overflown() {
    let mut buffer = CircularBuffer::<u32>::new(5);

    buffer.add(1);
    buffer.add(2);

    buffer.add(3);
    buffer.add(4);
    buffer.add(5);
    buffer.add(6);
    buffer.add(7);

    let mut it = buffer.iter();

    assert_eq!(it.next_back(), Some(&7));
    assert_eq!(it.next_back(), Some(&6));
    assert_eq!(it.next_back(), Some(&5));
    assert_eq!(it.next_back(), Some(&4));
    assert_eq!(it.next_back(), Some(&3));
}

#[test]
fn forward_traversal_ends_after_last_sample() {
    let mut buffer = CircularBuffer::<u32>::new(3);
    buffer.add(10);
    buffer.add(20);
    let mut it = buffer.iter();
    assert_eq!(it.len(), 2);
    assert_eq!(it.next(), Some(&10));
    assert_eq!(it.next(), Some(&20));
    assert_eq!(it.next(), None);
    assert_eq!(it.next_back(), None);
}

#[test]
fn window_keeps_last_capacity_samples() {
    let mut buffer = CircularBuffer::<u32>::new(3);
    for v in 1..=8u32 {
        buffer.add(v);
    }
    assert_eq!(buffer.len(), 3);
    let mut it = buffer.iter();
    assert_eq!(it.next(), Some(&6));
    assert_eq!(it.next(), Some(&7));
    assert_eq!(it.next(), Some(&8));
    assert_eq!(it.next(), None);
}

#[test]
fn reverse_traversal_of_partial_buffer() {
    let mut buffer = CircularBuffer::<u32>::new(4);
    buffer.add(1);
    buffer.add(2);
    buffer.add(3);
    let mut it = buffer.iter();
    assert_eq!(it.next_back(), Some(&3));
    assert_eq!(it.next_back(), Some(&2));
    assert_eq!(it.next_back(), Some(&1));
    assert_eq!(it.next_back(), None);
}

#[test]
fn traversals_are_independent() {
    let mut buffer = CircularBuffer::<u32>::new(2);
    buffer.add(1);
    buffer.add(2);
    let mut a = buffer.iter();
    let mut b = buffer.iter();
    assert_eq!(a.next(), Some(&1));
    assert_eq!(b.next_back(), Some(&2));
    assert_eq!(a.next(), Some(&2));
    assert_eq!(b.next_back(), Some(&1));
}

#[test]
fn mixed_ends_meet_in_the_middle() {
    let mut buffer = CircularBuffer::<u32>::new(3);
    for v in 1..=5u32 {
        buffer.add(v);
    }
    let mut it = buffer.iter();
    assert_eq!(it.next(), Some(&3));
    assert_eq!(it.next_back(), Some(&5));
    assert_eq!(it.next(), Some(&4));
    assert_eq!(it.next_back(), None);
}

#[test]
fn last_is_newest_sample() {
    let mut buffer = CircularBuffer::<u32>::new(3);
    buffer.add(4);
    assert_eq!(*buffer.last(), 4);
    buffer.add(5);
    buffer.add(6);
    buffer.add(7);
    assert_eq!(*buffer.last(), 7);
}
