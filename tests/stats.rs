use gpu_governor::circular_buffer::CircularBuffer;
use gpu_governor::stats::{average, index_weighted_average, Fraction};

fn value(f: Fraction) -> f64 {
    f.numerator as f64 / f.denominator as f64
}

#[test]
fn index_weighted_average_full() {
    let mut buffer = CircularBuffer::<u32>::new(5);

    buffer.add(1);
    buffer.add(2);
    buffer.add(3);
    buffer.add(4);
    buffer.add(5);

    let expected: f64 = f64::from(5 * 5 + 4 * 4 + 3 * 3 + 2 * 2 + 1 * 1) / f64::from(5 + 4 + 3 + 2 + 1);
    assert_eq!(value(index_weighted_average(buffer.iter())), expected);
}

#[test]
fn average_the_same() {
    let mut buffer = CircularBuffer::<u32>::new(5);

    buffer.add(1);
    buffer.add(1);
    buffer.add(1);
    buffer.add(1);
    buffer.add(1);

    assert_eq!(value(index_weighted_average(buffer.iter())), 1f64);
}

#[test]
fn average_non_full() {
    let mut buffer = CircularBuffer::<u32>::new(5);

    buffer.add(1);
    buffer.add(2);
    buffer.add(3);

    assert_eq!(value(average(&buffer)), 2f64);
}

#[test]
fn average_full() {
    let mut buffer = CircularBuffer::<u32>::new(5);

    buffer.add(1);
    buffer.add(2);
    buffer.add(3);
    buffer.add(4);
    buffer.add(5);

    assert_eq!(value(average(&buffer)), 3f64);
}

#[test]
fn average_overflown() {
    let mut buffer = CircularBuffer::<u32>::new(5);

    // These will be forgotten
    buffer.add(1);
    buffer.add(2);
    buffer.add(3);

    // These are the last
    buffer.add(4);
    buffer.add(5);
    buffer.add(6);
    buffer.add(7);
    buffer.add(8);

    assert_eq!(value(average(&buffer)), 6f64);
}

#[test]
fn weighted_average_is_exact_fraction() {
    let mut buffer = CircularBuffer::<u32>::new(5);
    for v in 1..=5u32 {
        buffer.add(v);
    }
    let f = index_weighted_average(buffer.iter());
    assert_eq!(f, Fraction { numerator: 55, denominator: 15 });
}

#[test]
fn weighted_average_of_partial_buffer_counts_held_samples() {
    let mut buffer = CircularBuffer::<u32>::new(10);
    buffer.add(10);
    buffer.add(40);
    let f = index_weighted_average(buffer.iter());
    assert_eq!(f, Fraction { numerator: 10 + 2 * 40, denominator: 3 });
    assert_eq!(f.floor(), 30);
}

#[test]
fn plain_average_counts_held_samples() {
    let mut buffer = CircularBuffer::<u32>::new(10);
    buffer.add(3);
    buffer.add(4);
    assert_eq!(average(&buffer), Fraction { numerator: 7, denominator: 2 });
}

#[test]
fn fraction_comparisons() {
    let f = Fraction { numerator: 7, denominator: 2 };
    assert!(f.greater_than(3, 1));
    assert!(!f.greater_than(7, 2));
    assert!(f.at_least(7, 2));
    assert!(!f.at_least(4, 1));
    assert_eq!(f.floor(), 3);
}
