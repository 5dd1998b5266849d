use defmt_rtrb::transport::{do_write, second_offer};
use rtrb::{Consumer, RingBuffer};

fn drain(consumer: &mut Consumer<u8>) -> Vec<u8> {
    let mut out = Vec::new();
    while let Ok(byte) = consumer.pop() {
        out.push(byte);
    }
    out
}

#[test]
fn write_that_fits_is_delivered_whole() {
    let (mut p, mut c) = RingBuffer::<u8>::new(16);
    do_write(&mut p, b"hello");
    assert_eq!(p.cached_slots(), 11);
    assert_eq!(c.slots(), 5);
    assert_eq!(drain(&mut c), b"hello".to_vec());
}

#[test]
fn write_that_fills_the_transport_exactly_is_delivered_whole() {
    let (mut p, mut c) = RingBuffer::<u8>::new(4);
    do_write(&mut p, &[1, 2, 3, 4]);
    assert_eq!(p.cached_slots(), 0);
    assert_eq!(drain(&mut c), vec![1, 2, 3, 4]);
}

#[test]
fn ten_bytes_into_four_free_slots_keep_the_first_four() {
    let (mut p, mut c) = RingBuffer::<u8>::new(4);
    do_write(&mut p, &[10, 11, 12, 13, 14, 15, 16, 17, 18, 19]);
    assert_eq!(p.slots(), 0);
    assert_eq!(drain(&mut c), vec![10, 11, 12, 13]);
}

#[test]
fn write_into_a_full_transport_is_a_no_op() {
    let (mut p, mut c) = RingBuffer::<u8>::new(3);
    do_write(&mut p, &[1, 2, 3]);
    do_write(&mut p, &[4, 5]);
    do_write(&mut p, &[6]);
    assert_eq!(drain(&mut c), vec![1, 2, 3]);
}

#[test]
fn partly_filled_transport_keeps_the_leading_bytes_that_fit() {
    let (mut p, mut c) = RingBuffer::<u8>::new(8);
    do_write(&mut p, &[1, 2, 3, 4, 5]);
    do_write(&mut p, &[6, 7, 8, 9, 10]);
    assert_eq!(drain(&mut c), vec![1, 2, 3, 4, 5, 6, 7, 8]);
}

#[test]
fn empty_write_changes_nothing() {
    let (mut p, mut c) = RingBuffer::<u8>::new(2);
    do_write(&mut p, &[]);
    assert_eq!(p.slots(), 2);
    do_write(&mut p, &[7, 8]);
    do_write(&mut p, &[]);
    assert_eq!(drain(&mut c), vec![7, 8]);
}

#[test]
fn zero_capacity_transport_takes_nothing() {
    let (mut p, mut c) = RingBuffer::<u8>::new(0);
    do_write(&mut p, &[1, 2, 3]);
    do_write(&mut p, &[]);
    do_write(&mut p, &[4]);
    assert_eq!(p.slots(), 0);
    assert_eq!(drain(&mut c), Vec::<u8>::new());
}

#[test]
fn write_across_the_end_of_the_ring_keeps_the_order() {
    let (mut p, mut c) = RingBuffer::<u8>::new(8);
    do_write(&mut p, &[1, 2, 3, 4, 5, 6]);
    assert_eq!(drain(&mut c), vec![1, 2, 3, 4, 5, 6]);
    do_write(&mut p, &[7, 8, 9, 10, 11, 12]);
    assert_eq!(drain(&mut c), vec![7, 8, 9, 10, 11, 12]);
}

#[test]
fn truncated_write_across_the_end_of_the_ring_keeps_a_prefix() {
    let (mut p, mut c) = RingBuffer::<u8>::new(8);
    do_write(&mut p, &[1, 2, 3, 4, 5, 6]);
    assert_eq!(c.pop(), Ok(1));
    assert_eq!(c.pop(), Ok(2));
    assert_eq!(c.pop(), Ok(3));
    do_write(&mut p, &[7, 8, 9, 10, 11, 12, 13]);
    assert_eq!(drain(&mut c), vec![4, 5, 6, 7, 8, 9, 10, 11]);
}

#[test]
fn slots_freed_by_the_reader_are_found_by_the_next_write() {
    let (mut p, mut c) = RingBuffer::<u8>::new(4);
    do_write(&mut p, &[1, 2, 3, 4]);
    assert_eq!(p.cached_slots(), 0);
    assert_eq!(c.pop(), Ok(1));
    assert_eq!(c.pop(), Ok(2));
    do_write(&mut p, &[5, 6, 7]);
    assert_eq!(drain(&mut c), vec![3, 4, 5, 6]);
}

#[test]
fn writes_within_the_capacity_between_drains_lose_nothing() {
    let (mut p, mut c) = RingBuffer::<u8>::new(6);
    let mut sent = Vec::new();
    let mut received = Vec::new();
    for round in 0u8..20 {
        let first = [round, round.wrapping_mul(3), 0];
        let second = [0xFF, round.wrapping_add(1)];
        do_write(&mut p, &first);
        do_write(&mut p, &second);
        sent.extend_from_slice(&first);
        sent.extend_from_slice(&second);
        received.extend(drain(&mut c));
    }
    assert_eq!(received.len(), 100);
    assert_eq!(received, sent);
}

#[test]
fn reader_pace_alone_loses_nothing() {
    let (mut p, mut c) = RingBuffer::<u8>::new(8);
    let mut sent = Vec::new();
    let mut received = Vec::new();
    for round in 0u8..30 {
        let piece = [round, round ^ 0x55];
        do_write(&mut p, &piece);
        sent.extend_from_slice(&piece);
        if round % 3 == 2 {
            for _ in 0..(round % 7) {
                if let Ok(byte) = c.pop() {
                    received.push(byte);
                }
            }
        }
        if c.slots() > 6 {
            received.extend(drain(&mut c));
        }
    }
    received.extend(drain(&mut c));
    assert_eq!(received, sent);
}

#[test]
fn what_gets_through_under_pressure_is_a_prefix_of_each_write() {
    let (mut p, mut c) = RingBuffer::<u8>::new(5);
    do_write(&mut p, &[1, 2, 3]);
    do_write(&mut p, &[4, 5, 6]);
    do_write(&mut p, &[7, 8, 9]);
    assert_eq!(c.pop(), Ok(1));
    do_write(&mut p, &[10, 11, 12]);
    assert_eq!(drain(&mut c), vec![2, 3, 4, 5, 10]);
}

#[test]
fn second_offer_to_a_full_transport_is_nothing() {
    assert_eq!(second_offer(&[1, 2, 3], 0), None);
    assert_eq!(second_offer(&[9], 0), None);
}

#[test]
fn second_offer_is_the_prefix_that_fits() {
    let bytes = [10u8, 11, 12, 13, 14, 15, 16, 17, 18, 19];
    assert_eq!(second_offer(&bytes, 4), Some(&bytes[..4]));
    assert_eq!(second_offer(&bytes, 1), Some(&[10u8][..]));
    assert_eq!(second_offer(&bytes, 9), Some(&bytes[..9]));
}
