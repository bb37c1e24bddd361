use gattii::pacer::percentage;
use gattii::Transfer;

#[test]
fn percentage_rounds_down() {
    assert_eq!(percentage(0, 10000), 0);
    assert_eq!(percentage(99, 10000), 0);
    assert_eq!(percentage(100, 10000), 1);
    assert_eq!(percentage(504, 10000), 5);
    assert_eq!(percentage(9999, 10000), 99);
    assert_eq!(percentage(10000, 10000), 100);
    assert_eq!(percentage(1, 3), 33);
    assert_eq!(percentage(2, 3), 66);
}

#[test]
fn percentage_is_exact_for_large_files() {
    // one byte short of a file too large for single precision to tell apart
    assert_eq!(percentage(16_777_216_000 - 1, 16_777_216_000), 99);
    assert_eq!(percentage(u64::MAX - 1, u64::MAX), 99);
    assert_eq!(percentage(u64::MAX, u64::MAX), 100);
    assert_eq!(percentage(u64::MAX / 2, u64::MAX), 49);
}

#[test]
fn percentage_stops_at_the_largest_byte() {
    assert_eq!(percentage(255, 100), 255);
    assert_eq!(percentage(256, 100), 255);
    assert_eq!(percentage(u64::MAX, 1), 255);
    assert_eq!(percentage(254, 100), 254);
}

#[test]
fn percentage_of_an_empty_source() {
    assert_eq!(percentage(0, 0), 0);
    assert_eq!(percentage(1, 0), 255);
}

#[test]
fn start_resets_the_counters() {
    assert_eq!(
        Transfer::start(42),
        Transfer { bytes_read: 0, bytes_total: 42, last_percentage: 0, awaited: None }
    );
}

#[test]
fn advance_reports_only_full_steps() {
    let mut t = Transfer::start(1000);
    assert_eq!(t.advance(49, 5), None);
    assert_eq!(
        t,
        Transfer { bytes_read: 49, bytes_total: 1000, last_percentage: 0, awaited: None }
    );
    assert_eq!(t.advance(1, 5), Some(5));
    assert_eq!(
        t,
        Transfer { bytes_read: 50, bytes_total: 1000, last_percentage: 5, awaited: None }
    );
    assert_eq!(t.advance(49, 5), None);
    assert_eq!(t.advance(0, 5), None);
    assert_eq!(t.advance(1, 5), Some(10));
    assert_eq!(t.advance(170, 5), Some(27));
    assert_eq!(t.advance(49, 5), None);
    assert_eq!(t.advance(1, 5), Some(32));
    assert_eq!(t.advance(49, 5), None);
    assert_eq!(
        t,
        Transfer { bytes_read: 369, bytes_total: 1000, last_percentage: 32, awaited: None }
    );
}

#[test]
fn advance_with_other_steps() {
    let mut t = Transfer::start(100);
    assert_eq!(t.advance(9, 10), None);
    assert_eq!(t.advance(1, 10), Some(10));
    let mut every = Transfer::start(100);
    assert_eq!(every.advance(0, 0), Some(0));
    assert_eq!(every.advance(1, 0), Some(1));
    assert_eq!(every.advance(0, 0), Some(1));
}

#[test]
fn advance_does_not_wrap() {
    let mut t = Transfer {
        bytes_read: u64::MAX - 1,
        bytes_total: u64::MAX,
        last_percentage: 99,
        awaited: None,
    };
    assert_eq!(t.advance(5, 5), None);
    assert_eq!(t.bytes_read, u64::MAX);
    assert_eq!(t.last_percentage, 99);
    let mut high = Transfer { bytes_read: 0, bytes_total: 1, last_percentage: 253, awaited: None };
    assert_eq!(high.advance(1000, 5), None);
    assert_eq!(high.last_percentage, 253);
    let mut edge = Transfer { bytes_read: 0, bytes_total: 1, last_percentage: 250, awaited: None };
    assert_eq!(edge.advance(1000, 5), Some(255));
}

#[test]
fn allow_cuts_a_chunk_to_what_was_asked_for() {
    let mut t = Transfer::start(100);
    assert_eq!(t.allow(5), 0);
    t.awaited = Some(9);
    assert_eq!(t.allow(0), 0);
    assert_eq!(t.allow(8), 8);
    assert_eq!(t.allow(9), 9);
    assert_eq!(t.allow(10), 9);
    assert_eq!(t.allow(usize::MAX), 9);
    t.awaited = Some(0);
    assert_eq!(t.allow(3), 0);
    t.awaited = Some(u64::MAX);
    assert_eq!(t.allow(usize::MAX), usize::MAX);
}

#[test]
fn advance_answers_the_awaited_chunk() {
    let mut t = Transfer { bytes_read: 0, bytes_total: 100, last_percentage: 0, awaited: Some(9) };
    assert_eq!(t.advance(9, 5), Some(9));
    assert_eq!(
        t,
        Transfer { bytes_read: 9, bytes_total: 100, last_percentage: 9, awaited: None }
    );
}

#[test]
fn only_a_read_of_at_least_one_byte_is_awaited() {
    let mut t = Transfer::start(100);
    assert!(!t.is_awaiting());
    t.awaited = Some(0);
    assert!(!t.is_awaiting());
    t.awaited = Some(1);
    assert!(t.is_awaiting());
    t.awaited = Some(u64::MAX);
    assert!(t.is_awaiting());
}
