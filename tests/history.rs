use supro_tracker::history::History;

#[test]
fn history_keeps_newest_first_within_capacity() {
    let mut h: History<u32> = History::new(10);
    for v in 0..15u32 {
        h.push(v);
        assert!(h.len() <= 10);
    }
    assert_eq!(h.len(), 10);
    for k in 0..10usize {
        assert_eq!(*h.get(k), 14 - k as u32);
    }
}

#[test]
fn history_below_capacity_keeps_all() {
    let mut h: History<u32> = History::new(4);
    h.push(7);
    h.push(8);
    assert_eq!(h.len(), 2);
    assert_eq!(*h.get(0), 8);
    assert_eq!(*h.get(1), 7);
    assert_eq!(h.capacity(), 4);
}

#[test]
fn history_of_capacity_zero_stays_empty() {
    let mut h: History<u32> = History::new(0);
    h.push(1);
    h.push(2);
    assert_eq!(h.len(), 0);
}
