use server_128::clock::{is_snapshot_tick, SNAPSHOT_RATE, TICK_RATE};

#[test]
fn snapshot_every_other_tick() {
    assert_eq!(TICK_RATE, 60);
    assert_eq!(SNAPSHOT_RATE, 30);
    assert!(is_snapshot_tick(0));
    assert!(!is_snapshot_tick(1));
    assert!(is_snapshot_tick(2));
    assert!(!is_snapshot_tick(59));
    assert!(is_snapshot_tick(60));
    assert!(!is_snapshot_tick(u64::MAX));
}

#[test]
fn snapshots_alternate_over_a_second() {
    let count = (1..=TICK_RATE).filter(|t| is_snapshot_tick(*t)).count();
    assert_eq!(count as u64, SNAPSHOT_RATE);
}
