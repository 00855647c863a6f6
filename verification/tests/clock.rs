use netprobe::clock::{Stamp, Stopwatch, DAY_SECS, MAX_MILLIS};

#[test]
fn stamps_are_written_in_each_notation() {
    // 2001-02-03 04:05:06.789 UTC, two hours ahead.
    let t = Stamp::new(981_173_106_789, 7200).unwrap();
    assert_eq!(t.format("%H:%M"), "06:05");
    assert_eq!(t.format("%H:%M:%S"), "06:05:06");
    assert_eq!(t.format(" │ %H:%M:%S"), " │ 06:05:06");
    assert_eq!(t.format("%H:%M:%S%.3f"), "06:05:06.789");
    assert_eq!(t.format("%Y-%m-%d %H:%M:%S"), "2001-02-03 06:05:06");
    assert_eq!(t.format("%Y%m%d-%H%M%S"), "20010203-060506");
    assert_eq!(t.millis(), 981_173_106_789);
}

#[test]
fn stamps_outside_their_range_are_none() {
    assert!(Stamp::new(0, 0).is_some());
    assert!(Stamp::new(-1, 0).is_none());
    assert!(Stamp::new(MAX_MILLIS + 1, 0).is_none());
    assert!(Stamp::new(0, DAY_SECS).is_none());
    assert!(Stamp::new(0, -DAY_SECS).is_none());
    let last = Stamp::new(MAX_MILLIS, DAY_SECS - 1).unwrap();
    assert_eq!(last.format("%H:%M:%S").len(), 8);
    let low = Stamp::new(0, -(DAY_SECS - 1)).unwrap();
    assert_eq!(low.format("%Y-%m-%d %H:%M:%S"), "1969-12-31 00:00:01");
}

#[test]
fn clocks_run_forward() {
    let first = Stamp::now();
    assert!(first.millis() > 1_600_000_000_000);
    let clock = Stopwatch::start();
    let a = clock.nanos();
    let b = clock.nanos();
    assert!(a <= b);
    assert!(b < 20_000_000_000);
}
