use yaskbf::blink::{Blinker, Level, BLINK_PERIOD_MS, STATUS_BLINK_PERIOD_MS};

#[test]
fn heartbeat_starts_high_and_alternates() {
    let mut b = Blinker::heartbeat();
    assert_eq!(b.level, Level::High);
    assert_eq!(b.toggle(), Level::Low);
    assert_eq!(b.toggle(), Level::High);
    assert_eq!(BLINK_PERIOD_MS, 500);
}

#[test]
fn status_blink_drives_high_first() {
    let mut b = Blinker::status();
    assert_eq!(b.toggle(), Level::High);
    assert_eq!(b.toggle(), Level::Low);
    assert_eq!(STATUS_BLINK_PERIOD_MS, 1000);
}

#[test]
fn toggling_twice_restores_the_level() {
    for start in [Level::Low, Level::High] {
        let mut b = Blinker::new(start);
        assert_ne!(b.toggle(), start);
        b.toggle();
        assert_eq!(b.level, start);
    }
}
