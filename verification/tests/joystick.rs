use yaskbf::calibration::{Calibration, CALIBRATION_SAMPLES};
use yaskbf::joystick::JoystickFilter;
use yaskbf::window::SAMPLE_LENGTH;

#[test]
fn readings_are_centred_and_averaged() {
    let mut f = JoystickFilter::new(100, -50);
    let r = f.record(100 + 512, -50 - 1024);
    assert_eq!((r.x, r.y, r.report), (1, -2, false));
}

#[test]
fn rest_position_reads_zero() {
    let mut cal = Calibration::new();
    for _ in 0..CALIBRATION_SAMPLES {
        cal.add(2047, 13);
    }
    let mut f = JoystickFilter::from_calibration(&cal);
    assert_eq!((f.offset_x(), f.offset_y()), (2047, 13));
    let mut last = None;
    for _ in 0..SAMPLE_LENGTH {
        last = Some(f.record(2047, 13));
    }
    let r = last.unwrap();
    assert_eq!((r.x, r.y, r.report), (0, 0, true));
}

#[test]
fn report_once_per_window() {
    let mut f = JoystickFilter::new(0, 0);
    let mut reports = 0;
    for i in 0..(2 * SAMPLE_LENGTH) {
        let r = f.record(300, -300);
        if r.report {
            reports += 1;
            assert_eq!(i % SAMPLE_LENGTH, SAMPLE_LENGTH - 1);
        }
    }
    assert_eq!(reports, 2);
    let r = f.record(300, -300);
    assert_eq!((r.x, r.y), (300, -300));
}

#[test]
fn store_moves_the_window_without_a_reading() {
    let mut f = JoystickFilter::new(10, 10);
    for _ in 0..SAMPLE_LENGTH {
        f.store(20, 0);
    }
    let r = f.record(20, 0);
    assert_eq!((r.x, r.y, r.report), (10, -10, false));
}

#[test]
fn accepts_only_centrable_readings() {
    let f = JoystickFilter::new(-1, 1);
    assert!(f.accepts(0, 0));
    assert!(!f.accepts(i16::MAX, 0));
    assert!(!f.accepts(0, i16::MIN));
    assert!(f.accepts(i16::MAX - 1, i16::MIN + 1));
}

#[test]
fn shifted_readings_give_the_same_positions() {
    let dx: i16 = 37;
    let cal_x: Vec<i16> = (0..CALIBRATION_SAMPLES as usize).map(|i| (i % 13) as i16 + 100).collect();
    let raws: Vec<i16> = (0..(SAMPLE_LENGTH + 20)).map(|i| ((i * 7) % 301) as i16 - 150).collect();
    let mut c1 = Calibration::new();
    let mut c2 = Calibration::new();
    for v in &cal_x {
        c1.add(*v, 0);
        c2.add(*v + dx, 0);
    }
    assert_eq!(c2.offsets().0, c1.offsets().0 + dx);
    let mut f1 = JoystickFilter::from_calibration(&c1);
    let mut f2 = JoystickFilter::from_calibration(&c2);
    for r in &raws {
        assert_eq!(f1.record(*r, 0), f2.record(*r + dx, 0));
    }
}
