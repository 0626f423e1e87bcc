use yaskbf::calibration::{Calibration, CALIBRATION_SAMPLES};

#[test]
fn constant_samples_give_their_value() {
    let mut c = Calibration::new();
    for _ in 0..CALIBRATION_SAMPLES {
        assert!(!c.is_complete());
        c.add(1500, -800);
    }
    assert!(c.is_complete());
    assert_eq!(c.count(), 500);
    assert_eq!(c.offsets(), (1500, -800));
}

#[test]
fn offsets_are_means_rounded_toward_zero() {
    let mut c = Calibration::new();
    for i in 0..CALIBRATION_SAMPLES {
        // x: 499 zeros and one 999 -> 999/500 = 1; y: one -999 -> 0 toward zero
        if i == 0 {
            c.add(999, -999);
        } else {
            c.add(0, 0);
        }
    }
    assert_eq!(c.offsets(), (1, -1));
    let mut d = Calibration::new();
    for i in 0..CALIBRATION_SAMPLES {
        if i == 0 {
            d.add(-499, 499);
        } else {
            d.add(0, 0);
        }
    }
    assert_eq!(d.offsets(), (0, 0));
}

#[test]
fn extreme_samples_fit() {
    let mut c = Calibration::new();
    for _ in 0..CALIBRATION_SAMPLES {
        c.add(i16::MIN, i16::MAX);
    }
    assert_eq!(c.offsets(), (i16::MIN, i16::MAX));
}
