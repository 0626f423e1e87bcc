use yaskbf::joystick_task::{
    JoystickAction, JoystickTask, Position, CALIBRATION_WAIT_MICROS, FILL_WAIT_MICROS,
};

#[test]
fn task_goes_through_its_phases() {
    let mut t = JoystickTask::new();
    for i in 0..500 {
        assert!(matches!(t, JoystickTask::Calibrating(_)), "reading {}", i);
        let a = t.on_sample(1000, -1000);
        assert_eq!(a, JoystickAction { calibrate_adc: true, log: None, wait_micros: CALIBRATION_WAIT_MICROS });
    }
    match &t {
        JoystickTask::Filling(f, n) => {
            assert_eq!(*n, 0);
            assert_eq!((f.offset_x(), f.offset_y()), (1000, -1000));
        }
        _ => panic!("expected the filling phase"),
    }
    for i in 0..512 {
        assert!(matches!(t, JoystickTask::Filling(_, n) if n == i));
        let a = t.on_sample(1010, -1020);
        assert_eq!(a, JoystickAction { calibrate_adc: false, log: None, wait_micros: FILL_WAIT_MICROS });
    }
    assert!(matches!(t, JoystickTask::Running(_)));
    for i in 0..512 {
        let a = t.on_sample(1010, -1020);
        if i < 511 {
            assert_eq!(a, JoystickAction { calibrate_adc: false, log: None, wait_micros: 0 });
        } else {
            assert_eq!(
                a,
                JoystickAction { calibrate_adc: true, log: Some(Position { x: 10, y: -20 }), wait_micros: 0 }
            );
        }
    }
}

#[test]
fn task_accepts_any_reading_while_calibrating() {
    let t = JoystickTask::new();
    assert!(t.accepts(i16::MIN, i16::MAX));
}

#[test]
fn task_refuses_readings_that_do_not_centre() {
    let mut t = JoystickTask::new();
    for _ in 0..500 {
        t.on_sample(-100, 100);
    }
    assert!(t.accepts(0, 0));
    assert!(!t.accepts(i16::MAX, 0));
    assert!(!t.accepts(0, i16::MIN));
}
