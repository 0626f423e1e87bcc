use yaskbf::window::{SampleWindow, SAMPLE_LENGTH};

#[test]
fn new_window_holds_zeros() {
    let w = SampleWindow::new();
    assert_eq!(w.to_vec(), vec![0i16; SAMPLE_LENGTH]);
    assert_eq!(w.average(), 0);
    assert_eq!(w.position(), 0);
}

#[test]
fn push_drops_oldest_and_appends() {
    let mut w = SampleWindow::new();
    for v in 1..=3i16 {
        assert!(!w.push(v));
    }
    let held = w.to_vec();
    assert_eq!(held.len(), SAMPLE_LENGTH);
    assert_eq!(&held[SAMPLE_LENGTH - 3..], &[1, 2, 3]);
    assert!(held[..SAMPLE_LENGTH - 3].iter().all(|v| *v == 0));
    assert_eq!(w.position(), 3);
}

#[test]
fn wraps_once_per_window() {
    let mut w = SampleWindow::new();
    let mut wraps = Vec::new();
    for i in 0..(3 * SAMPLE_LENGTH) {
        if w.push(i as i16) {
            wraps.push(i);
        }
    }
    assert_eq!(wraps, vec![SAMPLE_LENGTH - 1, 2 * SAMPLE_LENGTH - 1, 3 * SAMPLE_LENGTH - 1]);
}

#[test]
fn window_keeps_the_latest_samples() {
    let mut w = SampleWindow::new();
    let values: Vec<i16> = (0..(SAMPLE_LENGTH + 100)).map(|i| (i as i16) * 3 - 700).collect();
    for v in &values {
        w.push(*v);
    }
    assert_eq!(w.to_vec(), values[100..].to_vec());
}

#[test]
fn steady_input_averages_to_itself() {
    let mut w = SampleWindow::new();
    for _ in 0..SAMPLE_LENGTH {
        w.push(-1234);
    }
    assert_eq!(w.average(), -1234);
}

#[test]
fn average_rounds_toward_zero() {
    let mut w = SampleWindow::new();
    w.push(-1);
    assert_eq!(w.average(), 0);
    w.push(-512);
    // sum -513
    assert_eq!(w.average(), -1);
    let mut v = SampleWindow::new();
    v.push(1023);
    assert_eq!(v.average(), 1);
}

#[test]
fn average_of_extremes() {
    let mut w = SampleWindow::new();
    for _ in 0..SAMPLE_LENGTH {
        w.push(i16::MIN);
    }
    assert_eq!(w.average(), i16::MIN);
    for _ in 0..SAMPLE_LENGTH {
        w.push(i16::MAX);
    }
    assert_eq!(w.average(), i16::MAX);
}

#[test]
fn average_ignores_order_and_cursor() {
    let values: Vec<i16> = (0..SAMPLE_LENGTH).map(|i| ((i * 37) % 1001) as i16 - 500).collect();
    let mut a = SampleWindow::new();
    for v in &values {
        a.push(*v);
    }
    let mut b = SampleWindow::new();
    for _ in 0..100 {
        b.push(7);
    }
    for v in values.iter().rev() {
        b.push(*v);
    }
    assert_ne!(a.position(), b.position());
    assert_ne!(a.to_vec(), b.to_vec());
    assert_eq!(a.average(), b.average());
}
