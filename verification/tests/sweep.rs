use yaskbf::sweep::{Sweep, SweepFrame, FRAME_PERIOD_MS};

fn run(s: &mut Sweep, width: u32, height: u32, n: usize) -> Vec<SweepFrame> {
    (0..n).map(|_| s.step(width, height)).collect()
}

#[test]
fn sweep_starts_with_one_row_and_no_columns() {
    let s = Sweep::new();
    assert_eq!(s.x_progress, 0);
    assert_eq!(s.y_progress, 1);
    assert_eq!(FRAME_PERIOD_MS, 10);
}

#[test]
fn first_frames_on_three_by_two_screen() {
    let mut s = Sweep::new();
    let frames = run(&mut s, 3, 2, 4);
    let expected = [(0, 1, false), (1, 1, false), (2, 1, true), (0, 0, false)];
    for (f, (c, r, clear)) in frames.iter().zip(expected.iter()) {
        assert_eq!((f.blank_columns, f.blank_rows, f.clear), (*c, *r, *clear));
    }
    assert_eq!(s, Sweep { x_progress: 1, y_progress: 0 });
}

#[test]
fn sweep_returns_after_one_frame_per_pixel() {
    let start = Sweep { x_progress: 2, y_progress: 3 };
    let mut s = start;
    run(&mut s, 5, 4, 20);
    assert_eq!(s, start);
    run(&mut s, 5, 4, 7);
    assert_ne!(s, start);
}

#[test]
fn linear_position_advances_by_one_modulo_pixels() {
    let (w, h) = (7u32, 3u32);
    let mut s = Sweep { x_progress: 0, y_progress: 0 };
    for k in 1..=50u32 {
        s.step(w, h);
        assert_eq!(s.y_progress * w + s.x_progress, k % (w * h));
    }
}

#[test]
fn clear_once_per_pass() {
    let (w, h) = (4u32, 3u32);
    let mut s = Sweep { x_progress: 0, y_progress: 0 };
    let frames = run(&mut s, w, h, 36);
    let clears: Vec<usize> = frames.iter().enumerate().filter(|(_, f)| f.clear).map(|(i, _)| i).collect();
    assert_eq!(clears, vec![11, 23, 35]);
}

#[test]
fn blanked_rectangle_stays_on_the_display() {
    let (w, h) = (400u32, 240u32);
    let mut s = Sweep::new();
    for _ in 0..(400 * 240 + 5) {
        let f = s.step(w, h);
        assert!(f.blank_columns < w);
        assert!(f.blank_rows < h || (f.blank_rows == 1 && h == 1));
    }
}

#[test]
fn single_pixel_screen_clears_every_frame_after_the_first() {
    let mut s = Sweep::new();
    let f = s.step(1, 1);
    assert_eq!(f, SweepFrame { blank_columns: 0, blank_rows: 1, clear: true });
    let f = s.step(1, 1);
    assert_eq!(f, SweepFrame { blank_columns: 0, blank_rows: 0, clear: true });
}

#[test]
fn single_row_screen_keeps_its_row_until_the_columns_wrap() {
    let mut s = Sweep::new();
    let frames = run(&mut s, 3, 1, 4);
    assert_eq!(frames[0].blank_rows, 1);
    assert_eq!(frames[2].blank_rows, 1);
    assert!(frames[2].clear);
    assert_eq!(frames[3].blank_rows, 0);
}
