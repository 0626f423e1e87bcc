//! The progress sweep that the display task draws: a rectangle anchored at
//! the top-left corner that grows one column per frame and one row per full
//! pass of columns, and a clear of the whole screen when it has covered it.
use vstd::prelude::*;
use vstd::arithmetic::div_mod::{lemma_add_mod_noop_right, lemma_fundamental_div_mod_converse};

verus! {

/// Time between two frames of the sweep, in milliseconds.
pub const FRAME_PERIOD_MS: u64 = 10;

/// Progress of the sweep: the blanked rectangle spans columns
/// `0..x_progress` and rows `0..y_progress`.
#[derive(Clone, Copy, Debug, PartialEq, Eq, Structural)]
pub struct Sweep {
    pub x_progress: u32,
    pub y_progress: u32,
}

/// What one frame of the sweep asks of the display: set every pixel of
/// columns `0..blank_columns` and rows `0..blank_rows` to off, then, if
/// `clear` holds, clear the whole screen.
#[derive(Clone, Copy, Debug, PartialEq, Eq, Structural)]
pub struct SweepFrame {
    pub blank_columns: u32,
    pub blank_rows: u32,
    pub clear: bool,
}

/// The sweep after one frame on a `width` by `height` screen: the column
/// count moves on modulo `width`, and each time it wraps the row count moves
/// on modulo `height`.
pub open spec fn advanced(s: Sweep, width: u32, height: u32) -> Sweep {
    let x = (s.x_progress + 1) % (width as int);
    if x == 0 {
        Sweep { x_progress: 0, y_progress: ((s.y_progress + 1) % (height as int)) as u32 }
    } else {
        Sweep { x_progress: x as u32, y_progress: s.y_progress }
    }
}

/// The sweep after `n` frames.
pub open spec fn advanced_n(s: Sweep, width: u32, height: u32, n: nat) -> Sweep
    decreases n,
{
    if n == 0 {
        s
    } else {
        advanced(advanced_n(s, width, height, (n - 1) as nat), width, height)
    }
}

/// The number of frames drawn since the sweep last stood at the top-left
/// corner, reading the rectangle row by row.
pub open spec fn linear_position(s: Sweep, width: u32) -> int {
    s.y_progress * width + s.x_progress
}

impl Sweep {
    /// The sweep as the display task starts it: no columns and one row.
    pub fn new() -> (s: Sweep)
        ensures
            s.x_progress == 0,
            s.y_progress == 1,
            forall|w: u32, h: u32| w > 0 && h > 0 ==> #[trigger] s.within(w, h),
    {
        Sweep { x_progress: 0, y_progress: 1 }
    }

    /// The sweep fits a `width` by `height` screen: the column count is below
    /// the width and the row count below the height, except for the single
    /// row the sweep starts with on a screen one row high.
    pub open spec fn within(self, width: u32, height: u32) -> bool {
        &&& self.x_progress < width
        &&& self.y_progress <= height
        &&& (self.y_progress == height ==> height == 1)
    }

    /// Draws one frame: reports the rectangle to blank, moves the sweep on,
    /// and asks for a clear when the sweep has come back to the corner.
    pub fn step(&mut self, width: u32, height: u32) -> (frame: SweepFrame)
        requires
            width > 0,
            height > 0,
            old(self).within(width, height),
        ensures
            frame.blank_columns == old(self).x_progress,
            frame.blank_rows == old(self).y_progress,
            *final(self) == advanced(*old(self), width, height),
            final(self).within(width, height),
            frame.clear == (final(self).x_progress == 0 && final(self).y_progress == 0),
            frame.blank_columns <= width,
            frame.blank_rows <= height,
    {
        let frame_columns = self.x_progress;
        let frame_rows = self.y_progress;
        let mut x = self.x_progress + 1;
        x = x % width;
        self.x_progress = x;
        let mut clear = false;
        if x == 0 {
            let mut y = self.y_progress + 1;
            y = y % height;
            self.y_progress = y;
            if y == 0 {
                clear = true;
            }
        }
        SweepFrame { blank_columns: frame_columns, blank_rows: frame_rows, clear }
    }
}

/// One frame moves the sweep's linear position on by one, modulo the number
/// of pixels, while the sweep stays within the rows of the screen.
pub proof fn lemma_advance_is_increment(s: Sweep, width: u32, height: u32)
    requires
        width > 0,
        height > 0,
        s.x_progress < width,
        s.y_progress < height,
    ensures
        advanced(s, width, height).x_progress < width,
        advanced(s, width, height).y_progress < height,
        linear_position(advanced(s, width, height), width) == (linear_position(s, width) + 1) % (
        width * height),
{
    let w = width as int;
    let h = height as int;
    let x = s.x_progress as int;
    let y = s.y_progress as int;
    let p = y * w + x;
    let n = advanced(s, width, height);
    assert(0 <= p && p + 1 <= w * h) by (nonlinear_arith)
        requires
            0 <= x < w,
            0 <= y < h,
            p == y * w + x,
    ;
    if x + 1 < w {
        lemma_fundamental_div_mod_converse(x + 1, w, 0, x + 1);
        assert(n.x_progress == x + 1 && n.y_progress == y);
        assert(p + 1 < w * h) by (nonlinear_arith)
            requires
                0 <= x,
                x + 1 < w,
                0 <= y < h,
                p == y * w + x,
        ;
        lemma_fundamental_div_mod_converse(p + 1, w * h, 0, p + 1);
    } else {
        lemma_fundamental_div_mod_converse(x + 1, w, 1, 0);
        assert(n.x_progress == 0);
        if y + 1 < h {
            lemma_fundamental_div_mod_converse(y + 1, h, 0, y + 1);
            assert(n.y_progress == y + 1);
            assert(p + 1 == (y + 1) * w) by (nonlinear_arith)
                requires
                    x + 1 == w,
                    p == y * w + x,
            ;
            assert((y + 1) * w < w * h) by (nonlinear_arith)
                requires
                    y + 1 < h,
                    w > 0,
            ;
            lemma_fundamental_div_mod_converse(p + 1, w * h, 0, p + 1);
        } else {
            lemma_fundamental_div_mod_converse(y + 1, h, 1, 0);
            assert(n.y_progress == 0);
            assert(p + 1 == w * h) by (nonlinear_arith)
                requires
                    x + 1 == w,
                    y + 1 == h,
                    p == y * w + x,
            ;
            lemma_fundamental_div_mod_converse(p + 1, w * h, 1, 0);
            assert(linear_position(n, width) == 0) by (nonlinear_arith)
                requires
                    n.x_progress == 0,
                    n.y_progress == 0,
            ;
        }
    }
}

/// After `n` frames from a sweep within the rows of the screen, the linear
/// position has moved on by `n` modulo the number of pixels.
pub proof fn lemma_advance_n_position(s: Sweep, width: u32, height: u32, n: nat)
    requires
        width > 0,
        height > 0,
        s.x_progress < width,
        s.y_progress < height,
    ensures
        advanced_n(s, width, height, n).x_progress < width,
        advanced_n(s, width, height, n).y_progress < height,
        linear_position(advanced_n(s, width, height, n), width) == (linear_position(s, width) + n)
            % (width * height),
    decreases n,
{
    let m = width * height;
    assert(m > 0) by (nonlinear_arith)
        requires
            width > 0,
            height > 0,
            m == width * height,
    ;
    let p = linear_position(s, width);
    if n == 0 {
        assert(0 <= p < m) by (nonlinear_arith)
            requires
                0 <= s.x_progress < width,
                0 <= s.y_progress < height,
                p == s.y_progress * width + s.x_progress,
                m == width * height,
        ;
        lemma_fundamental_div_mod_converse(p, m, 0, p);
    } else {
        let prev = advanced_n(s, width, height, (n - 1) as nat);
        lemma_advance_n_position(s, width, height, (n - 1) as nat);
        lemma_advance_is_increment(prev, width, height);
        lemma_add_mod_noop_right(1, p + (n - 1), m);
    }
}

/// Two sweeps within the screen with the same linear position are the same.
pub proof fn lemma_position_determines_sweep(a: Sweep, b: Sweep, width: u32, height: u32)
    requires
        width > 0,
        a.x_progress < width,
        b.x_progress < width,
        linear_position(a, width) == linear_position(b, width),
    ensures
        a == b,
{
    let p = linear_position(a, width);
    lemma_fundamental_div_mod_converse(p, width as int, a.y_progress as int, a.x_progress as int);
    lemma_fundamental_div_mod_converse(p, width as int, b.y_progress as int, b.x_progress as int);
}

/// The sweep is periodic: after one frame per pixel it is back where it
/// was.
pub proof fn lemma_sweep_period(s: Sweep, width: u32, height: u32)
    requires
        width > 0,
        height > 0,
        s.x_progress < width,
        s.y_progress < height,
    ensures
        advanced_n(s, width, height, (width * height) as nat) == s,
{
    let m = width * height;
    assert(m > 0) by (nonlinear_arith)
        requires
            width > 0,
            height > 0,
            m == width * height,
    ;
    let p = linear_position(s, width);
    lemma_advance_n_position(s, width, height, m as nat);
    lemma_advance_n_position(s, width, height, 0);
    lemma_add_mod_noop_right(p, m, m);
    vstd::arithmetic::div_mod::lemma_mod_self_0(m);
    lemma_position_determines_sweep(advanced_n(s, width, height, m as nat), s, width, height);
}

/// A frame asks for a clear exactly when it completes a full pass over the
/// screen: when the linear position wraps round to zero.
pub proof fn lemma_clear_once_per_pass(s: Sweep, width: u32, height: u32)
    requires
        width > 0,
        height > 0,
        s.x_progress < width,
        s.y_progress < height,
    ensures
        (advanced(s, width, height).x_progress == 0 && advanced(s, width, height).y_progress == 0)
            <==> (linear_position(s, width) + 1) % (width * height) == 0,
{
    lemma_advance_is_increment(s, width, height);
    let n = advanced(s, width, height);
    assert(linear_position(Sweep { x_progress: 0, y_progress: 0 }, width) == 0) by (nonlinear_arith);
    if linear_position(n, width) == 0 {
        let z = Sweep { x_progress: 0, y_progress: 0 };
        lemma_position_determines_sweep(n, z, width, height);
    }
}

/// The sweep never leaves the screen: starting within it, it stays within
/// it after any number of frames.
pub proof fn lemma_sweep_stays_within(s: Sweep, width: u32, height: u32, n: nat)
    requires
        width > 0,
        height > 0,
        s.within(width, height),
    ensures
        advanced_n(s, width, height, n).within(width, height),
    decreases n,
{
    if n > 0 {
        lemma_sweep_stays_within(s, width, height, (n - 1) as nat);
    }
}

} // verus!
