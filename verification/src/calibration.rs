//! The joystick's rest position, taken as the mean of a fixed number of
//! samples read while the stick is left alone.
use vstd::prelude::*;

use crate::arith::{lemma_div_trunc_fits, lemma_sum_bounds, sum_of, trunc_mean};

verus! {

/// Number of samples the rest position is averaged over.
pub const CALIBRATION_SAMPLES: u32 = 500;

/// Running sums of the samples read so far on both axes.
pub struct Calibration {
    sum_x: i32,
    sum_y: i32,
    count: u32,
    xs: Ghost<Seq<i16>>,
    ys: Ghost<Seq<i16>>,
}

impl Calibration {
    /// The samples read so far on the horizontal axis.
    pub closed spec fn xs(&self) -> Seq<i16> {
        self.xs@
    }

    /// The samples read so far on the vertical axis.
    pub closed spec fn ys(&self) -> Seq<i16> {
        self.ys@
    }

    /// The sums match the samples read, of which there are at most
    /// `CALIBRATION_SAMPLES` on each axis.
    pub closed spec fn well_formed(&self) -> bool {
        &&& self.xs@.len() == self.count
        &&& self.ys@.len() == self.count
        &&& self.count <= CALIBRATION_SAMPLES
        &&& self.sum_x == sum_of(self.xs@)
        &&& self.sum_y == sum_of(self.ys@)
    }

    /// A calibration that has read nothing yet.
    pub fn new() -> (c: Self)
        ensures
            c.well_formed(),
            c.xs() == Seq::<i16>::empty(),
            c.ys() == Seq::<i16>::empty(),
    {
        Calibration {
            sum_x: 0,
            sum_y: 0,
            count: 0,
            xs: Ghost(Seq::empty()),
            ys: Ghost(Seq::empty()),
        }
    }

    /// The number of sample pairs read so far.
    pub fn count(&self) -> (n: u32)
        requires
            self.well_formed(),
        ensures
            n == self.xs().len(),
            n == self.ys().len(),
    {
        self.count
    }

    /// Whether all `CALIBRATION_SAMPLES` sample pairs have been read.
    pub fn is_complete(&self) -> (done: bool)
        requires
            self.well_formed(),
        ensures
            done == (self.xs().len() == CALIBRATION_SAMPLES),
    {
        self.count == CALIBRATION_SAMPLES
    }

    /// Adds one pair of samples.
    pub fn add(&mut self, x: i16, y: i16)
        requires
            old(self).well_formed(),
            old(self).xs().len() < CALIBRATION_SAMPLES,
        ensures
            final(self).well_formed(),
            final(self).xs() == old(self).xs().push(x),
            final(self).ys() == old(self).ys().push(y),
    {
        proof {
            lemma_sum_bounds(self.xs@);
            lemma_sum_bounds(self.ys@);
        }
        let ghost xs = self.xs@.push(x);
        let ghost ys = self.ys@.push(y);
        self.sum_x = self.sum_x + x as i32;
        self.sum_y = self.sum_y + y as i32;
        self.count = self.count + 1;
        self.xs = Ghost(xs);
        self.ys = Ghost(ys);
        proof {
            assert(xs.drop_last() =~= old(self).xs@);
            assert(ys.drop_last() =~= old(self).ys@);
        }
    }

    /// The rest position: the mean of the samples on each axis, rounded
    /// toward zero.
    pub fn offsets(&self) -> (offsets: (i16, i16))
        requires
            self.well_formed(),
            self.xs().len() == CALIBRATION_SAMPLES,
        ensures
            offsets.0 == trunc_mean(self.xs()),
            offsets.1 == trunc_mean(self.ys()),
    {
        proof {
            lemma_sum_bounds(self.xs@);
            lemma_sum_bounds(self.ys@);
            lemma_div_trunc_fits(self.sum_x as int, CALIBRATION_SAMPLES as int);
            lemma_div_trunc_fits(self.sum_y as int, CALIBRATION_SAMPLES as int);
        }
        let n = CALIBRATION_SAMPLES as i32;
        let ox = self.sum_x / n;
        let oy = self.sum_y / n;
        (ox as i16, oy as i16)
    }
}

} // verus!
