//! The joystick filter: raw readings are taken relative to the calibrated
//! rest position, and each axis reports the mean of its last
//! `SAMPLE_LENGTH` readings.
use vstd::prelude::*;

use crate::arith::{
    constant_seq, lemma_div_trunc_fits, lemma_sum_bounds, lemma_trunc_mean_constant,
    lemma_trunc_mean_shifted, shift_fits, shifted, sum_of, trunc_mean,
};
use crate::calibration::{Calibration, CALIBRATION_SAMPLES};
use crate::window::{after_pushes, lemma_steady_input_average, SampleWindow, SAMPLE_LENGTH};

verus! {

/// What the filter reports after a reading: the smoothed position on both
/// axes, and whether a full window of readings has gone by since the last
/// report, upon which the firmware recalibrates the converter and logs the
/// position.
#[derive(Clone, Copy, Debug, PartialEq, Eq, Structural)]
pub struct JoystickReading {
    pub x: i16,
    pub y: i16,
    pub report: bool,
}

/// A raw reading taken relative to the rest position.
pub open spec fn centred(raw: i16, offset: i16) -> i16 {
    (raw - offset) as i16
}

/// Whether a raw reading can be taken relative to the rest position without
/// leaving the range of an `i16`.
pub open spec fn centres(raw: i16, offset: i16) -> bool {
    i16::MIN <= raw - offset <= i16::MAX
}

/// The smoothing state of both joystick axes.
#[derive(Clone, Copy)]
pub struct JoystickFilter {
    offset_x: i16,
    offset_y: i16,
    window_x: SampleWindow,
    window_y: SampleWindow,
}

impl JoystickFilter {
    /// Rest position on the horizontal axis.
    pub closed spec fn spec_offset_x(&self) -> i16 {
        self.offset_x
    }

    /// Rest position on the vertical axis.
    pub closed spec fn spec_offset_y(&self) -> i16 {
        self.offset_y
    }

    /// The centred horizontal readings held, oldest first.
    pub closed spec fn xs(&self) -> Seq<i16> {
        self.window_x@
    }

    /// The centred vertical readings held, oldest first.
    pub closed spec fn ys(&self) -> Seq<i16> {
        self.window_y@
    }

    /// The slot both windows overwrite next.
    pub closed spec fn cursor(&self) -> nat {
        self.window_x.cursor()
    }

    /// Both windows are well formed and move in step.
    pub closed spec fn well_formed(&self) -> bool {
        &&& self.window_x.well_formed()
        &&& self.window_y.well_formed()
        &&& self.window_x.cursor() == self.window_y.cursor()
    }

    /// A well-formed filter holds `SAMPLE_LENGTH` readings on each axis.
    pub proof fn lemma_shape(&self)
        requires
            self.well_formed(),
        ensures
            self.xs().len() == SAMPLE_LENGTH,
            self.ys().len() == SAMPLE_LENGTH,
            self.cursor() < SAMPLE_LENGTH,
    {
        self.window_x.lemma_shape();
        self.window_y.lemma_shape();
    }

    /// A filter around the rest position `(offset_x, offset_y)` whose windows
    /// hold zeros.
    pub fn new(offset_x: i16, offset_y: i16) -> (f: Self)
        ensures
            f.well_formed(),
            f.spec_offset_x() == offset_x,
            f.spec_offset_y() == offset_y,
            f.xs() == constant_seq(0, SAMPLE_LENGTH as nat),
            f.ys() == constant_seq(0, SAMPLE_LENGTH as nat),
            f.cursor() == 0,
    {
        JoystickFilter {
            offset_x,
            offset_y,
            window_x: SampleWindow::new(),
            window_y: SampleWindow::new(),
        }
    }

    /// A filter around the rest position that a complete calibration found.
    pub fn from_calibration(cal: &Calibration) -> (f: Self)
        requires
            cal.well_formed(),
            cal.xs().len() == CALIBRATION_SAMPLES,
        ensures
            f.well_formed(),
            f.spec_offset_x() == trunc_mean(cal.xs()),
            f.spec_offset_y() == trunc_mean(cal.ys()),
            f.xs() == constant_seq(0, SAMPLE_LENGTH as nat),
            f.ys() == constant_seq(0, SAMPLE_LENGTH as nat),
            f.cursor() == 0,
    {
        let (ox, oy) = cal.offsets();
        Self::new(ox, oy)
    }

    /// Rest position on the horizontal axis.
    pub fn offset_x(&self) -> (o: i16)
        ensures
            o == self.spec_offset_x(),
    {
        self.offset_x
    }

    /// Rest position on the vertical axis.
    pub fn offset_y(&self) -> (o: i16)
        ensures
            o == self.spec_offset_y(),
    {
        self.offset_y
    }

    /// Whether a raw reading can be centred on both axes.
    pub fn accepts(&self, raw_x: i16, raw_y: i16) -> (ok: bool)
        ensures
            ok == (centres(raw_x, self.spec_offset_x()) && centres(raw_y, self.spec_offset_y())),
    {
        let dx = raw_x as i32 - self.offset_x as i32;
        let dy = raw_y as i32 - self.offset_y as i32;
        -32768 <= dx && dx <= 32767 && -32768 <= dy && dy <= 32767
    }

    /// Takes one raw reading: stores it, centred, over the oldest reading of
    /// each axis, and reports the mean of each window.
    pub fn record(&mut self, raw_x: i16, raw_y: i16) -> (r: JoystickReading)
        requires
            old(self).well_formed(),
            centres(raw_x, old(self).spec_offset_x()),
            centres(raw_y, old(self).spec_offset_y()),
        ensures
            final(self).well_formed(),
            final(self).spec_offset_x() == old(self).spec_offset_x(),
            final(self).spec_offset_y() == old(self).spec_offset_y(),
            final(self).xs() == old(self).xs().drop_first().push(
                centred(raw_x, old(self).spec_offset_x()),
            ),
            final(self).ys() == old(self).ys().drop_first().push(
                centred(raw_y, old(self).spec_offset_y()),
            ),
            final(self).cursor() == (old(self).cursor() + 1) % (SAMPLE_LENGTH as nat),
            final(self).xs().last() == raw_x - old(self).spec_offset_x(),
            final(self).ys().last() == raw_y - old(self).spec_offset_y(),
            r.x == trunc_mean(final(self).xs()),
            r.y == trunc_mean(final(self).ys()),
            r.report == (final(self).cursor() == 0),
    {
        let dx = raw_x - self.offset_x;
        let dy = raw_y - self.offset_y;
        let wrapped = self.window_x.push(dx);
        self.window_y.push(dy);
        let x = self.window_x.average();
        let y = self.window_y.average();
        JoystickReading { x, y, report: wrapped }
    }
}

impl JoystickFilter {
    /// Stores one raw reading, centred, over the oldest reading of each axis,
    /// without working out the means.
    pub fn store(&mut self, raw_x: i16, raw_y: i16)
        requires
            old(self).well_formed(),
            centres(raw_x, old(self).spec_offset_x()),
            centres(raw_y, old(self).spec_offset_y()),
        ensures
            final(self).well_formed(),
            final(self).spec_offset_x() == old(self).spec_offset_x(),
            final(self).spec_offset_y() == old(self).spec_offset_y(),
            final(self).xs() == old(self).xs().drop_first().push(
                centred(raw_x, old(self).spec_offset_x()),
            ),
            final(self).ys() == old(self).ys().drop_first().push(
                centred(raw_y, old(self).spec_offset_y()),
            ),
            final(self).cursor() == (old(self).cursor() + 1) % (SAMPLE_LENGTH as nat),
            final(self).xs().last() == raw_x - old(self).spec_offset_x(),
            final(self).ys().last() == raw_y - old(self).spec_offset_y(),
    {
        let dx = raw_x - self.offset_x;
        let dy = raw_y - self.offset_y;
        self.window_x.push(dx);
        self.window_y.push(dy);
    }
}

/// Centring a reading subtracts the rest position, exactly, for every
/// reading whose difference from the rest position fits an `i16`: nothing is
/// folded, clipped or scaled.
pub proof fn lemma_centred_is_difference(raw: i16, offset: i16)
    requires
        centres(raw, offset),
    ensures
        centred(raw, offset) == raw - offset,
{
}

/// A stick held at `raw` for a full window, on a filter at rest position
/// `offset`, reports exactly `raw - offset`, whatever the window held before.
pub proof fn lemma_held_reading_reports_difference(held: Seq<i16>, raw: i16, offset: i16)
    requires
        held.len() == SAMPLE_LENGTH,
        centres(raw, offset),
    ensures
        trunc_mean(after_pushes(held, constant_seq(centred(raw, offset), SAMPLE_LENGTH as nat)))
            == raw - offset,
{
    lemma_centred_is_difference(raw, offset);
    lemma_steady_input_average(held, centred(raw, offset));
}

/// A stick left at rest reads zero: when every calibration sample and every
/// later reading is the same value `c`, the rest position is `c`, and after
/// a full window of readings both axes report zero.
pub proof fn lemma_rest_reads_zero(c: i16, held: Seq<i16>)
    requires
        held.len() == SAMPLE_LENGTH,
    ensures
        trunc_mean(constant_seq(c, CALIBRATION_SAMPLES as nat)) == c,
        trunc_mean(
            after_pushes(held, constant_seq(centred(c, c), SAMPLE_LENGTH as nat)),
        ) == 0,
{
    lemma_trunc_mean_constant(c, CALIBRATION_SAMPLES as nat);
    lemma_steady_input_average(held, centred(c, c));
}

/// Moving every reading on an axis by `dx`, the calibration readings
/// included, moves the rest position by `dx` and leaves every centred reading,
/// and so every logged position, unchanged, provided the calibration sum stays
/// on the same side of zero.
pub proof fn lemma_shift_leaves_readings_unchanged(cal: Seq<i16>, raws: Seq<i16>, dx: int)
    requires
        cal.len() == CALIBRATION_SAMPLES,
        shift_fits(cal, dx),
        shift_fits(raws, dx),
        (sum_of(cal) >= 0 && sum_of(cal) + cal.len() * dx >= 0) || (sum_of(cal) <= 0 && sum_of(
            cal,
        ) + cal.len() * dx <= 0),
    ensures
        trunc_mean(shifted(cal, dx)) == trunc_mean(cal) + dx,
        forall|k: int|
            0 <= k < raws.len() ==> centred(
                #[trigger] shifted(raws, dx)[k],
                trunc_mean(shifted(cal, dx)) as i16,
            ) == centred(raws[k], trunc_mean(cal) as i16),
{
    lemma_trunc_mean_shifted(cal, dx);
    lemma_sum_bounds(cal);
    lemma_sum_bounds(shifted(cal, dx));
    lemma_div_trunc_fits(sum_of(cal), cal.len() as int);
    lemma_div_trunc_fits(sum_of(shifted(cal, dx)), cal.len() as int);
    assert forall|k: int| 0 <= k < raws.len() implies centred(
        #[trigger] shifted(raws, dx)[k],
        trunc_mean(shifted(cal, dx)) as i16,
    ) == centred(raws[k], trunc_mean(cal) as i16) by {
        assert(i16::MIN <= raws[k] + dx <= i16::MAX);
        assert(shifted(raws, dx)[k] == raws[k] + dx);
    }
}

} // verus!
