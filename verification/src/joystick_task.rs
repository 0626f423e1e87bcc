//! The joystick task as a state machine: it first averages the rest
//! position, then fills the smoothing windows, then reports the smoothed
//! position once per window. The task loop hands it each raw reading and
//! carries out the action it answers with.
use vstd::prelude::*;

use crate::arith::{constant_seq, trunc_mean};
use crate::calibration::{Calibration, CALIBRATION_SAMPLES};
use crate::joystick::{centred, centres, JoystickFilter};
use crate::window::SAMPLE_LENGTH;

verus! {

/// Wait after each calibration reading, in microseconds.
pub const CALIBRATION_WAIT_MICROS: u64 = 1000;

/// Wait after each reading that fills the windows, in microseconds.
pub const FILL_WAIT_MICROS: u64 = 10;

/// A smoothed joystick position.
#[derive(Clone, Copy, Debug, PartialEq, Eq, Structural)]
pub struct Position {
    pub x: i16,
    pub y: i16,
}

/// What the task loop does after handing over a reading: recalibrate the
/// converter if `calibrate_adc` holds, log the smoothed position if `log`
/// holds one, then wait `wait_micros` microseconds before the next reading.
#[derive(Clone, Copy, Debug, PartialEq, Eq, Structural)]
pub struct JoystickAction {
    pub calibrate_adc: bool,
    pub log: Option<Position>,
    pub wait_micros: u64,
}

/// The phase of the joystick task.
pub enum JoystickTask {
    /// Averaging the rest position.
    Calibrating(Calibration),
    /// Filling the smoothing windows; the count of readings stored so far.
    Filling(JoystickFilter, usize),
    /// Reporting the smoothed position.
    Running(JoystickFilter),
}

impl JoystickTask {
    /// The phase's own state is well formed, and a phase that has read all it
    /// needs has moved on.
    pub open spec fn well_formed(&self) -> bool {
        match self {
            JoystickTask::Calibrating(c) => c.well_formed() && c.xs().len() < CALIBRATION_SAMPLES,
            JoystickTask::Filling(f, n) => f.well_formed() && *n < SAMPLE_LENGTH && f.cursor()
                == *n,
            JoystickTask::Running(f) => f.well_formed(),
        }
    }

    /// Whether the task can take the raw reading: during calibration any
    /// reading, afterwards one that centres on both axes.
    pub open spec fn spec_accepts(&self, raw_x: i16, raw_y: i16) -> bool {
        match self {
            JoystickTask::Calibrating(_) => true,
            JoystickTask::Filling(f, _) => centres(raw_x, f.spec_offset_x()) && centres(
                raw_y,
                f.spec_offset_y(),
            ),
            JoystickTask::Running(f) => centres(raw_x, f.spec_offset_x()) && centres(
                raw_y,
                f.spec_offset_y(),
            ),
        }
    }

    /// The task as it starts: calibrating, with nothing read.
    pub fn new() -> (t: Self)
        ensures
            t.well_formed(),
            t matches JoystickTask::Calibrating(c) && c.xs() == Seq::<i16>::empty() && c.ys()
                == Seq::<i16>::empty(),
    {
        JoystickTask::Calibrating(Calibration::new())
    }

    /// Whether the task can take the raw reading.
    pub fn accepts(&self, raw_x: i16, raw_y: i16) -> (ok: bool)
        ensures
            ok == self.spec_accepts(raw_x, raw_y),
    {
        match self {
            JoystickTask::Calibrating(_) => true,
            JoystickTask::Filling(f, _) => f.accepts(raw_x, raw_y),
            JoystickTask::Running(f) => f.accepts(raw_x, raw_y),
        }
    }

    /// Takes one raw reading and answers what to do before the next.
    pub fn on_sample(&mut self, raw_x: i16, raw_y: i16) -> (action: JoystickAction)
        requires
            old(self).well_formed(),
            old(self).spec_accepts(raw_x, raw_y),
        ensures
            final(self).well_formed(),
            match *old(self) {
                JoystickTask::Calibrating(c) => {
                    let xs = c.xs().push(raw_x);
                    let ys = c.ys().push(raw_y);
                    &&& action == (JoystickAction {
                        calibrate_adc: true,
                        log: None,
                        wait_micros: CALIBRATION_WAIT_MICROS,
                    })
                    &&& if xs.len() < CALIBRATION_SAMPLES {
                        *final(self) matches JoystickTask::Calibrating(c2) && c2.xs() == xs
                            && c2.ys() == ys
                    } else {
                        *final(self) matches JoystickTask::Filling(f, n) && n == 0
                            && f.spec_offset_x() == trunc_mean(xs) && f.spec_offset_y()
                            == trunc_mean(ys) && f.xs() == constant_seq(0, SAMPLE_LENGTH as nat)
                            && f.ys() == constant_seq(0, SAMPLE_LENGTH as nat)
                    }
                },
                JoystickTask::Filling(f, n) => {
                    let xs = f.xs().drop_first().push(centred(raw_x, f.spec_offset_x()));
                    let ys = f.ys().drop_first().push(centred(raw_y, f.spec_offset_y()));
                    &&& action == (JoystickAction {
                        calibrate_adc: false,
                        log: None,
                        wait_micros: FILL_WAIT_MICROS,
                    })
                    &&& if n + 1 < SAMPLE_LENGTH {
                        *final(self) matches JoystickTask::Filling(f2, n2) && n2 == n + 1
                            && f2.spec_offset_x() == f.spec_offset_x() && f2.spec_offset_y()
                            == f.spec_offset_y() && f2.xs() == xs && f2.ys() == ys
                            && f2.xs().last() == raw_x - f.spec_offset_x() && f2.ys().last()
                            == raw_y - f.spec_offset_y()
                    } else {
                        *final(self) matches JoystickTask::Running(f2) && f2.spec_offset_x()
                            == f.spec_offset_x() && f2.spec_offset_y() == f.spec_offset_y()
                            && f2.xs() == xs && f2.ys() == ys && f2.cursor() == 0
                            && f2.xs().last() == raw_x - f.spec_offset_x() && f2.ys().last()
                            == raw_y - f.spec_offset_y()
                    }
                },
                JoystickTask::Running(f) => {
                    let xs = f.xs().drop_first().push(centred(raw_x, f.spec_offset_x()));
                    let ys = f.ys().drop_first().push(centred(raw_y, f.spec_offset_y()));
                    let cursor = (f.cursor() + 1) % (SAMPLE_LENGTH as nat);
                    &&& *final(self) matches JoystickTask::Running(f2) && f2.spec_offset_x()
                        == f.spec_offset_x() && f2.spec_offset_y() == f.spec_offset_y() && f2.xs()
                        == xs && f2.ys() == ys && f2.cursor() == cursor
                        && f2.xs().last() == raw_x - f.spec_offset_x() && f2.ys().last()
                        == raw_y - f.spec_offset_y()
                    &&& action.calibrate_adc == (cursor == 0)
                    &&& action.wait_micros == 0
                    &&& action.log == if cursor == 0 {
                        Some(Position { x: trunc_mean(xs) as i16, y: trunc_mean(ys) as i16 })
                    } else {
                        None::<Position>
                    }
                },
            },
    {
        let ghost before = *self;
        match self {
            JoystickTask::Calibrating(c) => {
                c.add(raw_x, raw_y);
                if c.is_complete() {
                    let f = JoystickFilter::from_calibration(c);
                    *self = JoystickTask::Filling(f, 0);
                }
                JoystickAction {
                    calibrate_adc: true,
                    log: None,
                    wait_micros: CALIBRATION_WAIT_MICROS,
                }
            },
            JoystickTask::Filling(f, n) => {
                proof {
                    f.lemma_shape();
                }
                f.store(raw_x, raw_y);
                if *n + 1 < SAMPLE_LENGTH {
                    *n = *n + 1;
                } else {
                    let filled = *f;
                    *self = JoystickTask::Running(filled);
                }
                JoystickAction { calibrate_adc: false, log: None, wait_micros: FILL_WAIT_MICROS }
            },
            JoystickTask::Running(f) => {
                let reading = f.record(raw_x, raw_y);
                let log = if reading.report {
                    Some(Position { x: reading.x, y: reading.y })
                } else {
                    None
                };
                JoystickAction { calibrate_adc: reading.report, log, wait_micros: 0 }
            },
        }
    }
}

} // verus!
