//! Verified logic of a split-keyboard firmware: the display sweep, the
//! joystick calibration and smoothing, the heartbeat blinker and the USB
//! setup decisions. The hardware loops that drive them hand these modules
//! plain values and carry out the actions they answer with.

pub mod arith;
pub mod blink;
pub mod calibration;
pub mod config;
pub mod joystick;
pub mod joystick_task;
pub mod sweep;
pub mod window;
