# yaskbf

Firmware logic for a split keyboard built on the nice!nano (nRF52840), with
its decisions verified by Verus.

- `src/sweep.rs`: the progress sweep drawn on the Sharp memory display.
- `src/calibration.rs`, `src/window.rs`, `src/joystick.rs`,
  `src/joystick_task.rs`: the joystick's rest position, its moving average,
  and the task that drives them.
- `src/blink.rs`: the heartbeat and status LEDs.
- `src/config.rs`: chip and USB setup, and the answer to USB power events.
- `src/arith.rs`: sums and rounding toward zero, with their lemmas.
- `app/`: the embassy tasks and entry points that perform the I/O.
