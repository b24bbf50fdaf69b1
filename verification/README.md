# duck-control: the motor bus, verified

The robot's fifteen servos and its IMU board share one serial bus. This crate holds
everything that bus logic decides, proved with Verus; `app/` holds the serial ports, the
servo controllers and the floating-point sensor values.

## Layout

- `src/model.rs`: the bus layout (joint IDs, IMU ID, speeds, expected EEPROM registers).
- `src/stale.rs`: detection of an IMU board that repeats its last sample, with its laws.
- `src/dxl.rs`: decoding of the per-tick block of every device and of the slow
  voltage/temperature block, in raw counts.
- `src/feetech.rs`: Feetech frames, checksums and status-frame checks, with the frame
  round-trip law.
- `src/action.rs`: the actions a bus procedure hands out and the events it is given back.
- `src/audit.rs`: the EEPROM register check, as a state machine.
- `src/torque.rs`: the torque sweep that writes every servo whatever the others answered.
- `src/adopt.rs`: adoption of a factory-fresh servo, ending with the bus at its speed.
- `src/replacement.rs`: the startup census and the choice of the servo to replace.
- `src/gains.rs`: the position-loop gain writes.
- `app/`: `DynamixelIo`, `FeetechIo` and `BusIo`, which perform the actions on real ports.

Each procedure is stated as a spec transition function (`audit_next`, `torque_next`,
`adopt_next`); the executable `step` methods are proved to follow it, and the laws are proof
functions over those transitions.
