//! The vocabulary shared by the bus procedures: what a procedure asks the bus to do next,
//! and what the bus answered.
//!
//! A procedure is a state machine. It hands out one action at a time; whoever owns the
//! serial port performs it, reports the outcome, and is handed the next action, until the
//! procedure finishes. A transport failure ends the procedure where it stands.

use vstd::prelude::*;
use crate::model::Register;

verus! {

/// Pause after each EEPROM write, in milliseconds: the servo acknowledges before the cell is
/// necessarily committed.
pub const EEPROM_SETTLE_MS: u64 = 20;

/// How long a servo is off the bus after a reboot, in milliseconds.
pub const REBOOT_SETTLE_MS: u64 = 500;

/// One exchange with the bus, or a pause.
#[derive(Clone, Copy, Debug, PartialEq, Eq, Structural)]
pub enum BusAction {
    /// Read one EEPROM register of servo `id`.
    ReadRegister { id: u8, register: Register },
    /// Write `value` to one EEPROM register of servo `id`.
    WriteRegister { id: u8, register: Register, value: u8 },
    /// Give the servo answering as `current` the ID `new`.
    WriteId { current: u8, new: u8 },
    /// Switch the torque of servo `id`.
    WriteTorque { id: u8, on: bool },
    /// Ask whether anything answers as `id`.
    Ping { id: u8 },
    /// Close the port and open it again at `baud`.
    Reopen { baud: u32 },
    /// Reboot servo `id`.
    Reboot { id: u8 },
    /// Read the hardware error status of servo `id`.
    ReadHardwareError { id: u8 },
    /// Wait before the next exchange.
    Pause { millis: u64 },
}

/// What performing an action gave back.
#[derive(Clone, Copy, Debug, PartialEq, Eq, Structural)]
pub enum BusEvent {
    /// The action completed and has nothing to report.
    Done,
    /// A ping was, or was not, answered.
    Answered(bool),
    /// A register read returned this first byte, or nothing.
    Value(Option<u8>),
}

/// What a procedure wants next.
#[derive(Clone, Copy, Debug, PartialEq, Eq, Structural)]
pub enum Next {
    Perform(BusAction),
    Finish,
}

} // verus!
