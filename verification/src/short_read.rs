//! The one error the bus parsers produce: an answer shorter, or with fewer parts, than the
//! request called for.

use vstd::prelude::*;

verus! {

/// Which answer came back short.
#[derive(Clone, Copy, Debug, PartialEq, Eq, Structural)]
pub enum ReadSite {
    /// The per-tick sync read: one block per device.
    SyncReadBlocks,
    /// The IMU board's block in the per-tick read.
    ImuBlock,
    /// A servo's block in the per-tick read.
    MotorBlock,
    /// The voltage and temperature sync read: one block per joint.
    VoltageTemperatureBlocks,
    /// A servo's voltage and temperature block.
    VoltageTemperatureBlock,
    /// No servo reported a usable input voltage.
    InputVoltage,
    /// A single-register read that came back empty.
    RegisterRead,
    /// The present-position sync read.
    PresentPositions,
    /// A Feetech register read.
    FeetechRegisterRead,
    /// No Feetech servo to report an input voltage.
    FeetechInputVoltage,
}

/// An answer with `got` parts where `expected` were due.
#[derive(Clone, Copy, Debug, PartialEq, Eq, Structural)]
pub struct ShortRead {
    pub what: ReadSite,
    pub expected: usize,
    pub got: usize,
}

/// Checks that an answer has the number of parts the request called for.
pub fn check_count(what: ReadSite, expected: usize, got: usize) -> (r: Result<(), ShortRead>)
    ensures
        r == (if got == expected { Ok(()) } else { Err(ShortRead { what, expected, got }) }),
{
    if got == expected {
        Ok(())
    } else {
        Err(ShortRead { what, expected, got })
    }
}

} // verus!
