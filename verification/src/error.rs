//! The kinds of failure that the control core and its hardware layer report.

use vstd::prelude::*;

verus! {

/// Why an operation of the control core, or of the hardware beneath it, failed.
#[derive(Clone, Copy, Debug, PartialEq, Eq, Structural)]
pub enum ControlError {
    /// A bus or a pin could not be acquired at startup.
    HardwareInitFailure,
    /// A sensor poll ran past its time bound.
    Timeout,
    /// A caller passed a value that no register or actuator can take.
    InvalidParameter,
    /// A bus transaction failed; the state of the bus is uncertain from here on.
    RegisterWriteFailure,
}

impl ControlError {
    /// Whether trying again can help: only a timed-out poll is retried.
    pub open spec fn spec_is_recoverable(self) -> bool {
        self == ControlError::Timeout
    }

    /// Whether trying again can help: only a timed-out poll is retried.
    #[verifier::when_used_as_spec(spec_is_recoverable)]
    pub fn is_recoverable(self) -> (r: bool)
        ensures
            r == self.spec_is_recoverable(),
    {
        match self {
            ControlError::Timeout => true,
            _ => false,
        }
    }
}

} // verus!
