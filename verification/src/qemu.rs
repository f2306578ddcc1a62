//! The codes with which the kernel leaves the emulator when it runs its tests.

use vstd::prelude::*;

verus! {

/// The outcome of a run of the kernel's tests.
#[derive(Debug, Clone, Copy, Eq, PartialEq, Structural)]
pub enum ExitCode {
    Success,
    Failed,
}

impl ExitCode {
    /// The value written to the exit port of the emulator.
    pub fn code(self) -> (r: u32)
        ensures
            r == match self {
                ExitCode::Success => 0x10u32,
                ExitCode::Failed => 0x11u32,
            },
    {
        match self {
            ExitCode::Success => 0x10,
            ExitCode::Failed => 0x11,
        }
    }
}

} // verus!
