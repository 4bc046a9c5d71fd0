//! Diagnostic exit device: a single write-only port that a hosting emulator
//! reads as a termination request. The device is modelled by the ordered
//! sequence of status codes ever written to the port; a well-behaved run
//! writes exactly one. The write itself never halts execution: callers must
//! still idle afterwards, which belongs to the hardware shell around the
//! library.

use vstd::prelude::*;

verus! {

/// The code a run ends with, as the host is asked to see it.
#[derive(Clone, Copy, PartialEq, Eq, Structural, Debug)]
pub enum ExitCode {
    Success,
    Failure,
}

/// Port encoding of a successful run.
pub const EXIT_SUCCESS_CODE: u32 = 0x10;

/// Port encoding of a failed run.
pub const EXIT_FAILURE_CODE: u32 = 0x11;

/// The 32-bit value written to the port for an exit code.
pub open spec fn exit_code_value(code: ExitCode) -> u32 {
    match code {
        ExitCode::Success => EXIT_SUCCESS_CODE,
        ExitCode::Failure => EXIT_FAILURE_CODE,
    }
}

/// The diagnostic exit port, observed through the codes written to it.
pub struct ExitDevice {
    /// Every code written to the port so far, oldest first.
    pub signals: Vec<u32>,
}

impl ExitDevice {
    /// A device that nothing has signalled yet.
    pub fn new() -> (d: ExitDevice)
        ensures
            d.signals@ == Seq::<u32>::empty(),
    {
        ExitDevice { signals: Vec::new() }
    }

    /// Performs the single port write for `code`: exactly one more value,
    /// the fixed encoding of `code`, appears on the port.
    pub fn signal(&mut self, code: ExitCode)
        ensures
            final(self).signals@ == old(self).signals@.push(exit_code_value(code)),
    {
        let value = match code {
            ExitCode::Success => EXIT_SUCCESS_CODE,
            ExitCode::Failure => EXIT_FAILURE_CODE,
        };
        self.signals.push(value);
    }
}

} // verus!
