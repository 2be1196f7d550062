//! Constants and exit codes shared by the store and the server.

use vstd::prelude::*;

verus! {

/// Loopback address with the store's conventional port.
pub const LOCAL_SOCKET_ADDR_STR: &'static str = "127.0.0.1:6379";

/// Loopback address with a port chosen by the operating system.
pub const LOCAL_SOCKET_ADDR_STR_TEST: &'static str = "127.0.0.1:0";

/// Length in bytes of the buffer used when handling a connection.
pub const BUFFER_LEN: usize = 512;

/// Exit statuses of the process.
#[derive(Debug, Clone, Copy, PartialEq, Eq, Structural)]
pub enum ExitCode {
    /// Clean shutdown after an interrupt.
    Success,
    /// Shutdown because the interrupt could not be awaited.
    Shutdown,
}

impl ExitCode {
    /// The status as a number, in the model of the contracts.
    pub open spec fn spec_code(self) -> i32 {
        match self {
            ExitCode::Success => 0i32,
            ExitCode::Shutdown => -1i32,
        }
    }

    /// The status handed to the operating system on exit.
    #[verifier::when_used_as_spec(spec_code)]
    pub fn code(self) -> (status: i32)
        ensures
            status == self.spec_code(),
    {
        match self {
            ExitCode::Success => 0i32,
            ExitCode::Shutdown => -1i32,
        }
    }
}

} // verus!
