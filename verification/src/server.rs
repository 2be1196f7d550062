//! The decisions of the server: what follows an attempt to accept a
//! connection, the end of a connection, and the wait for an interrupt.
//!
//! The server that owns the listening socket performs what is decided
//! here and reports back what happened.

use vstd::prelude::*;
use crate::constants::ExitCode;

verus! {

/// How an attempt to accept a connection ended.
#[derive(Debug, Clone, Copy, PartialEq, Eq, Structural)]
pub enum AcceptOutcome {
    /// A client connected.
    Connected,
    /// The listener failed.
    Failed,
}

/// What the accept loop does next.
#[derive(Debug, Clone, Copy, PartialEq, Eq, Structural)]
pub enum LoopStep {
    /// Hand the connection to a task of its own and go on listening.
    SpawnHandler,
    /// Leave the loop and hand the listener's error to the caller.
    Abort,
}

/// How the handling of one connection ended.
#[derive(Debug, Clone, Copy, PartialEq, Eq, Structural)]
pub enum ConnectionOutcome {
    /// The client was served until it left.
    Completed,
    /// The connection broke, or the client violated the protocol.
    Failed,
}

/// What a connection's task does once the handling has ended.
#[derive(Debug, Clone, Copy, PartialEq, Eq, Structural)]
pub enum TaskStep {
    /// Register a watcher for the interrupt signal.
    ArmShutdownWatcher,
    /// Log the error and end the task of that connection, leaving the others alone.
    EndTask,
}

/// How the wait for the interrupt signal ended.
#[derive(Debug, Clone, Copy, PartialEq, Eq, Structural)]
pub enum SignalOutcome {
    /// The interrupt arrived.
    Interrupted,
    /// The signal could not be awaited.
    WatchFailed,
}

/// The step owed after an attempt to accept.
pub open spec fn step_after_accept(outcome: AcceptOutcome) -> LoopStep {
    match outcome {
        AcceptOutcome::Connected => LoopStep::SpawnHandler,
        AcceptOutcome::Failed => LoopStep::Abort,
    }
}

/// The step owed after the handling of a connection.
pub open spec fn step_after_connection(outcome: ConnectionOutcome) -> TaskStep {
    match outcome {
        ConnectionOutcome::Completed => TaskStep::ArmShutdownWatcher,
        ConnectionOutcome::Failed => TaskStep::EndTask,
    }
}

/// The exit status owed after the wait for the interrupt.
pub open spec fn exit_code_after(outcome: SignalOutcome) -> ExitCode {
    match outcome {
        SignalOutcome::Interrupted => ExitCode::Success,
        SignalOutcome::WatchFailed => ExitCode::Shutdown,
    }
}

/// Decides how the accept loop goes on: a connection is served in a task of
/// its own while the loop keeps listening; a failure of the listener ends
/// the loop.
pub fn after_accept(outcome: AcceptOutcome) -> (step: LoopStep)
    ensures
        step == step_after_accept(outcome),
{
    match outcome {
        AcceptOutcome::Connected => LoopStep::SpawnHandler,
        AcceptOutcome::Failed => LoopStep::Abort,
    }
}

/// Decides what a connection's task does once the handling has ended: a
/// failure ends that task only.
pub fn after_connection(outcome: ConnectionOutcome) -> (step: TaskStep)
    ensures
        step == step_after_connection(outcome),
{
    match outcome {
        ConnectionOutcome::Completed => TaskStep::ArmShutdownWatcher,
        ConnectionOutcome::Failed => TaskStep::EndTask,
    }
}

/// Decides the status with which the process exits once the wait for the
/// interrupt has ended: the clean status after an interrupt, and another,
/// not zero, where the signal could not be awaited.
pub fn shutdown_exit_code(outcome: SignalOutcome) -> (code: ExitCode)
    ensures
        code == exit_code_after(outcome),
        outcome == SignalOutcome::Interrupted <==> code.spec_code() == 0,
{
    match outcome {
        SignalOutcome::Interrupted => ExitCode::Success,
        SignalOutcome::WatchFailed => ExitCode::Shutdown,
    }
}

} // verus!
