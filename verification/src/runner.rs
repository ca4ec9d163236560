//! Child process lifecycle: the spawn, drain and wait sequence, and how the
//! child's termination becomes the runtime's own exit status.
//!
//! Spawning, reading the streams and waiting are the caller's side of the
//! boundary; this module owns the order of the stages and the exit status.
use vstd::prelude::*;

verus! {

/// The stages of one child process run, in the order they are reached.
#[derive(Debug, Clone, Copy, PartialEq, Eq)]
pub enum RunPhase {
    /// The child is being created; a spawn failure ends the run here.
    Spawning,
    /// The child runs with both its streams captured.
    Running,
    /// Both streams have been read to completion and re-emitted.
    Draining,
    /// The child has terminated and an exit status is settled.
    Exited,
}

/// The state machine of one child process run.
pub struct RunState {
    phase: RunPhase,
    exit_code: i32,
}

/// The exit status the runtime reports: the child's own code, or the
/// fallback 0 when the child terminated without one (killed by a signal).
pub fn resolve_exit_code(code: Option<i32>) -> (r: i32)
    ensures
        code matches Some(n) ==> r == n,
        code is None ==> r == 0,
{
    match code {
        Some(n) => n,
        None => 0,
    }
}

impl RunState {
    /// The current stage.
    pub closed spec fn phase(&self) -> RunPhase {
        self.phase
    }

    /// The settled exit status; meaningful once exited.
    pub closed spec fn exit_code(&self) -> i32 {
        self.exit_code
    }

    /// A run about to spawn its child.
    pub fn new() -> (r: RunState)
        ensures
            r.phase() == RunPhase::Spawning,
    {
        RunState { phase: RunPhase::Spawning, exit_code: 0 }
    }

    /// Records that the child was created with its streams captured.
    pub fn spawned(&mut self)
        requires
            old(self).phase() == RunPhase::Spawning,
        ensures
            final(self).phase() == RunPhase::Running,
    {
        self.phase = RunPhase::Running;
    }

    /// Records that both streams were read to completion.
    pub fn drained(&mut self)
        requires
            old(self).phase() == RunPhase::Running,
        ensures
            final(self).phase() == RunPhase::Draining,
    {
        self.phase = RunPhase::Draining;
    }

    /// Records the child's termination: its own exit code, or the fallback 0
    /// when it terminated without one.
    pub fn exited(&mut self, code: Option<i32>)
        requires
            old(self).phase() == RunPhase::Draining,
        ensures
            final(self).phase() == RunPhase::Exited,
            code matches Some(n) ==> final(self).exit_code() == n,
            code is None ==> final(self).exit_code() == 0,
    {
        self.phase = RunPhase::Exited;
        self.exit_code = resolve_exit_code(code);
    }

    /// The exit status to terminate with; owed once the child has exited.
    pub fn report(&self) -> (r: i32)
        requires
            self.phase() == RunPhase::Exited,
        ensures
            r == self.exit_code(),
    {
        self.exit_code
    }
}

} // verus!
