//! Process-lifecycle decisions for one instance.
//!
//! The supervisor itself never touches the process table or the
//! filesystem: the caller reads the pid marker, runs the OS
//! process-status probe, queries the player count, and hands the plain
//! results in. Every decision made on those results — is the instance
//! running, may it be started, may it be stopped — is verified here.

use vstd::prelude::*;

verus! {

/// Liveness of an instance, from the presence of its pid marker and the
/// outcome of the OS process-status probe on the recorded pid (`None`
/// when the probe itself failed). An absent marker means not running; a
/// failed probe degrades to not running rather than erroring; only a
/// probe that succeeded means running.
pub fn interpret_liveness(marker_exists: bool, probe: Option<bool>) -> (running: bool)
    ensures
        running <==> (marker_exists && probe == Some(true)),
{
    if marker_exists {
        match probe {
            Some(alive) => alive,
            None => false,
        }
    } else {
        false
    }
}

/// What a start command does with an instance.
#[derive(Clone, Copy, Debug, PartialEq, Eq, Structural)]
pub enum StartDecision {
    /// The instance is already running: spawn nothing, report it.
    AlreadyRunning,
    /// Spawn the server process, then poll liveness until it holds.
    Spawn,
}

/// Start is idempotent: a running instance is never spawned again.
pub fn start_decision(running: bool) -> (d: StartDecision)
    ensures
        d == (if running {
            StartDecision::AlreadyRunning
        } else {
            StartDecision::Spawn
        }),
{
    if running {
        StartDecision::AlreadyRunning
    } else {
        StartDecision::Spawn
    }
}

/// What a stop command does with an instance.
#[derive(Clone, Copy, Debug, PartialEq, Eq, Structural)]
pub enum StopDecision {
    /// The instance is not running: nothing to terminate, report it.
    NotRunning,
    /// Players are online: terminate nothing, report the count.
    Skipped { players: u16 },
    /// Terminate the recorded pid, then poll liveness until it clears.
    Terminate,
}

/// Stop is non-destructive: an occupied instance is never terminated.
/// Termination is requested only for a running instance whose player
/// count is zero.
pub fn stop_decision(running: bool, players: u16) -> (d: StopDecision)
    ensures
        d == (if !running {
            StopDecision::NotRunning
        } else if players > 0 {
            StopDecision::Skipped { players }
        } else {
            StopDecision::Terminate
        }),
{
    if !running {
        StopDecision::NotRunning
    } else if players > 0 {
        StopDecision::Skipped { players }
    } else {
        StopDecision::Terminate
    }
}

} // verus!
