use vstd::prelude::*;

verus! {

/// `SIGINT` on Linux.
pub const SIGINT: i32 = 2;
/// `SIGILL` on Linux.
pub const SIGILL: i32 = 4;
/// `SIGABRT` on Linux.
pub const SIGABRT: i32 = 6;
/// `SIGBUS` on Linux.
pub const SIGBUS: i32 = 7;
/// `SIGFPE` on Linux.
pub const SIGFPE: i32 = 8;
/// `SIGKILL` on Linux.
pub const SIGKILL: i32 = 9;
/// `SIGSEGV` on Linux.
pub const SIGSEGV: i32 = 11;
/// `SIGPIPE` on Linux.
pub const SIGPIPE: i32 = 13;
/// `SIGTERM` on Linux.
pub const SIGTERM: i32 = 15;

/// How a worker process ended.
#[derive(Debug, Clone, Copy, PartialEq, Eq, Structural)]
pub enum ChildExit {
    /// It exited with this status.
    Exited(i32),
    /// A signal with this number ended it.
    Signaled(i32),
}

/// What the supervisor does once a worker ended.
#[derive(Debug, Clone, Copy, PartialEq, Eq, Structural)]
pub enum SupervisorAction {
    /// The worker shut down cleanly, or was told to: stop supervising.
    Stop,
    /// The worker could not be set up: stop, reporting a failure.
    Fail,
    /// Start a fresh worker on the same state.
    Restart,
    /// Store the input the worker last ran as a solution, then start a fresh
    /// worker on the same state.
    RecordAndRestart,
}

/// Whether signal `sig` is a fault raised by running the target.
pub open spec fn is_crash_signal(sig: i32) -> bool {
    sig == SIGSEGV || sig == SIGBUS || sig == SIGABRT || sig == SIGILL || sig == SIGFPE || sig
        == SIGPIPE
}

/// Whether signal `sig` asks the worker to end.
pub open spec fn is_termination_signal(sig: i32) -> bool {
    sig == SIGTERM || sig == SIGINT || sig == SIGKILL
}

/// The supervisor's decision when a worker ended as `exit`, where
/// `slot_valid` tells whether the worker's last-input slot holds the input
/// it was running.
pub open spec fn decision(exit: ChildExit, slot_valid: bool) -> SupervisorAction {
    match exit {
        ChildExit::Exited(0) => SupervisorAction::Stop,
        ChildExit::Exited(1) => SupervisorAction::Fail,
        ChildExit::Exited(status) => if status > 128 && is_termination_signal((status - 128) as i32) {
            SupervisorAction::Stop
        } else {
            SupervisorAction::Restart
        },
        ChildExit::Signaled(sig) => if is_termination_signal(sig) {
            SupervisorAction::Stop
        } else if is_crash_signal(sig) && slot_valid {
            SupervisorAction::RecordAndRestart
        } else {
            SupervisorAction::Restart
        },
    }
}

/// Decides what to do when a worker ended: a clean exit, or an end it was
/// asked for (a termination signal, or a shell status of 128 plus one),
/// stops; a failed setup (status 1) fails; a crash signal with a valid
/// last-input slot stores that input and restarts; anything else restarts.
pub fn on_child_exit(exit: ChildExit, slot_valid: bool) -> (r: SupervisorAction)
    ensures
        r == decision(exit, slot_valid),
{
    match exit {
        ChildExit::Exited(0) => SupervisorAction::Stop,
        ChildExit::Exited(1) => SupervisorAction::Fail,
        ChildExit::Exited(status) => {
            if status > 128 && is_termination(status - 128) {
                SupervisorAction::Stop
            } else {
                SupervisorAction::Restart
            }
        },
        ChildExit::Signaled(sig) => {
            if is_termination(sig) {
                SupervisorAction::Stop
            } else if is_crash(sig) && slot_valid {
                SupervisorAction::RecordAndRestart
            } else {
                SupervisorAction::Restart
            }
        },
    }
}

fn is_crash(sig: i32) -> (r: bool)
    ensures
        r == is_crash_signal(sig),
{
    sig == SIGSEGV || sig == SIGBUS || sig == SIGABRT || sig == SIGILL || sig == SIGFPE || sig
        == SIGPIPE
}

fn is_termination(sig: i32) -> (r: bool)
    ensures
        r == is_termination_signal(sig),
{
    sig == SIGTERM || sig == SIGINT || sig == SIGKILL
}

/// A worker that crashed while running an input is never stopped for good:
/// it is restarted, and its input is stored whenever the slot holds it.
pub proof fn lemma_crash_restarts(sig: i32, slot_valid: bool)
    requires
        is_crash_signal(sig),
    ensures
        slot_valid ==> decision(ChildExit::Signaled(sig), slot_valid)
            == SupervisorAction::RecordAndRestart,
        !slot_valid ==> decision(ChildExit::Signaled(sig), slot_valid) == SupervisorAction::Restart,
{
}

} // verus!
