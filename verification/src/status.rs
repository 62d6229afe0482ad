//! Service lifecycle states and the transition table that governs them.

use vstd::prelude::*;

verus! {

/// Lifecycle state of a supervised child process.
#[derive(Debug, Clone, Copy, PartialEq, Eq, Structural)]
pub enum Status {
    /// initial status, before being spawned
    Created,
    /// process is running
    Running,
    /// process has finished with a `0` status code or on a polite termination
    Finished,
    /// process is alive but stopped
    Stopped,
    /// process has finished with a `!= 0` status code
    Crashed,
}

/// An observation that drives a lifecycle transition: either an explicit
/// (re)start or the outcome of reaping the child with `waitpid`.
#[derive(Debug, Clone, Copy, PartialEq, Eq, Structural)]
pub enum Trigger {
    /// start or restart requested
    Start,
    /// child exited with code 0
    ExitOk,
    /// child exited with a non-zero code
    ExitErr,
    /// child was terminated by the polite termination signal
    SignalTerm,
    /// child was terminated by another signal
    SignalOther,
    /// child was stopped by a stop signal
    SigStop,
    /// child resumed after a stop
    SigCont,
}

/// The state machine: which status results from `t` observed in state `s`;
/// `None` marks the pairs for which no transition is defined.
pub open spec fn next_status(s: Status, t: Trigger) -> Option<Status> {
    match t {
        Trigger::Start => Some(Status::Running),
        Trigger::ExitOk | Trigger::SignalTerm => match s {
            Status::Running | Status::Stopped => Some(Status::Finished),
            _ => None,
        },
        Trigger::ExitErr | Trigger::SignalOther => match s {
            Status::Running | Status::Stopped => Some(Status::Crashed),
            _ => None,
        },
        Trigger::SigStop => match s {
            Status::Running | Status::Stopped => Some(Status::Stopped),
            _ => None,
        },
        Trigger::SigCont => match s {
            Status::Stopped => Some(Status::Running),
            _ => None,
        },
    }
}

/// Number of the polite termination signal.
pub const SIGTERM_NUM: i32 = 15;

/// Low seven bits of a wait status: the terminating signal, if any.
pub open spec fn spec_term_signal(status: i32) -> int {
    (status as int) % 128
}

pub open spec fn spec_is_exited(status: i32) -> bool {
    spec_term_signal(status) == 0
}

pub open spec fn spec_exit_code(status: i32) -> int {
    ((status as int) / 256) % 256
}

pub open spec fn spec_is_signaled(status: i32) -> bool {
    1 <= spec_term_signal(status) <= 126
}

pub open spec fn spec_is_stopped(status: i32) -> bool {
    (status as int) % 256 == 127 && status != 0xffff
}

pub open spec fn spec_is_continued(status: i32) -> bool {
    status == 0xffff
}

/// The trigger encoded by a raw `waitpid` status, following the POSIX
/// encoding: low seven bits carry the terminating signal (0 for a plain
/// exit), the next byte the exit code, `0x7f` in the low byte marks a stop
/// and `0xffff` a continue.
pub open spec fn spec_wait_trigger(status: i32) -> Option<Trigger> {
    if spec_is_signaled(status) {
        if spec_term_signal(status) == SIGTERM_NUM {
            Some(Trigger::SignalTerm)
        } else {
            Some(Trigger::SignalOther)
        }
    } else if spec_is_exited(status) {
        if spec_exit_code(status) == 0 {
            Some(Trigger::ExitOk)
        } else {
            Some(Trigger::ExitErr)
        }
    } else if spec_is_stopped(status) {
        Some(Trigger::SigStop)
    } else if spec_is_continued(status) {
        Some(Trigger::SigCont)
    } else {
        None
    }
}

/// Decode a raw `waitpid` status into the trigger it represents.
pub fn classify_wait_status(status: i32) -> (t: Option<Trigger>)
    requires
        0 <= status < 65536,
    ensures
        t == spec_wait_trigger(status),
{
    let term: i32 = status % 128;
    if 1 <= term && term <= 126 {
        if term == SIGTERM_NUM {
            Some(Trigger::SignalTerm)
        } else {
            Some(Trigger::SignalOther)
        }
    } else if term == 0 {
        if (status / 256) % 256 == 0 {
            Some(Trigger::ExitOk)
        } else {
            Some(Trigger::ExitErr)
        }
    } else if status % 256 == 127 && status != 0xffff {
        Some(Trigger::SigStop)
    } else if status == 0xffff {
        Some(Trigger::SigCont)
    } else {
        None
    }
}

} // verus!
