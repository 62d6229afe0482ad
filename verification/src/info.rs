//! Per-service runtime information and its lifecycle transitions.

use vstd::prelude::*;

use crate::clock::wall_now_ms;
use crate::status::{next_status, spec_wait_trigger, Status, Trigger};
use crate::status::classify_wait_status;

verus! {

/// Snapshot of a service's runtime state.
///
/// Times are wall-clock milliseconds since the Unix epoch. `restarts`
/// counts entries into `Running` that were not a resume from `Stopped`.
///
/// `crashed` counts the current crash streak and drives the restart
/// backoff. The streak is counted where the crash is observed: entering
/// `Crashed` lengthens it, so the first observed crash already carries
/// streak 1 and books the restart at one base interval. Re-entering
/// `Running` straight out of `Crashed` keeps the streak (counting it there
/// instead would double-count each crash-restart cycle and skip backoff
/// steps); only a re-entry from a non-crashed state clears it.
#[derive(Debug, Clone, Copy, PartialEq, Eq, Structural)]
pub struct Info {
    /// process id of the running child, while one exists
    pub pid: Option<i32>,
    /// user intent: a finished or crashed service is restarted only while set
    pub active: bool,
    /// lifecycle state
    pub status: Status,
    /// when the child last entered `Running` (not set on resume)
    pub start_time: Option<u64>,
    /// when the child last left `Running`
    pub end_time: Option<u64>,
    /// number of starts
    pub restarts: usize,
    /// consecutive crashes; reset on a clean re-entry into `Running`
    pub crashed: usize,
}

/// The snapshot after entering `Running`: a resume from `Stopped` keeps
/// every counter and timestamp, any other entry stamps the start, counts
/// it, and clears the crash streak unless the service comes straight out
/// of `Crashed`.
pub open spec fn spec_set_running(pre: Info, pid: i32, now: u64) -> Info {
    if pre.status == Status::Stopped {
        Info { pid: Some(pid), status: Status::Running, end_time: None, ..pre }
    } else {
        Info {
            pid: Some(pid),
            status: Status::Running,
            end_time: None,
            start_time: Some(now),
            restarts: if pre.restarts == usize::MAX {
                usize::MAX
            } else {
                (pre.restarts + 1) as usize
            },
            crashed: if pre.status == Status::Crashed {
                pre.crashed
            } else {
                0
            },
            ..pre
        }
    }
}

/// The snapshot after one trigger of the state machine: the exact new
/// value of every field, for the pairs the table defines.
pub open spec fn spec_after_trigger(pre: Info, t: Trigger, pid: i32, now: u64) -> Info {
    match t {
        Trigger::Start | Trigger::SigCont => spec_set_running(pre, pid, now),
        Trigger::ExitOk | Trigger::SignalTerm => Info {
            pid: None,
            status: Status::Finished,
            end_time: Some(now),
            ..pre
        },
        Trigger::ExitErr | Trigger::SignalOther => Info {
            pid: None,
            status: Status::Crashed,
            end_time: Some(now),
            crashed: if pre.crashed == usize::MAX {
                usize::MAX
            } else {
                (pre.crashed + 1) as usize
            },
            ..pre
        },
        Trigger::SigStop => Info { status: Status::Stopped, end_time: Some(now), ..pre },
    }
}

impl Info {
    /// Structural invariant tying the fields to the lifecycle state.
    pub open spec fn wf(self) -> bool {
        &&& (self.pid is Some <==> (self.status == Status::Running || self.status
            == Status::Stopped))
        &&& (self.end_time is Some ==> (self.status == Status::Finished || self.status
            == Status::Crashed || self.status == Status::Stopped))
        &&& (self.status == Status::Crashed ==> self.crashed >= 1)
    }

    /// The initial snapshot: a created, active, never-started service.
    pub fn new() -> (r: Info)
        ensures
            r == (Info {
                pid: None,
                active: true,
                status: Status::Created,
                start_time: None,
                end_time: None,
                restarts: 0,
                crashed: 0,
            }),
            r.wf(),
    {
        Info {
            pid: None,
            active: true,
            status: Status::Created,
            start_time: None,
            end_time: None,
            restarts: 0,
            crashed: 0,
        }
    }

    /// Enter `Running` at wall time `now`.
    ///
    /// Resuming from `Stopped` keeps every counter and timestamp; any other
    /// entry stamps `start_time`, counts the start, and resets the crash
    /// streak unless the service comes straight out of `Crashed`.
    pub fn set_running_at(&mut self, pid: i32, now: u64)
        requires
            old(self).wf(),
        ensures
            final(self).wf(),
            final(self).status == Status::Running,
            final(self).pid == Some(pid),
            final(self).end_time is None,
            final(self).active == old(self).active,
            old(self).status == Status::Stopped ==> {
                &&& final(self).start_time == old(self).start_time
                &&& final(self).restarts == old(self).restarts
                &&& final(self).crashed == old(self).crashed
            },
            old(self).status != Status::Stopped ==> {
                &&& final(self).start_time == Some(now)
                &&& final(self).restarts == if old(self).restarts == usize::MAX {
                    usize::MAX as int
                } else {
                    old(self).restarts + 1
                }
                &&& final(self).crashed == if old(self).status == Status::Crashed {
                    old(self).crashed as int
                } else {
                    0
                }
            },
    {
        self.pid = Some(pid);
        if self.status != Status::Stopped {
            self.start_time = Some(now);
            self.restarts = self.restarts.saturating_add(1);
            if self.status != Status::Crashed {
                self.crashed = 0;
            }
        }
        self.status = Status::Running;
        self.end_time = None;
    }

    /// Enter `Running`, stamping the current wall clock.
    pub fn set_running(&mut self, pid: i32)
        requires
            old(self).wf(),
        ensures
            final(self).wf(),
            final(self).status == Status::Running,
            final(self).pid == Some(pid),
            final(self).end_time is None,
            final(self).active == old(self).active,
            old(self).status == Status::Stopped ==> {
                &&& final(self).start_time == old(self).start_time
                &&& final(self).restarts == old(self).restarts
                &&& final(self).crashed == old(self).crashed
            },
            old(self).status != Status::Stopped ==> {
                &&& final(self).start_time is Some
                &&& final(self).restarts == if old(self).restarts == usize::MAX {
                    usize::MAX as int
                } else {
                    old(self).restarts + 1
                }
                &&& final(self).crashed == if old(self).status == Status::Crashed {
                    old(self).crashed as int
                } else {
                    0
                }
            },
    {
        let now = wall_now_ms();
        self.set_running_at(pid, now);
    }

    /// Enter `Finished` at wall time `now`: the child is gone.
    pub fn set_finished_at(&mut self, now: u64)
        requires
            old(self).wf(),
        ensures
            final(self).wf(),
            *final(self) == (Info {
                pid: None,
                status: Status::Finished,
                end_time: Some(now),
                ..*old(self)
            }),
    {
        self.pid = None;
        self.status = Status::Finished;
        self.end_time = Some(now);
    }

    /// Enter `Finished`, stamping the current wall clock.
    pub fn set_finished(&mut self)
        requires
            old(self).wf(),
        ensures
            final(self).wf(),
            final(self).status == Status::Finished,
            final(self).pid is None,
            final(self).end_time is Some,
            final(self).active == old(self).active,
            final(self).start_time == old(self).start_time,
            final(self).restarts == old(self).restarts,
            final(self).crashed == old(self).crashed,
    {
        let now = wall_now_ms();
        self.set_finished_at(now);
    }

    /// Enter `Stopped` at wall time `now`: the child is alive but suspended.
    pub fn set_stopped_at(&mut self, now: u64)
        requires
            old(self).wf(),
            old(self).status == Status::Running || old(self).status == Status::Stopped,
        ensures
            final(self).wf(),
            *final(self) == (Info {
                status: Status::Stopped,
                end_time: Some(now),
                ..*old(self)
            }),
    {
        self.status = Status::Stopped;
        self.end_time = Some(now);
    }

    /// Enter `Stopped`, stamping the current wall clock.
    pub fn set_stopped(&mut self)
        requires
            old(self).wf(),
            old(self).status == Status::Running || old(self).status == Status::Stopped,
        ensures
            final(self).wf(),
            final(self).status == Status::Stopped,
            final(self).pid == old(self).pid,
            final(self).end_time is Some,
            final(self).active == old(self).active,
            final(self).start_time == old(self).start_time,
            final(self).restarts == old(self).restarts,
            final(self).crashed == old(self).crashed,
    {
        let now = wall_now_ms();
        self.set_stopped_at(now);
    }

    /// Enter `Crashed` at wall time `now`, lengthening the crash streak.
    pub fn set_crashed_at(&mut self, now: u64)
        requires
            old(self).wf(),
        ensures
            final(self).wf(),
            *final(self) == (Info {
                pid: None,
                status: Status::Crashed,
                end_time: Some(now),
                crashed: if old(self).crashed == usize::MAX {
                    usize::MAX
                } else {
                    (old(self).crashed + 1) as usize
                },
                ..*old(self)
            }),
    {
        self.pid = None;
        self.status = Status::Crashed;
        self.end_time = Some(now);
        self.crashed = self.crashed.saturating_add(1);
    }

    /// Enter `Crashed`, stamping the current wall clock.
    pub fn set_crashed(&mut self)
        requires
            old(self).wf(),
        ensures
            final(self).wf(),
            final(self).status == Status::Crashed,
            final(self).pid is None,
            final(self).end_time is Some,
            final(self).active == old(self).active,
            final(self).start_time == old(self).start_time,
            final(self).restarts == old(self).restarts,
            final(self).crashed == if old(self).crashed == usize::MAX {
                usize::MAX as int
            } else {
                old(self).crashed + 1
            },
    {
        let now = wall_now_ms();
        self.set_crashed_at(now);
    }

    /// Apply one trigger of the state machine at wall time `now`.
    ///
    /// The new snapshot is exactly `spec_after_trigger` of the old one: the
    /// resulting status follows `next_status`, the end time is stamped when
    /// the child leaves `Running`, and `pid` moves only together with its
    /// matching state change — set on a start or resume, cleared on an exit
    /// or crash, kept across a stop.
    pub fn apply_trigger(&mut self, t: Trigger, pid: i32, now: u64)
        requires
            old(self).wf(),
            next_status(old(self).status, t) is Some,
        ensures
            final(self).wf(),
            *final(self) == spec_after_trigger(*old(self), t, pid, now),
            Some(final(self).status) == next_status(old(self).status, t),
    {
        match t {
            Trigger::Start => self.set_running_at(pid, now),
            Trigger::ExitOk => self.set_finished_at(now),
            Trigger::ExitErr => self.set_crashed_at(now),
            Trigger::SignalTerm => self.set_finished_at(now),
            Trigger::SignalOther => self.set_crashed_at(now),
            Trigger::SigStop => self.set_stopped_at(now),
            Trigger::SigCont => self.set_running_at(pid, now),
        }
    }

    /// Drive the state machine from a raw `waitpid` result, as the
    /// supervisor does when reaping children: a report for another pid is
    /// ignored, and so is a status whose trigger has no transition from the
    /// current state. Returns the (possibly unchanged) status.
    pub fn set_terminated(&mut self, pid: i32, status: i32, now: u64) -> (r: Status)
        requires
            old(self).wf(),
            0 <= status < 65536,
        ensures
            final(self).wf(),
            r == final(self).status,
            old(self).pid != Some(pid) ==> *final(self) == *old(self),
            old(self).pid == Some(pid) ==> match spec_wait_trigger(status) {
                Some(t) => if next_status(old(self).status, t) is Some {
                    *final(self) == spec_after_trigger(*old(self), t, pid, now)
                } else {
                    *final(self) == *old(self)
                },
                None => *final(self) == *old(self),
            },
    {
        let matches_pid = match self.pid {
            Some(p) => p == pid,
            None => false,
        };
        if matches_pid {
            if let Some(t) = classify_wait_status(status) {
                let defined = match t {
                    Trigger::Start => true,
                    Trigger::ExitOk | Trigger::ExitErr | Trigger::SignalTerm
                        | Trigger::SignalOther | Trigger::SigStop => {
                        self.status == Status::Running || self.status == Status::Stopped
                    },
                    Trigger::SigCont => self.status == Status::Stopped,
                };
                if defined {
                    self.apply_trigger(t, pid, now);
                }
            }
        }
        self.status
    }
}

} // verus!
