use ppm::info::Info;
use ppm::scheduler::{Scheduler, SchedulerEvent};
use ppm::status::{classify_wait_status, Status, Trigger};

// wait statuses in the POSIX encoding
const EXIT_OK: i32 = 0;
const EXIT_ERR: i32 = 0x100; // exit code 1
const SIG_TERM: i32 = 15;
const SIG_KILL: i32 = 9;
const STOPPED: i32 = 0x137f; // stop signal in the high byte, 0x7f low
const CONTINUED: i32 = 0xffff;

#[test]
fn classify() {
    assert_eq!(Some(Trigger::ExitOk), classify_wait_status(EXIT_OK));
    assert_eq!(Some(Trigger::ExitErr), classify_wait_status(EXIT_ERR));
    assert_eq!(Some(Trigger::SignalTerm), classify_wait_status(SIG_TERM));
    assert_eq!(Some(Trigger::SignalOther), classify_wait_status(SIG_KILL));
    assert_eq!(Some(Trigger::SigStop), classify_wait_status(STOPPED));
    assert_eq!(Some(Trigger::SigCont), classify_wait_status(CONTINUED));
}

/// Walking the transition table: every observed trigger lands in the state
/// the table gives.
#[test]
fn state_machine_closure() {
    let mut info = Info::new();
    assert_eq!(Status::Created, info.status);
    assert!(info.active);

    info.apply_trigger(Trigger::Start, 100, 1_000);
    assert_eq!(Status::Running, info.status);
    assert_eq!(Some(100), info.pid);
    assert_eq!(1, info.restarts);
    assert_eq!(Some(1_000), info.start_time);

    info.apply_trigger(Trigger::SigStop, 100, 2_000);
    assert_eq!(Status::Stopped, info.status);
    assert_eq!(Some(100), info.pid);
    assert_eq!(Some(2_000), info.end_time);

    // resuming keeps the counters and the start time
    info.apply_trigger(Trigger::SigCont, 100, 3_000);
    assert_eq!(Status::Running, info.status);
    assert_eq!(1, info.restarts);
    assert_eq!(Some(1_000), info.start_time);
    assert_eq!(None, info.end_time);

    info.apply_trigger(Trigger::ExitOk, 100, 4_000);
    assert_eq!(Status::Finished, info.status);
    assert_eq!(None, info.pid);
    assert_eq!(Some(4_000), info.end_time);

    info.apply_trigger(Trigger::Start, 101, 5_000);
    assert_eq!(Status::Running, info.status);
    assert_eq!(2, info.restarts);

    info.apply_trigger(Trigger::SignalOther, 101, 6_000);
    assert_eq!(Status::Crashed, info.status);
    assert_eq!(1, info.crashed);

    // restarting out of a crash keeps the streak; the next crash lengthens it
    info.apply_trigger(Trigger::Start, 102, 7_000);
    assert_eq!(1, info.crashed);
    info.apply_trigger(Trigger::ExitErr, 102, 8_000);
    assert_eq!(2, info.crashed);

    // the streak survives the restart out of the crash, and resets only
    // on a re-entry from a non-crashed state
    info.apply_trigger(Trigger::Start, 103, 9_000);
    assert_eq!(2, info.crashed);
    info.apply_trigger(Trigger::ExitOk, 103, 10_000);
    assert_eq!(Status::Finished, info.status);
    info.apply_trigger(Trigger::Start, 104, 11_000);
    assert_eq!(0, info.crashed);
}

/// A crashing child: one observed crash sets `restarts = 1`,
/// `crashed = 1`, `Crashed`, and books one restart at
/// `end_time + restart_interval`.
#[test]
fn crash_then_backoff() {
    let mut info = Info::new();
    info.set_running_at(41, 10);
    assert_eq!(1, info.restarts);
    assert_eq!(0, info.crashed);

    let status = info.set_terminated(41, EXIT_ERR, 20);
    assert_eq!(Status::Crashed, status);
    assert_eq!(1, info.crashed);
    assert_eq!(1, info.restarts);
    assert_eq!(None, info.pid);
    assert_eq!(Some(20), info.end_time);

    let mut sched = Scheduler::new();
    sched.schedule_restart(8, info.end_time, info.crashed, 30, 1000);
    let snapshot = sched.dump();
    assert_eq!(1, snapshot.len());
    assert_eq!(snapshot[0], SchedulerEvent::ServiceRestart { id: 8, instant: 1020 });
}

/// A report for another pid, or a trigger without a transition, changes
/// nothing.
#[test]
fn terminated_ignores() {
    let mut info = Info::new();
    info.set_running_at(50, 10);
    let before = info;

    info.set_terminated(51, EXIT_ERR, 20);
    assert_eq!(before, info);

    // a finished service has no transition for a stop observation
    info.set_terminated(50, EXIT_OK, 20);
    let finished = info;
    info.set_terminated(50, STOPPED, 30);
    assert_eq!(finished, info);
}

/// Termination by the polite signal counts as finished, any other signal
/// as crashed.
#[test]
fn signal_outcomes() {
    let mut info = Info::new();
    info.set_running_at(60, 10);
    info.set_terminated(60, SIG_TERM, 20);
    assert_eq!(Status::Finished, info.status);

    let mut info = Info::new();
    info.set_running_at(61, 10);
    info.set_terminated(61, SIG_KILL, 20);
    assert_eq!(Status::Crashed, info.status);
}
