use ppm::clock::ClockRef;
use ppm::scheduler::{backoff, Scheduler, SchedulerEvent};

#[test]
fn scheduler() {
    let mut sched = Scheduler::new();
    let now: u64 = 1_000_000;

    sched.enqueue(SchedulerEvent::ServiceRestart { instant: now + 60_000, id: 42 });
    sched.enqueue(SchedulerEvent::Sysinfo { instant: now - 60_000 });
    let i = now - 60_000;
    assert!(i < now);
    sched.enqueue(SchedulerEvent::ServiceRestart { instant: now + 60_000, id: 43 });

    let expired: Vec<SchedulerEvent> = sched.iter(now);
    assert_eq!(1, expired.len());
    match expired.first().unwrap() {
        SchedulerEvent::Sysinfo { .. } => {}
        _ => panic!("should be a sysinfo"),
    };
}

/// Enqueueing two events of one source keeps exactly the newer one, and
/// removal by id drops all of that service's events and no others.
#[test]
fn source_uniqueness() {
    let mut sched = Scheduler::new();
    sched.enqueue(SchedulerEvent::ServiceSchedule { id: 7, instant: 500, wall_time: 1 });
    sched.enqueue(SchedulerEvent::ServiceSchedule { id: 7, instant: 900, wall_time: 2 });
    sched.enqueue(SchedulerEvent::Sysinfo { instant: 300 });
    sched.enqueue(SchedulerEvent::Sysinfo { instant: 700 });
    sched.enqueue(SchedulerEvent::ServiceRestart { id: 7, instant: 100 });
    sched.enqueue(SchedulerEvent::ServiceRestart { id: 9, instant: 200 });

    let snapshot = sched.dump();
    assert_eq!(4, snapshot.len());
    assert_eq!(snapshot[0], SchedulerEvent::ServiceRestart { id: 7, instant: 100 });
    assert_eq!(snapshot[1], SchedulerEvent::ServiceRestart { id: 9, instant: 200 });
    assert_eq!(snapshot[2], SchedulerEvent::Sysinfo { instant: 700 });
    assert_eq!(snapshot[3], SchedulerEvent::ServiceSchedule { id: 7, instant: 900, wall_time: 2 });

    sched.remove(7);
    let snapshot = sched.dump();
    assert_eq!(2, snapshot.len());
    assert_eq!(snapshot[0], SchedulerEvent::ServiceRestart { id: 9, instant: 200 });
    assert_eq!(snapshot[1], SchedulerEvent::Sysinfo { instant: 700 });
}

/// `iter` pops exactly the events due at its construction time.
#[test]
fn iter_threshold() {
    let mut sched = Scheduler::new();
    sched.enqueue(SchedulerEvent::ServiceRestart { id: 1, instant: 10 });
    sched.enqueue(SchedulerEvent::ServiceRestart { id: 2, instant: 20 });
    sched.enqueue(SchedulerEvent::ServiceRestart { id: 3, instant: 30 });

    let due = sched.iter(20);
    assert_eq!(2, due.len());
    assert_eq!(due[0], SchedulerEvent::ServiceRestart { id: 1, instant: 10 });
    assert_eq!(due[1], SchedulerEvent::ServiceRestart { id: 2, instant: 20 });

    let rest = sched.dump();
    assert_eq!(1, rest.len());
    assert_eq!(rest[0], SchedulerEvent::ServiceRestart { id: 3, instant: 30 });

    assert_eq!(Some(10), sched.peek(20));
    assert_eq!(Some(0), sched.peek(40));
}

/// The restart backoff doubles per consecutive crash:
/// `interval * 2^(crashed - 1)`.
#[test]
fn backoff_monotonicity() {
    assert_eq!(1000, backoff(1000, 1));
    assert_eq!(2000, backoff(1000, 2));
    assert_eq!(4000, backoff(1000, 3));
    assert_eq!(8000, backoff(1000, 4));
    assert_eq!(1000 * (1 << 20), backoff(1000, 21));
    assert_eq!(u64::MAX, backoff(2, 64));
    assert_eq!(u64::MAX, backoff(1000, 100));
    assert_eq!(0, backoff(0, 100));
}

/// A crash-restart lands at the end time plus the backed-off interval.
#[test]
fn schedule_restart_deadline() {
    let mut sched = Scheduler::new();
    sched.schedule_restart(5, Some(20), 1, 30, 1000);
    let snapshot = sched.dump();
    assert_eq!(1, snapshot.len());
    assert_eq!(snapshot[0], SchedulerEvent::ServiceRestart { id: 5, instant: 1020 });

    // a second crash doubles the delay, replacing the previous entry
    sched.schedule_restart(5, Some(40), 2, 50, 1000);
    let snapshot = sched.dump();
    assert_eq!(1, snapshot.len());
    assert_eq!(snapshot[0], SchedulerEvent::ServiceRestart { id: 5, instant: 2040 });

    // with no end time recorded the delay counts from now
    let mut sched = Scheduler::new();
    sched.schedule_restart(6, None, 1, 100, 250);
    let snapshot = sched.dump();
    assert_eq!(snapshot[0], SchedulerEvent::ServiceRestart { id: 6, instant: 350 });
}

/// The cron rescheduling books the next occurrence strictly after the last
/// fire, with its wall time retained.
#[test]
fn reschedule_cron() {
    let mut sched = Scheduler::new();
    let anchor = ClockRef { mono: 0, wall: 0 };
    let schedule = Some(String::from("*/1 * * * *"));
    let head = sched.reschedule(3, &schedule, 60, &anchor);
    assert!(head);
    let snapshot = sched.dump();
    assert_eq!(1, snapshot.len());
    match snapshot[0] {
        SchedulerEvent::ServiceSchedule { id, instant, wall_time } => {
            assert_eq!(3, id);
            assert_eq!(120, wall_time);
            assert_eq!(120_000, instant);
        }
        _ => panic!("expected a cron occurrence"),
    }

    // no schedule: nothing is booked
    let mut sched = Scheduler::new();
    assert!(!sched.reschedule(3, &None, 60, &anchor));
    assert_eq!(0, sched.dump().len());

    // an invalid expression books nothing
    let bad = Some(String::from("not a cron"));
    assert!(!sched.reschedule(3, &bad, 60, &anchor));
    assert_eq!(0, sched.dump().len());
}
