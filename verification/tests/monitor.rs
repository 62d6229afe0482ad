use ppm::clock::ClockRef;
use ppm::command::Command;
use ppm::monitor::{Effect, Monitor, Service};
use ppm::scheduler::{Scheduler, SchedulerEvent};
use ppm::server::{admit_connection, find_service, parse_usize, run_action, Action, ActionReply};
use ppm::status::Status;

fn service(id: usize, name: &str) -> Service {
    Service::new(id, name, Command::new("sleep", vec![String::from("300")]))
}

#[test]
fn insert_and_find() {
    let mut mon = Monitor::new();
    mon.insert(service(1, "alpha"));
    mon.insert(service(2, "beta"));
    assert_eq!(Some(0), mon.index_of(1));
    assert_eq!(Some(1), mon.index_of(2));
    assert_eq!(None, mon.index_of(3));
    assert_eq!(Some(1), mon.find_by_name("beta"));
    assert_eq!(None, mon.find_by_name("gamma"));

    // same id replaces
    mon.insert(service(1, "alpha2"));
    assert_eq!(2, mon.services.len());
    let i = mon.index_of(1).unwrap();
    assert_eq!("alpha2", mon.services[i].name.as_str());

    mon.remove(1);
    assert_eq!(None, mon.index_of(1));
    assert_eq!(1, mon.services.len());
}

/// A reaped crash drives the state machine and books the backed-off
/// restart at `end_time + restart_interval`.
#[test]
fn child_exit_books_restart() {
    let mut mon = Monitor::new();
    let mut srv = service(4, "crashy");
    srv.info.set_running_at(333, 10);
    mon.insert(srv);

    let mut sched = Scheduler::new();
    let anchor = ClockRef { mono: 0, wall: 0 };
    let r = mon.on_child_exit(&mut sched, &anchor, 333, 0x100, 20, 25);
    let (idx, st) = r.unwrap();
    assert_eq!(Status::Crashed, st);
    assert_eq!(1, mon.services[idx].info.crashed);
    assert_eq!(Some(20), mon.services[idx].info.end_time);

    let snapshot = sched.dump();
    assert_eq!(1, snapshot.len());
    // end time 20 plus the one-second default restart base
    assert_eq!(SchedulerEvent::ServiceRestart { id: 4, instant: 1020 }, snapshot[0]);

    // an unknown pid changes nothing
    let r = mon.on_child_exit(&mut sched, &anchor, 999, 0, 30, 35);
    assert!(r.is_none());
}

/// The periodic events re-arm themselves and ask for their work.
#[test]
fn periodic_events() {
    let mon = Monitor::new();
    let mut sched = Scheduler::new();
    let anchor = ClockRef { mono: 0, wall: 0 };

    let effects = mon.handle_event(&mut sched, &anchor, SchedulerEvent::Sysinfo { instant: 0 }, 500);
    assert_eq!(vec![Effect::RefreshSysinfo], effects);
    let snapshot = sched.dump();
    assert_eq!(1, snapshot.len());
    assert_eq!(SchedulerEvent::Sysinfo { instant: 500 + 10_000 }, snapshot[0]);

    let effects = mon.handle_event(
        &mut sched,
        &anchor,
        SchedulerEvent::ClockCheck { instant: 0 },
        500,
    );
    assert_eq!(vec![Effect::CheckClock], effects);
    let snapshot = sched.dump();
    assert_eq!(2, snapshot.len());
}

/// A due restart spawns its service only while the service exists and its
/// intent is set.
#[test]
fn restart_events() {
    let mut mon = Monitor::new();
    mon.insert(service(6, "svc"));
    let mut sched = Scheduler::new();
    let anchor = ClockRef { mono: 0, wall: 0 };

    let effects = mon.handle_event(
        &mut sched,
        &anchor,
        SchedulerEvent::ServiceRestart { id: 6, instant: 0 },
        100,
    );
    assert_eq!(vec![Effect::SpawnService(6)], effects);

    mon.set_active(6, false);
    let effects = mon.handle_event(
        &mut sched,
        &anchor,
        SchedulerEvent::ServiceRestart { id: 6, instant: 0 },
        100,
    );
    assert!(effects.is_empty());

    let effects = mon.handle_event(
        &mut sched,
        &anchor,
        SchedulerEvent::ServiceRestart { id: 99, instant: 0 },
        100,
    );
    assert!(effects.is_empty());
}

/// A filesystem event books one debounced watch-restart.
#[test]
fn watch_event_debounce() {
    let mon = Monitor::new();
    let mut sched = Scheduler::new();
    mon.on_watch_event(&mut sched, 3, 400);
    mon.on_watch_event(&mut sched, 3, 450);
    let snapshot = sched.dump();
    assert_eq!(1, snapshot.len());
    assert_eq!(SchedulerEvent::WatchServiceRestart { id: 3, instant: 550 }, snapshot[0]);
}

/// Rebuilding the horizon books the two periodic events exactly once.
#[test]
fn init_horizon() {
    let mut mon = Monitor::new();
    let mut srv = service(7, "cron");
    srv.schedule = Some(String::from("*/1 * * * *"));
    mon.insert(srv);

    let mut sched = Scheduler::new();
    sched.enqueue(SchedulerEvent::Sysinfo { instant: 1 });
    let anchor = ClockRef { mono: 0, wall: 0 };
    mon.init(&mut sched, &anchor, 500, 60);

    let snapshot = sched.dump();
    assert_eq!(3, snapshot.len());
    let sysinfo = snapshot
        .iter()
        .filter(|e| matches!(e, SchedulerEvent::Sysinfo { .. }))
        .count();
    let clock = snapshot
        .iter()
        .filter(|e| matches!(e, SchedulerEvent::ClockCheck { .. }))
        .count();
    let cron = snapshot
        .iter()
        .filter(|e| matches!(e, SchedulerEvent::ServiceSchedule { .. }))
        .count();
    assert_eq!(1, sysinfo);
    assert_eq!(1, clock);
    assert_eq!(1, cron);
}

#[test]
fn pending_spawns() {
    let mut mon = Monitor::new();
    mon.insert(service(1, "a"));
    let mut running = service(2, "b");
    running.info.set_running_at(10, 1);
    mon.insert(running);
    let mut inactive = service(3, "c");
    inactive.info.active = false;
    mon.insert(inactive);

    assert_eq!(vec![1], mon.pending_spawns());
}

/// Service ids cannot grow past the largest one.
#[test]
fn ids_exhausted() {
    let mut mon = Monitor::new();
    let mut sched = Scheduler::new();
    mon.insert(service(usize::MAX - 1, "edge"));
    assert_eq!(usize::MAX, mon.next_id);
    let (reply, _) = run_action(
        &mut mon,
        &mut sched,
        Action::Add {
            name: String::from("next"),
            env: Vec::new(),
            command: vec![String::from("ls")],
        },
    );
    match reply {
        ActionReply::Error(msg) => assert_eq!("service ids exhausted", msg.as_str()),
        _ => panic!("expected an error"),
    }
}

/// Ids are never reused: removing the highest service does not recycle
/// its id.
#[test]
fn ids_not_reused() {
    let mut mon = Monitor::new();
    let mut sched = Scheduler::new();
    mon.insert(service(0, "a"));
    mon.insert(service(1, "b"));
    let (_, _) = run_action(&mut mon, &mut sched, Action::Remove { service: String::from("b") });
    let (reply, _) = run_action(
        &mut mon,
        &mut sched,
        Action::Add { name: String::from("c"), env: Vec::new(), command: vec![String::from("ls")] },
    );
    assert!(matches!(reply, ActionReply::Done));
    let i = mon.index_of(2).expect("the removed id must not come back");
    assert_eq!("c", mon.services[i].name.as_str());
}

/// The schedule horizon can be dumped as-is.
#[test]
fn scheduler_dump_action() {
    let mut mon = Monitor::new();
    let mut sched = Scheduler::new();
    sched.enqueue(SchedulerEvent::Sysinfo { instant: 7 });
    let (reply, effects) = run_action(&mut mon, &mut sched, Action::ShowScheduler);
    assert!(effects.is_empty());
    match reply {
        ActionReply::Scheduler(events) => {
            assert_eq!(vec![SchedulerEvent::Sysinfo { instant: 7 }], events);
        }
        _ => panic!("expected the schedule horizon"),
    }
}

/// Statistics come back per service, one entry or all of them.
#[test]
fn stats_actions() {
    let mut mon = Monitor::new();
    let mut sched = Scheduler::new();
    mon.insert(service(1, "alpha"));
    mon.insert(service(2, "beta"));

    let (reply, _) = run_action(&mut mon, &mut sched, Action::Stats { service: None });
    match reply {
        ActionReply::StatsList(entries) => {
            assert_eq!(2, entries.len());
            assert_eq!(1, entries[0].0);
            assert_eq!(2, entries[1].0);
        }
        _ => panic!("expected statistics"),
    }

    let (reply, _) = run_action(
        &mut mon,
        &mut sched,
        Action::Stats { service: Some(String::from("beta")) },
    );
    match reply {
        ActionReply::StatsList(entries) => {
            assert_eq!(1, entries.len());
            assert_eq!(2, entries[0].0);
        }
        _ => panic!("expected statistics"),
    }

    let (reply, _) = run_action(&mut mon, &mut sched, Action::DaemonStats);
    assert!(matches!(reply, ActionReply::DaemonStats(_)));

    let (reply, _) = run_action(
        &mut mon,
        &mut sched,
        Action::ListLogFiles { service: String::from("alpha") },
    );
    assert!(matches!(reply, ActionReply::LogFiles(1)));
}

/// At most sixteen control connections run concurrently: the next one is
/// refused.
#[test]
fn connection_cap() {
    assert!(admit_connection(0));
    assert!(admit_connection(15));
    assert!(!admit_connection(16));
    assert!(!admit_connection(17));
}

#[test]
fn id_parsing() {
    assert_eq!(Some(0), parse_usize("0"));
    assert_eq!(Some(42), parse_usize("42"));
    assert_eq!(None, parse_usize(""));
    assert_eq!(None, parse_usize("4x"));
    assert_eq!(None, parse_usize("-1"));
    assert_eq!(None, parse_usize("99999999999999999999999999"));
}

/// Requests resolve services by decimal id first, then by name.
#[test]
fn service_lookup() {
    let mut mon = Monitor::new();
    mon.insert(service(0, "zero"));
    mon.insert(service(1, "one"));
    assert_eq!(Some(1), find_service(&mon, "1"));
    assert_eq!(Some(0), find_service(&mon, "zero"));
    assert_eq!(None, find_service(&mon, "two"));
    assert_eq!(None, find_service(&mon, "7"));
}

#[test]
fn actions() {
    let mut mon = Monitor::new();
    let mut sched = Scheduler::new();
    mon.insert(service(1, "alpha"));

    let (reply, effects) = run_action(&mut mon, &mut sched, Action::List);
    match reply {
        ActionReply::List(entries) => {
            assert_eq!(1, entries.len());
            assert_eq!(1, entries[0].0);
            assert_eq!("alpha", entries[0].1.as_str());
        }
        _ => panic!("expected a list"),
    }
    assert!(effects.is_empty());

    let (reply, effects) = run_action(
        &mut mon,
        &mut sched,
        Action::Restart { service: String::from("alpha") },
    );
    assert!(matches!(reply, ActionReply::Done));
    assert_eq!(vec![Effect::SpawnService(1)], effects);

    let (reply, _) = run_action(
        &mut mon,
        &mut sched,
        Action::Restart { service: String::from("ghost") },
    );
    match reply {
        ActionReply::Error(msg) => assert_eq!("no such service", msg.as_str()),
        _ => panic!("expected an error"),
    }

    let (reply, effects) = run_action(
        &mut mon,
        &mut sched,
        Action::Stop { service: String::from("alpha") },
    );
    assert!(matches!(reply, ActionReply::Done));
    assert_eq!(vec![Effect::StopService(1)], effects);
    let i = mon.index_of(1).unwrap();
    assert!(!mon.services[i].info.active);

    let (reply, effects) = run_action(
        &mut mon,
        &mut sched,
        Action::Add {
            name: String::from("beta"),
            env: vec![(String::from("K"), String::from("V"))],
            command: vec![String::from("ls"), String::from("-la")],
        },
    );
    assert!(matches!(reply, ActionReply::Done));
    assert_eq!(vec![Effect::SpawnService(2)], effects);
    let i = mon.index_of(2).unwrap();
    assert_eq!("beta", mon.services[i].name.as_str());
    assert_eq!("ls", mon.services[i].command.command.as_str());
    assert_eq!(1, mon.services[i].command.args.len());

    let (reply, _) = run_action(
        &mut mon,
        &mut sched,
        Action::Add { name: String::from("empty"), env: Vec::new(), command: Vec::new() },
    );
    match reply {
        ActionReply::Error(msg) => assert_eq!("command is empty", msg.as_str()),
        _ => panic!("expected an error"),
    }

    let (reply, effects) = run_action(
        &mut mon,
        &mut sched,
        Action::Remove { service: String::from("beta") },
    );
    assert!(matches!(reply, ActionReply::Done));
    assert_eq!(vec![Effect::StopService(2)], effects);
    assert_eq!(None, mon.index_of(2));
}
