use ppm::info::Info;
use ppm::status::Status;
use ppm::sysinfo::{
    apply_process_status, make_stats, missing_pids, ProcSample, ProcStatusKind, Stats, Sysinfo,
};

fn sample() -> ProcSample {
    ProcSample {
        cpu_usage: 1250,
        cpu_time: 42_000,
        mem_rss: 4096,
        mem_vsz: 8192,
        total_io_read: 10_000,
        total_io_write: 5_000,
    }
}

/// The I/O rates are the byte deltas over the elapsed uptime.
#[test]
fn rates() {
    let mut old = Stats::default();
    old.total_io_read = 4_000;
    old.total_io_write = 1_000;
    old.uptime = Some(10_000);

    // two seconds later: 6000 read over 2s = 3000 B/s; 4000 written = 2000 B/s
    let stats = make_stats(&sample(), &old, Some(12_000));
    assert_eq!(3_000, stats.io_read);
    assert_eq!(2_000, stats.io_write);
    assert_eq!(10_000, stats.total_io_read);
    assert_eq!(5_000, stats.total_io_write);
    assert_eq!(1250, stats.cpu_usage);
    assert_eq!(Some(12_000), stats.uptime);

    // without a previous uptime, no rate
    let stats = make_stats(&sample(), &Stats::default(), Some(12_000));
    assert_eq!(0, stats.io_read);
    assert_eq!(0, stats.io_write);

    // rounding to the nearest: 6000 bytes over 7 seconds
    let stats = make_stats(&sample(), &old, Some(17_000));
    assert_eq!(857, stats.io_read); // 6000/7 = 857.14
}

/// The observed process status folds into the lifecycle state.
#[test]
fn observed_status() {
    let mut info = Info::new();
    info.set_running_at(77, 10);

    apply_process_status(&mut info, ProcStatusKind::Stopped, 20);
    assert_eq!(Status::Stopped, info.status);
    assert_eq!(Some(77), info.pid);

    apply_process_status(&mut info, ProcStatusKind::Alive, 30);
    assert_eq!(Status::Running, info.status);

    let before = info;
    apply_process_status(&mut info, ProcStatusKind::Gone, 40);
    assert_eq!(before, info);
}

/// A refresh queries the service pids the table misses, and the daemon.
#[test]
fn refresh_targets() {
    let services = vec![100, 200, 300];
    let known = vec![200];
    let targets = missing_pids(&services, &known, 1);
    assert!(targets.contains(&100));
    assert!(targets.contains(&300));
    assert!(targets.contains(&1));
    assert!(!targets.contains(&200));
    assert_eq!(3, targets.len());

    let mut collector = Sysinfo::new();
    assert_eq!(0, collector.last_update);
    collector.record_refresh(vec![200], 5_000);
    let targets = collector.fetch_targets(&services, 1);
    assert_eq!(3, targets.len());
    assert!(!targets.contains(&200));
}
