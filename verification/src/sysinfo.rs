//! Per-process resource statistics and their periodic refresh.
//!
//! Reading the operating system's process table happens outside the
//! library; this module computes the statistics snapshot from a raw
//! sample — including the I/O rates, as byte deltas over the elapsed
//! uptime — and decides which processes a refresh must query.

use vstd::prelude::*;

use crate::info::Info;
use crate::status::Status;

verus! {

broadcast use vstd::seq_lib::group_seq_properties;

/// A statistics snapshot of one process.
///
/// Times are milliseconds, sizes bytes, rates bytes per second;
/// `cpu_usage` is in hundredths of a percent.
#[derive(Debug, Clone, Copy, PartialEq, Eq, Structural)]
pub struct Stats {
    /// CPU usage, hundredths of a percent
    pub cpu_usage: u64,
    /// total aggregated CPU time, milliseconds
    pub cpu_time: u64,
    /// read rate, bytes per second
    pub io_read: u64,
    /// total bytes read
    pub total_io_read: u64,
    /// write rate, bytes per second
    pub io_write: u64,
    /// total bytes written
    pub total_io_write: u64,
    /// resident memory, bytes
    pub mem_rss: u64,
    /// virtual memory, bytes
    pub mem_vsz: u64,
    /// uptime, milliseconds, while the process runs
    pub uptime: Option<u64>,
}

impl Stats {
    /// The all-zero snapshot of a process not running.
    pub fn new() -> (r: Stats)
        ensures
            r == spec_zero_stats(),
    {
        Stats {
            cpu_usage: 0,
            cpu_time: 0,
            io_read: 0,
            total_io_read: 0,
            io_write: 0,
            total_io_write: 0,
            mem_rss: 0,
            mem_vsz: 0,
            uptime: None,
        }
    }
}

impl Default for Stats {
    /// The all-zero snapshot.
    fn default() -> (r: Stats)
        ensures
            r == spec_zero_stats(),
    {
        Stats::new()
    }
}

pub open spec fn spec_zero_stats() -> Stats {
    Stats {
        cpu_usage: 0,
        cpu_time: 0,
        io_read: 0,
        total_io_read: 0,
        io_write: 0,
        total_io_write: 0,
        mem_rss: 0,
        mem_vsz: 0,
        uptime: None,
    }
}

/// A raw sample of one process, as the system reports it.
#[derive(Debug, Clone, Copy, PartialEq, Eq, Structural)]
pub struct ProcSample {
    /// CPU usage, hundredths of a percent
    pub cpu_usage: u64,
    /// accumulated CPU time, milliseconds
    pub cpu_time: u64,
    /// resident memory, bytes
    pub mem_rss: u64,
    /// virtual memory, bytes
    pub mem_vsz: u64,
    /// total bytes read so far
    pub total_io_read: u64,
    /// total bytes written so far
    pub total_io_write: u64,
}

/// A byte rate: `delta` bytes over `interval_ms`, per second, rounded to
/// the nearest and saturating at the top of `u64`.
pub open spec fn spec_rate(delta: u64, interval_ms: u64) -> u64
    recommends
        interval_ms >= 1,
{
    let scaled = (delta as int * 1000 + interval_ms as int / 2) / (interval_ms as int);
    if scaled > u64::MAX {
        u64::MAX
    } else {
        scaled as u64
    }
}

/// Compute the byte rate in wide arithmetic.
fn rate(delta: u64, interval_ms: u64) -> (r: u64)
    requires
        interval_ms >= 1,
    ensures
        r == spec_rate(delta, interval_ms),
{
    let wide: u128 = (delta as u128) * 1000 + (interval_ms as u128) / 2;
    let scaled: u128 = wide / (interval_ms as u128);
    if scaled > u64::MAX as u128 {
        u64::MAX
    } else {
        scaled as u64
    }
}

/// The uptime elapsed between two snapshots, when both carry one:
/// saturating, and `None` stands for no usable interval.
pub open spec fn spec_interval(new_uptime: Option<u64>, old_uptime: Option<u64>) -> u64 {
    match (new_uptime, old_uptime) {
        (Some(n), Some(o)) => if n >= o {
            (n - o) as u64
        } else {
            0
        },
        _ => 0,
    }
}

/// Build the statistics snapshot from a raw sample: totals and sizes are
/// copied, and when a positive uptime interval separates it from the
/// previous snapshot, the I/O rates are the byte deltas over that
/// interval; otherwise the rates stay zero.
pub fn make_stats(sample: &ProcSample, old: &Stats, uptime: Option<u64>) -> (r: Stats)
    requires
        sample.total_io_read >= old.total_io_read,
        sample.total_io_write >= old.total_io_write,
    ensures
        r.cpu_usage == sample.cpu_usage,
        r.cpu_time == sample.cpu_time,
        r.mem_rss == sample.mem_rss,
        r.mem_vsz == sample.mem_vsz,
        r.total_io_read == sample.total_io_read,
        r.total_io_write == sample.total_io_write,
        r.uptime == uptime,
        ({
            let interval = spec_interval(uptime, old.uptime);
            if interval >= 1 {
                r.io_read == spec_rate((sample.total_io_read - old.total_io_read) as u64, interval)
                    && r.io_write == spec_rate(
                    (sample.total_io_write - old.total_io_write) as u64,
                    interval,
                )
            } else {
                r.io_read == 0 && r.io_write == 0
            }
        }),
{
    let mut stats = Stats {
        cpu_usage: sample.cpu_usage,
        cpu_time: sample.cpu_time,
        io_read: 0,
        total_io_read: sample.total_io_read,
        io_write: 0,
        total_io_write: sample.total_io_write,
        mem_rss: sample.mem_rss,
        mem_vsz: sample.mem_vsz,
        uptime,
    };
    let interval = match (uptime, old.uptime) {
        (Some(n), Some(o)) => if n >= o {
            n - o
        } else {
            0
        },
        _ => 0,
    };
    if interval >= 1 {
        stats.io_read = rate(sample.total_io_read - old.total_io_read, interval);
        stats.io_write = rate(sample.total_io_write - old.total_io_write, interval);
    }
    stats
}

/// The liveness classes the system reports for a process.
#[derive(Debug, Clone, Copy, PartialEq, Eq, Structural)]
pub enum ProcStatusKind {
    /// scheduled or sleeping: alive
    Alive,
    /// stopped by a signal
    Stopped,
    /// gone or being reaped: the supervisor's child-exit path handles it
    Gone,
}

/// Fold an observed process status into the service's runtime state: an
/// alive process (re)enters `Running`, a stopped one enters `Stopped`,
/// and a gone one is left to the child-exit path.
pub fn apply_process_status(info: &mut Info, kind: ProcStatusKind, now: u64)
    requires
        old(info).wf(),
        old(info).pid is Some,
    ensures
        final(info).wf(),
        final(info).active == old(info).active,
        match kind {
            ProcStatusKind::Alive => final(info).status == Status::Running && final(info).pid
                == old(info).pid,
            ProcStatusKind::Stopped => final(info).status == Status::Stopped && final(info).pid
                == old(info).pid,
            ProcStatusKind::Gone => *final(info) == *old(info),
        },
{
    match kind {
        ProcStatusKind::Alive => {
            let pid = match info.pid {
                Some(p) => p,
                None => 0,
            };
            info.set_running_at(pid, now);
        },
        ProcStatusKind::Stopped => {
            info.set_stopped_at(now);
        },
        ProcStatusKind::Gone => {},
    }
}

/// The statistics collector's own bookkeeping: which pids the system
/// table held after the last refresh, and when that was.
#[derive(Debug)]
pub struct Sysinfo {
    /// pids the system table held after the last refresh
    pub pids: Vec<i32>,
    /// monotonic time of the last refresh, milliseconds
    pub last_update: u64,
}

impl Sysinfo {
    /// A collector that has refreshed nothing yet.
    pub fn new() -> (r: Sysinfo)
        ensures
            r.pids@ == Seq::<i32>::empty(),
            r.last_update == 0,
    {
        Sysinfo { pids: Vec::new(), last_update: 0 }
    }

    /// The pids the next refresh must ask the system about: the service
    /// pids it does not know yet, and the daemon itself when missing.
    pub fn fetch_targets(&self, service_pids: &Vec<i32>, daemon_pid: i32) -> (r: Vec<i32>)
        ensures
            forall|p: i32|
                #[trigger] r@.contains(p) <==> ((service_pids@.contains(p) || p == daemon_pid)
                    && !self.pids@.contains(p)),
    {
        missing_pids(service_pids, &self.pids, daemon_pid)
    }

    /// Record what the system table held at `now`.
    pub fn record_refresh(&mut self, pids: Vec<i32>, now: u64)
        ensures
            final(self).pids == pids,
            final(self).last_update == now,
    {
        self.pids = pids;
        self.last_update = now;
    }
}

/// The processes a refresh must query: every service pid the system's
/// table does not hold yet, then the daemon itself when missing.
pub fn missing_pids(service_pids: &Vec<i32>, known: &Vec<i32>, daemon_pid: i32) -> (r: Vec<i32>)
    ensures
        forall|p: i32|
            #[trigger] r@.contains(p) <==> ((service_pids@.contains(p) || p == daemon_pid)
                && !known@.contains(p)),
{
    let mut out: Vec<i32> = Vec::new();
    let mut i: usize = 0;
    while i < service_pids.len()
        invariant
            i <= service_pids@.len(),
            forall|p: i32|
                #[trigger] out@.contains(p) ==> service_pids@.contains(p) && !known@.contains(p),
            forall|j: int|
                0 <= j < i ==> (known@.contains(#[trigger] service_pids@[j]) || out@.contains(
                    service_pids@[j],
                )),
        decreases service_pids.len() - i,
    {
        let p = service_pids[i];
        if !vec_contains(known, p) && !vec_contains(&out, p) {
            out.push(p);
            proof {
                assert(out@.last() == p);
                assert(service_pids@.contains(p)) by {
                    assert(service_pids@[i as int] == p);
                }
            }
        }
        i += 1;
    }
    if !vec_contains(known, daemon_pid) && !vec_contains(&out, daemon_pid) {
        out.push(daemon_pid);
        proof {
            assert(out@.last() == daemon_pid);
        }
    }
    proof {
        assert forall|p: i32|
            #[trigger] out@.contains(p) implies ((service_pids@.contains(p) || p == daemon_pid)
            && !known@.contains(p)) by {}
        assert forall|p: i32|
            ((service_pids@.contains(p) || p == daemon_pid) && !known@.contains(
                p,
            )) implies #[trigger] out@.contains(p) by {
            if service_pids@.contains(p) {
                let j = choose|j: int|
                    0 <= j < service_pids@.len() && service_pids@[j] == p;
            }
        }
    }
    out
}

/// Whether `v` holds `x`.
fn vec_contains(v: &Vec<i32>, x: i32) -> (r: bool)
    ensures
        r == v@.contains(x),
{
    let mut i: usize = 0;
    while i < v.len()
        invariant
            i <= v@.len(),
            forall|j: int| 0 <= j < i ==> v@[j] != x,
        decreases v.len() - i,
    {
        if v[i] == x {
            proof {
                assert(v@[i as int] == x);
            }
            return true;
        }
        i += 1;
    }
    proof {
        if v@.contains(x) {
            let k = choose|k: int| 0 <= k < v@.len() && v@[k] == x;
            assert(false);
        }
    }
    false
}

} // verus!
