//! The supervisor's state: the service set and the decisions of its event
//! loop.
//!
//! Waiting for signals, spawning children and reaping them are system
//! calls made outside the library. This module owns the service map and
//! answers, for every observation — a reaped child, a due event, a
//! filesystem change — what the state becomes and which actions to take.

use vstd::prelude::*;

use crate::clock::{spec_from_systime, wall_in_range, ClockRef};
use crate::command::Command;
use crate::info::Info;
use crate::scheduler::{
    count_source, spec_cron_bookable, spec_cron_event, spec_cron_next, spec_enqueued_any,
    spec_restart_event, spec_source_eq, Scheduler, SchedulerEvent,
};
use crate::status::Status;
use crate::sysinfo::Stats;
use crate::watch::Watch;

verus! {

/// A supervised service: its definition and its runtime state.
pub struct Service {
    /// process-unique identity
    pub id: usize,
    /// human name
    pub name: String,
    /// the command it runs
    pub command: Command,
    /// working directory for the child, when set
    pub workdir: Option<String>,
    /// cron expression for periodic runs, when set
    pub schedule: Option<String>,
    /// filesystem watch, when set
    pub watch: Option<Watch>,
    /// runtime state
    pub info: Info,
    /// resource statistics
    pub stats: Stats,
}

impl Service {
    pub open spec fn wf(&self) -> bool {
        self.info.wf()
    }

    /// A fresh service: created, active, never started.
    pub fn new(id: usize, name: &str, command: Command) -> (r: Service)
        ensures
            r.wf(),
            r.id == id,
            r.name@ == name@,
            r.command == command,
            r.workdir is None,
            r.schedule is None,
            r.watch is None,
            r.info == (Info {
                pid: None,
                active: true,
                status: Status::Created,
                start_time: None,
                end_time: None,
                restarts: 0,
                crashed: 0,
            }),
    {
        Service {
            id,
            name: name.to_owned(),
            command,
            workdir: None,
            schedule: None,
            watch: None,
            info: Info::new(),
            stats: Stats::new(),
        }
    }
}

/// An action the event loop must carry out in the world: spawn or signal
/// a child, refresh the statistics, or run the clock-drift check.
#[derive(Debug, Clone, Copy, PartialEq, Eq, Structural)]
pub enum Effect {
    /// spawn (or respawn) the service with this id
    SpawnService(usize),
    /// terminate the service with this id: polite first, forceful after
    StopService(usize),
    /// refresh resource statistics for every tracked process
    RefreshSysinfo,
    /// compare the clocks and rebuild the horizon on drift
    CheckClock,
}

/// The supervisor state: the service set and the configured intervals,
/// all in milliseconds.
pub struct Monitor {
    /// the services, with pairwise distinct ids
    pub services: Vec<Service>,
    /// the next id to assign: every id ever used stays below it, so ids
    /// are process-unique and never reused across removals
    pub next_id: usize,
    /// period of the statistics refresh
    pub stats_interval: u64,
    /// base of the exponential crash-restart backoff
    pub restart_interval: u64,
    /// period of the clock-drift check
    pub clock_check_interval: u64,
    /// debounce delay of watcher-triggered restarts
    pub watch_restart_interval: u64,
    /// aggregated statistics of the daemon itself
    pub stats: Stats,
}

impl Monitor {
    /// Pairwise distinct ids and well-formed runtime states.
    pub open spec fn wf(&self) -> bool {
        &&& forall|i: int, j: int|
            0 <= i < j < self.services@.len() ==> (#[trigger] self.services@[i]).id != (
            #[trigger] self.services@[j]).id
        &&& forall|i: int| 0 <= i < self.services@.len() ==> (#[trigger] self.services@[i]).wf()
        &&& forall|i: int|
            0 <= i < self.services@.len() ==> (#[trigger] self.services@[i]).id < self.next_id
    }

    /// An empty supervisor with the default intervals: statistics every
    /// ten seconds, a one-second restart base, an hourly clock check and
    /// a tenth of a second of watch debounce.
    pub fn new() -> (r: Monitor)
        ensures
            r.wf(),
            r.services@.len() == 0,
            r.next_id == 0,
            r.stats_interval == 10_000,
            r.restart_interval == 1_000,
            r.clock_check_interval == 3_600_000,
            r.watch_restart_interval == 100,
    {
        Monitor {
            services: Vec::new(),
            next_id: 0,
            stats_interval: 10_000,
            restart_interval: 1_000,
            clock_check_interval: 3_600_000,
            watch_restart_interval: 100,
            stats: Stats::new(),
        }
    }

    /// The position of the service with id `id`.
    pub fn index_of(&self, id: usize) -> (r: Option<usize>)
        ensures
            match r {
                Some(i) => i < self.services@.len() && self.services@[i as int].id == id,
                None => forall|i: int|
                    0 <= i < self.services@.len() ==> (#[trigger] self.services@[i]).id != id,
            },
    {
        let mut i: usize = 0;
        while i < self.services.len()
            invariant
                i <= self.services@.len(),
                forall|j: int| 0 <= j < i ==> (#[trigger] self.services@[j]).id != id,
            decreases self.services.len() - i,
        {
            if self.services[i].id == id {
                return Some(i);
            }
            i += 1;
        }
        None
    }

    /// The position of the service whose child is `pid`.
    pub fn find_by_pid(&self, pid: i32) -> (r: Option<usize>)
        ensures
            match r {
                Some(i) => i < self.services@.len() && self.services@[i as int].info.pid == Some(
                    pid,
                ),
                None => forall|i: int|
                    0 <= i < self.services@.len() ==> (#[trigger] self.services@[i]).info.pid
                        != Some(pid),
            },
    {
        let mut i: usize = 0;
        while i < self.services.len()
            invariant
                i <= self.services@.len(),
                forall|j: int|
                    0 <= j < i ==> (#[trigger] self.services@[j]).info.pid != Some(pid),
            decreases self.services.len() - i,
        {
            let matches = match self.services[i].info.pid {
                Some(p) => p == pid,
                None => false,
            };
            if matches {
                return Some(i);
            }
            i += 1;
        }
        None
    }

    /// The position of the first service named `name`.
    pub fn find_by_name(&self, name: &str) -> (r: Option<usize>)
        ensures
            match r {
                Some(i) => i < self.services@.len() && self.services@[i as int].name@ == name@,
                None => forall|i: int|
                    0 <= i < self.services@.len() ==> (#[trigger] self.services@[i]).name@
                        != name@,
            },
    {
        let mut i: usize = 0;
        while i < self.services.len()
            invariant
                i <= self.services@.len(),
                forall|j: int| 0 <= j < i ==> (#[trigger] self.services@[j]).name@ != name@,
            decreases self.services.len() - i,
        {
            if str_eq(self.services[i].name.as_str(), name) {
                return Some(i);
            }
            i += 1;
        }
        None
    }

    /// Insert a service, replacing any existing service with its id.
    pub fn insert(&mut self, service: Service)
        requires
            old(self).wf(),
            service.wf(),
            service.id < usize::MAX,
        ensures
            final(self).wf(),
            final(self).services@ == old(self).services@.filter(other_id(service.id)).push(
                service,
            ),
            final(self).next_id == if old(self).next_id > service.id + 1 {
                old(self).next_id as int
            } else {
                service.id + 1
            },
            final(self).stats_interval == old(self).stats_interval,
            final(self).restart_interval == old(self).restart_interval,
            final(self).clock_check_interval == old(self).clock_check_interval,
            final(self).watch_restart_interval == old(self).watch_restart_interval,
    {
        let sid = service.id;
        if self.next_id <= sid {
            self.next_id = sid + 1;
        }
        self.remove(sid);
        self.services.push(service);
        proof {
            assert(self.next_id >= old(self).next_id);
            assert(self.next_id > sid);
            let q1 = self.services@;
            let qf = q1.drop_last();
            assert(q1 =~= qf.push(service));
            lemma_service_filter(old(self).services@, other_id(service.id));
            assert forall|a: int, b: int|
                0 <= a < b < q1.len() implies (#[trigger] q1[a]).id != (#[trigger] q1[b]).id by {
                if b == q1.len() - 1 {
                    assert(q1[a] == qf[a]);
                    assert(other_id(service.id)(qf[a]));
                }
            }
            assert forall|a: int|
                0 <= a < q1.len() implies (#[trigger] q1[a]).id < self.next_id by {
                if a < q1.len() - 1 {
                    assert(q1[a] == qf[a]);
                    let qmid = old(self).services@.filter(other_id(service.id));
                    assert(qmid.contains(qf[a]));
                    old(self).services@.lemma_filter_contains_rev(other_id(service.id), qf[a]);
                    let w = choose|w: int|
                        0 <= w < old(self).services@.len() && old(self).services@[w] == qf[a];
                }
            }
        }
    }

    /// Remove the service with id `id`, when one exists; its schedule and
    /// watch entries are purged by the caller through the scheduler and
    /// watcher.
    pub fn remove(&mut self, id: usize)
        requires
            old(self).wf(),
        ensures
            final(self).wf(),
            final(self).services@ == old(self).services@.filter(other_id(id)),
            final(self).next_id == old(self).next_id,
            final(self).stats_interval == old(self).stats_interval,
            final(self).restart_interval == old(self).restart_interval,
            final(self).clock_check_interval == old(self).clock_check_interval,
            final(self).watch_restart_interval == old(self).watch_restart_interval,
            forall|s: Service|
                #[trigger] final(self).services@.contains(s) <==> (old(self).services@.contains(s)
                    && s.id != id),
    {
        let ghost q0 = self.services@;
        let mut kept: Vec<Service> = Vec::new();
        let ghost mut k: int = 0;
        while self.services.len() > 0
            invariant
                q0 == old(self).services@,
                0 <= k <= q0.len(),
                self.services@ == q0.skip(k),
                self.next_id == old(self).next_id,
                self.stats_interval == old(self).stats_interval,
                self.restart_interval == old(self).restart_interval,
                self.clock_check_interval == old(self).clock_check_interval,
                self.watch_restart_interval == old(self).watch_restart_interval,
                kept@ == q0.take(k).filter(other_id(id)),
            decreases self.services.len(),
        {
            let s = self.services.remove(0);
            proof {
                assert(s == q0[k]);
                assert(q0.skip(k).remove(0) =~= q0.skip(k + 1));
                reveal_with_fuel(Seq::filter, 2);
                assert(q0.take(k + 1).drop_last() =~= q0.take(k));
                assert(q0.take(k + 1).last() == q0[k]);
            }
            let keep = s.id != id;
            if keep {
                kept.push(s);
            }
            proof {
                assert(kept@ =~= q0.take(k + 1).filter(other_id(id)));
                k = k + 1;
            }
        }
        proof {
            assert(q0.take(q0.len() as int) =~= q0);
        }
        self.services = kept;
        proof {
            lemma_service_filter(q0, other_id(id));
            lemma_service_filter_distinct(q0, other_id(id));
            assert forall|i: int|
                0 <= i < self.services@.len() implies (#[trigger] self.services@[i]).wf()
                && self.services@[i].id < self.next_id by {
                let sv = self.services@[i];
                assert(self.services@.contains(sv));
                q0.lemma_filter_contains_rev(other_id(id), sv);
                let w = choose|w: int| 0 <= w < q0.len() && q0[w] == sv;
            }
            assert forall|s: Service|
                #[trigger] self.services@.contains(s) <==> (q0.contains(s) && s.id != id) by {
                if q0.contains(s) && s.id != id {
                    let w = choose|w: int| 0 <= w < q0.len() && q0[w] == s;
                    q0.lemma_filter_contains(other_id(id), w);
                }
                if self.services@.contains(s) {
                    q0.lemma_filter_contains_rev(other_id(id), s);
                    let k = choose|k: int|
                        0 <= k < self.services@.len() && self.services@[k] == s;
                    q0.lemma_filter_pred(other_id(id), k);
                }
            }
        }
    }

    /// Set the user intent of service `id`; reports whether it exists.
    pub fn set_active(&mut self, id: usize, value: bool) -> (r: bool)
        requires
            old(self).wf(),
        ensures
            final(self).wf(),
            final(self).services@.len() == old(self).services@.len(),
            final(self).next_id == old(self).next_id,
            final(self).stats_interval == old(self).stats_interval,
            final(self).restart_interval == old(self).restart_interval,
            final(self).clock_check_interval == old(self).clock_check_interval,
            final(self).watch_restart_interval == old(self).watch_restart_interval,
            (exists|i: int|
                0 <= i < old(self).services@.len() && (#[trigger] old(self).services@[i]).id
                    == id) ==> r,
            forall|i: int|
                0 <= i < old(self).services@.len() ==> #[trigger] final(self).services@[i]
                    == if old(self).services@[i].id == id {
                    Service {
                        info: Info { active: value, ..old(self).services@[i].info },
                        ..old(self).services@[i]
                    }
                } else {
                    old(self).services@[i]
                },
    {
        let ghost q0 = self.services@;
        let mut i: usize = 0;
        let mut found = false;
        while i < self.services.len()
            invariant
                q0 == old(self).services@,
                old(self).wf(),
                i <= self.services@.len(),
                self.services@.len() == q0.len(),
                self.next_id == old(self).next_id,
                self.stats_interval == old(self).stats_interval,
                self.restart_interval == old(self).restart_interval,
                self.clock_check_interval == old(self).clock_check_interval,
                self.watch_restart_interval == old(self).watch_restart_interval,
                forall|j: int|
                    0 <= j < q0.len() ==> #[trigger] self.services@[j] == if j < i && q0[j].id
                        == id {
                        Service { info: Info { active: value, ..q0[j].info }, ..q0[j] }
                    } else {
                        q0[j]
                    },
                found == exists|j: int| 0 <= j < i && (#[trigger] q0[j]).id == id,
            decreases self.services.len() - i,
        {
            let sid = self.services[i].id;
            if sid == id {
                let mut info = vec_ref(&self.services, i).info;
                info.active = value;
                vec_set_info(&mut self.services, i, info);
                found = true;
                proof {
                    assert(q0[i as int].id == id);
                }
            }
            i += 1;
        }
        found
    }

    /// The ids of the services the run loop must spawn at startup: those
    /// whose user intent is set and that are not running, in order.
    pub fn pending_spawns(&self) -> (r: Vec<usize>)
        ensures
            r@ == spec_pending_spawns(self.services@),
    {
        let ghost q = self.services@;
        let mut out: Vec<usize> = Vec::new();
        let mut i: usize = 0;
        while i < self.services.len()
            invariant
                i <= self.services@.len(),
                q == self.services@,
                out@ == spec_pending_spawns(q.take(i as int)),
            decreases self.services.len() - i,
        {
            proof {
                assert(q.take(i + 1).drop_last() =~= q.take(i as int));
                assert(q.take(i + 1).last() == q[i as int]);
            }
            let s = vec_ref(&self.services, i);
            if s.info.active && !matches!(s.info.status, Status::Running) {
                out.push(s.id);
                proof {
                    assert(out@ =~= spec_pending_spawns(q.take(i + 1)));
                }
            } else {
                proof {
                    assert(out@ =~= spec_pending_spawns(q.take(i + 1)));
                }
            }
            i += 1;
        }
        proof {
            assert(q.take(q.len() as int) =~= q);
        }
        out
    }
}

/// The monotonic image of a wall end time, where the anchor can carry it.
pub open spec fn spec_end_mono(anchor: ClockRef, end_time: Option<u64>) -> Option<u64> {
    match end_time {
        Some(w) => if wall_in_range(anchor, w) {
            Some(spec_from_systime(anchor, w) as u64)
        } else {
            None
        },
        None => None,
    }
}

/// How one reaped child changes a service's runtime state: the wait status
/// drives the state machine where it defines a transition — yielding
/// exactly `spec_after_trigger`'s snapshot — and is ignored where it does
/// not.
pub open spec fn spec_terminated_rel(pre: Info, post: Info, pid: i32, status: i32, now: u64) -> bool {
    match crate::status::spec_wait_trigger(status) {
        Some(t) => if crate::status::next_status(pre.status, t) is Some {
            post == crate::info::spec_after_trigger(pre, t, pid, now)
        } else {
            post == pre
        },
        None => post == pre,
    }
}

/// Whether the queue holds the service's next cron occurrence, exactly
/// once: where the service has a schedule whose next occurrence after
/// `wall_now_s` exists and can be anchored, that occurrence's entry is in
/// `q`, source-uniquely. Services without that owe nothing.
pub open spec fn spec_cron_booked(
    q: Seq<SchedulerEvent>,
    s: Service,
    anchor: ClockRef,
    wall_now_s: u64,
) -> bool {
    match s.schedule {
        Some(expr) => match spec_cron_next(expr@, wall_now_s) {
            Some(w) => spec_cron_bookable(anchor, w) ==> q.contains(
                spec_cron_event(s.id, anchor, w),
            ) && count_source(q, spec_cron_event(s.id, anchor, w)) == 1,
            None => true,
        },
        None => true,
    }
}

/// `a + b`, saturating at the top of `u64`.
pub open spec fn spec_sat_add(a: u64, b: u64) -> u64 {
    if a + b > u64::MAX {
        u64::MAX
    } else {
        (a + b) as u64
    }
}

fn sat_add(a: u64, b: u64) -> (r: u64)
    ensures
        r == spec_sat_add(a, b),
{
    if a > u64::MAX - b {
        u64::MAX
    } else {
        a + b
    }
}

impl Monitor {
    /// Fold one reaped child into the supervisor: find the service that
    /// owns `pid`, drive its state machine with the wait status, and — when
    /// it lands in `Crashed` — enqueue its backed-off restart. Returns the
    /// service's position and resulting status, or `None` when no service
    /// owns the pid.
    pub fn on_child_exit(
        &mut self,
        sched: &mut Scheduler,
        anchor: &ClockRef,
        pid: i32,
        status: i32,
        wall_now: u64,
        mono_now: u64,
    ) -> (r: Option<(usize, Status)>)
        requires
            old(self).wf(),
            old(sched).wf(),
            0 <= status < 65536,
        ensures
            final(self).wf(),
            final(sched).wf(),
            final(self).next_id == old(self).next_id,
            final(self).stats_interval == old(self).stats_interval,
            final(self).restart_interval == old(self).restart_interval,
            final(self).clock_check_interval == old(self).clock_check_interval,
            final(self).watch_restart_interval == old(self).watch_restart_interval,
            match r {
                None => {
                    &&& final(self).services@ == old(self).services@
                    &&& final(sched)@ == old(sched)@
                    &&& forall|i: int|
                        0 <= i < old(self).services@.len() ==> (
                        #[trigger] old(self).services@[i]).info.pid != Some(pid)
                },
                Some((i, st)) => {
                    let pre = old(self).services@[i as int];
                    let post_info = final(self).services@[i as int].info;
                    &&& i < old(self).services@.len()
                    &&& pre.info.pid == Some(pid)
                    &&& final(self).services@ == old(self).services@.update(
                        i as int,
                        Service { info: post_info, ..pre },
                    )
                    &&& st == post_info.status
                    &&& spec_terminated_rel(pre.info, post_info, pid, status, wall_now)
                    &&& if st == Status::Crashed {
                        spec_enqueued_any(
                            old(sched)@,
                            final(sched)@,
                            spec_restart_event(
                                pre.id,
                                spec_end_mono(*anchor, post_info.end_time),
                                post_info.crashed as nat,
                                mono_now,
                                old(self).restart_interval,
                            ),
                        )
                    } else {
                        final(sched)@ == old(sched)@
                    }
                },
            },
    {
        let idx = match self.find_by_pid(pid) {
            Some(i) => i,
            None => {
                return None;
            },
        };
        let sid = vec_ref(&self.services, idx).id;
        let mut info = vec_ref(&self.services, idx).info;
        let st = info.set_terminated(pid, status, wall_now);
        vec_set_info(&mut self.services, idx, info);
        proof {
            assert(final(self).services@ =~= old(self).services@.update(
                idx as int,
                Service { info, ..old(self).services@[idx as int] },
            ));
            assert forall|a: int, b: int|
                0 <= a < b < self.services@.len() implies (#[trigger] self.services@[a]).id != (
                #[trigger] self.services@[b]).id by {
                assert(old(self).services@[a].id == self.services@[a].id);
                assert(old(self).services@[b].id == self.services@[b].id);
            }
        }
        if matches!(st, Status::Crashed) {
            let end_mono: Option<u64> = match info.end_time {
                Some(w) => {
                    let in_range = if anchor.wall >= w {
                        anchor.wall - w <= anchor.mono
                    } else {
                        w - anchor.wall <= u64::MAX - anchor.mono
                    };
                    if in_range {
                        Some(anchor.from_systime(w))
                    } else {
                        None
                    }
                },
                None => None,
            };
            sched.schedule_restart(sid, end_mono, info.crashed, mono_now, self.restart_interval);
        }
        Some((idx, st))
    }

    /// Enqueue the debounced restart a filesystem event asks for: a
    /// watch-restart of the service, due after the watch debounce delay.
    pub fn on_watch_event(&self, sched: &mut Scheduler, id: usize, mono_now: u64)
        requires
            old(sched).wf(),
        ensures
            final(sched).wf(),
            spec_enqueued_any(
                old(sched)@,
                final(sched)@,
                SchedulerEvent::WatchServiceRestart {
                    id,
                    instant: spec_sat_add(mono_now, self.watch_restart_interval),
                },
            ),
    {
        let instant = sat_add(mono_now, self.watch_restart_interval);
        sched.enqueue(SchedulerEvent::WatchServiceRestart { id, instant });
    }

    /// Handle one due event: a cron fire or a restart spawns its service
    /// while the service exists and its intent is set (a cron fire also
    /// books the next occurrence); the periodic events re-arm themselves
    /// and ask for their refresh or check.
    pub fn handle_event(
        &self,
        sched: &mut Scheduler,
        anchor: &ClockRef,
        event: SchedulerEvent,
        mono_now: u64,
    ) -> (r: Vec<Effect>)
        requires
            self.wf(),
            old(sched).wf(),
        ensures
            final(sched).wf(),
            match event {
                SchedulerEvent::ServiceSchedule { id, wall_time, .. } => {
                    let live = exists|i: int|
                        0 <= i < self.services@.len() && (#[trigger] self.services@[i]).id == id
                            && self.services@[i].info.active;
                    if live {
                        r@ == seq![Effect::SpawnService(id)] && exists|i: int|
                            {
                                &&& 0 <= i < self.services@.len()
                                &&& (#[trigger] self.services@[i]).id == id
                                &&& self.services@[i].info.active
                                &&& crate::scheduler::spec_rescheduled_any(
                                    old(sched)@,
                                    final(sched)@,
                                    id,
                                    *anchor,
                                    self.services@[i].schedule,
                                    wall_time,
                                )
                            }
                    } else {
                        r@ == Seq::<Effect>::empty() && final(sched)@ == old(sched)@
                    }
                },
                SchedulerEvent::ServiceRestart { id, .. } => {
                    let live = exists|i: int|
                        0 <= i < self.services@.len() && (#[trigger] self.services@[i]).id == id
                            && self.services@[i].info.active;
                    final(sched)@ == old(sched)@ && r@ == if live {
                        seq![Effect::SpawnService(id)]
                    } else {
                        Seq::<Effect>::empty()
                    }
                },
                SchedulerEvent::WatchServiceRestart { id, .. } => {
                    let live = exists|i: int|
                        0 <= i < self.services@.len() && (#[trigger] self.services@[i]).id == id
                            && self.services@[i].info.active;
                    final(sched)@ == old(sched)@ && r@ == if live {
                        seq![Effect::SpawnService(id)]
                    } else {
                        Seq::<Effect>::empty()
                    }
                },
                SchedulerEvent::Sysinfo { .. } => r@ == seq![Effect::RefreshSysinfo]
                    && spec_enqueued_any(
                    old(sched)@,
                    final(sched)@,
                    SchedulerEvent::Sysinfo {
                        instant: spec_sat_add(mono_now, self.stats_interval),
                    },
                ),
                SchedulerEvent::ClockCheck { .. } => r@ == seq![Effect::CheckClock]
                    && spec_enqueued_any(
                    old(sched)@,
                    final(sched)@,
                    SchedulerEvent::ClockCheck {
                        instant: spec_sat_add(mono_now, self.clock_check_interval),
                    },
                ),
            },
    {
        let mut effects: Vec<Effect> = Vec::new();
        match event {
            SchedulerEvent::ServiceSchedule { id, wall_time, .. } => {
                match self.index_of(id) {
                    Some(i) => {
                        let s = vec_ref(&self.services, i);
                        if s.info.active {
                            proof {
                                assert(0 <= i < self.services@.len()
                                    && self.services@[i as int].id == id
                                    && self.services@[i as int].info.active);
                            }
                            effects.push(Effect::SpawnService(id));
                            sched.reschedule(id, &s.schedule, wall_time, anchor);
                            proof {
                                assert(effects@ =~= seq![Effect::SpawnService(id)]);
                            }
                        } else {
                            proof {
                                lemma_no_live(self.services@, id, i as int);
                            }
                        }
                    },
                    None => {
                    },
                }
            },
            SchedulerEvent::ServiceRestart { id, .. } => {
                match self.index_of(id) {
                    Some(i) => {
                        let s = vec_ref(&self.services, i);
                        if s.info.active {
                            proof {
                                assert(0 <= i < self.services@.len()
                                    && self.services@[i as int].id == id
                                    && self.services@[i as int].info.active);
                            }
                            effects.push(Effect::SpawnService(id));
                            proof {
                                assert(effects@ =~= seq![Effect::SpawnService(id)]);
                            }
                        } else {
                            proof {
                                lemma_no_live(self.services@, id, i as int);
                            }
                        }
                    },
                    None => {
                    },
                }
            },
            SchedulerEvent::WatchServiceRestart { id, .. } => {
                match self.index_of(id) {
                    Some(i) => {
                        let s = vec_ref(&self.services, i);
                        if s.info.active {
                            proof {
                                assert(0 <= i < self.services@.len()
                                    && self.services@[i as int].id == id
                                    && self.services@[i as int].info.active);
                            }
                            effects.push(Effect::SpawnService(id));
                            proof {
                                assert(effects@ =~= seq![Effect::SpawnService(id)]);
                            }
                        } else {
                            proof {
                                lemma_no_live(self.services@, id, i as int);
                            }
                        }
                    },
                    None => {
                    },
                }
            },
            SchedulerEvent::Sysinfo { .. } => {
                let instant = sat_add(mono_now, self.stats_interval);
                sched.enqueue(SchedulerEvent::Sysinfo { instant });
                effects.push(Effect::RefreshSysinfo);
                proof {
                    assert(effects@ =~= seq![Effect::RefreshSysinfo]);
                }
            },
            SchedulerEvent::ClockCheck { .. } => {
                let instant = sat_add(mono_now, self.clock_check_interval);
                sched.enqueue(SchedulerEvent::ClockCheck { instant });
                effects.push(Effect::CheckClock);
                proof {
                    assert(effects@ =~= seq![Effect::CheckClock]);
                }
            },
        }
        effects
    }

    /// Rebuild the schedule horizon: from a clean queue, book the next
    /// cron occurrence of every scheduled service, then one statistics
    /// refresh and one clock check — each booking source-unique.
    pub fn init(&self, sched: &mut Scheduler, anchor: &ClockRef, mono_now: u64, wall_now_s: u64)
        requires
            self.wf(),
        ensures
            final(sched).wf(),
            forall|j: int|
                0 <= j < self.services@.len() ==> spec_cron_booked(
                    final(sched)@,
                    #[trigger] self.services@[j],
                    *anchor,
                    wall_now_s,
                ),
            count_source(
                final(sched)@,
                SchedulerEvent::Sysinfo { instant: spec_sat_add(mono_now, self.stats_interval) },
            ) == 1,
            final(sched)@.contains(
                SchedulerEvent::Sysinfo { instant: spec_sat_add(mono_now, self.stats_interval) },
            ),
            count_source(
                final(sched)@,
                SchedulerEvent::ClockCheck {
                    instant: spec_sat_add(mono_now, self.clock_check_interval),
                },
            ) == 1,
            final(sched)@.contains(
                SchedulerEvent::ClockCheck {
                    instant: spec_sat_add(mono_now, self.clock_check_interval),
                },
            ),
    {
        sched.clear();
        let mut i: usize = 0;
        while i < self.services.len()
            invariant
                self.wf(),
                sched.wf(),
                i <= self.services@.len(),
                forall|j: int|
                    0 <= j < i ==> spec_cron_booked(
                        sched@,
                        #[trigger] self.services@[j],
                        *anchor,
                        wall_now_s,
                    ),
            decreases self.services.len() - i,
        {
            let s = vec_ref(&self.services, i);
            let ghost pre = sched@;
            sched.reschedule(s.id, &s.schedule, wall_now_s, anchor);
            proof {
                let si = self.services@[i as int];
                assert forall|j: int|
                    0 <= j < i + 1 implies spec_cron_booked(
                    sched@,
                    #[trigger] self.services@[j],
                    *anchor,
                    wall_now_s,
                ) by {
                    let sj = self.services@[j];
                    lemma_booked_after_reschedule(pre, sched@, si, sj, *anchor, wall_now_s, j == i);
                }
            }
            i += 1;
        }
        let sys_instant = sat_add(mono_now, self.stats_interval);
        let ghost pre_sys = sched@;
        sched.enqueue(SchedulerEvent::Sysinfo { instant: sys_instant });
        proof {
            let sys = SchedulerEvent::Sysinfo { instant: sys_instant };
            assert forall|j: int|
                0 <= j < self.services@.len() implies spec_cron_booked(
                sched@,
                #[trigger] self.services@[j],
                *anchor,
                wall_now_s,
            ) by {
                lemma_booked_preserved(pre_sys, sched@, sys, self.services@[j], *anchor, wall_now_s);
            }
        }
        let clock_instant = sat_add(mono_now, self.clock_check_interval);
        let ghost pre_clock = sched@;
        sched.enqueue(SchedulerEvent::ClockCheck { instant: clock_instant });
        proof {
            let clock = SchedulerEvent::ClockCheck { instant: clock_instant };
            assert forall|j: int|
                0 <= j < self.services@.len() implies spec_cron_booked(
                sched@,
                #[trigger] self.services@[j],
                *anchor,
                wall_now_s,
            ) by {
                lemma_booked_preserved(
                    pre_clock,
                    sched@,
                    clock,
                    self.services@[j],
                    *anchor,
                    wall_now_s,
                );
            }
        }
    }
}

/// A booking survives a reschedule of another service — their sources
/// differ — and the service just rescheduled is booked by that call.
proof fn lemma_booked_after_reschedule(
    q0: Seq<SchedulerEvent>,
    q1: Seq<SchedulerEvent>,
    si: Service,
    sj: Service,
    anchor: ClockRef,
    wall_now_s: u64,
    same: bool,
)
    requires
        crate::scheduler::spec_rescheduled_any(q0, q1, si.id, anchor, si.schedule, wall_now_s),
        same ==> sj == si,
        !same ==> sj.id != si.id && spec_cron_booked(q0, sj, anchor, wall_now_s),
    ensures
        spec_cron_booked(q1, sj, anchor, wall_now_s),
{
    if si.schedule is Some && spec_cron_next(si.schedule.unwrap()@, wall_now_s) is Some
        && spec_cron_bookable(anchor, spec_cron_next(si.schedule.unwrap()@, wall_now_s).unwrap()) {
        let wi = spec_cron_next(si.schedule.unwrap()@, wall_now_s).unwrap();
        let ev_i = spec_cron_event(si.id, anchor, wi);
        assert(spec_enqueued_any(q0, q1, ev_i));
        if same {
        } else {
            lemma_booked_preserved(q0, q1, ev_i, sj, anchor, wall_now_s);
        }
    } else {
        assert(q1 == q0);
        if same {
        }
    }
}

/// A booking survives a source-unique enqueue of an event of another
/// source.
proof fn lemma_booked_preserved(
    q0: Seq<SchedulerEvent>,
    q1: Seq<SchedulerEvent>,
    event: SchedulerEvent,
    sj: Service,
    anchor: ClockRef,
    wall_now_s: u64,
)
    requires
        spec_enqueued_any(q0, q1, event),
        spec_cron_booked(q0, sj, anchor, wall_now_s),
        match event {
            SchedulerEvent::ServiceSchedule { id, .. } => id != sj.id,
            _ => true,
        },
    ensures
        spec_cron_booked(q1, sj, anchor, wall_now_s),
{
    if sj.schedule is Some && spec_cron_next(sj.schedule.unwrap()@, wall_now_s) is Some
        && spec_cron_bookable(anchor, spec_cron_next(sj.schedule.unwrap()@, wall_now_s).unwrap()) {
        let wj = spec_cron_next(sj.schedule.unwrap()@, wall_now_s).unwrap();
        let ev_j = spec_cron_event(sj.id, anchor, wj);
        assert(!spec_source_eq(event, ev_j));
        assert(q1.contains(ev_j));
        assert(count_source(q1, ev_j) == count_source(q0, ev_j));
    }
}

/// When the service with `id` stands inactive at `i`, no service with that
/// id is live: the ids are pairwise distinct.
proof fn lemma_no_live(q: Seq<Service>, id: usize, i: int)
    requires
        forall|a: int, b: int| 0 <= a < b < q.len() ==> (#[trigger] q[a]).id != (#[trigger] q[b]).id,
        0 <= i < q.len(),
        q[i].id == id,
        !q[i].info.active,
    ensures
        !exists|j: int| 0 <= j < q.len() && (#[trigger] q[j]).id == id && q[j].info.active,
{
    assert forall|j: int| 0 <= j < q.len() && (#[trigger] q[j]).id == id implies !q[j].info.active by {
        if j < i {
            assert(q[j].id != q[i].id);
        } else if j > i {
            assert(q[i].id != q[j].id);
        }
    }
}

/// The ids to spawn: services with intent set that are not running.
pub open spec fn spec_pending_spawns(q: Seq<Service>) -> Seq<usize>
    decreases q.len(),
{
    if q.len() == 0 {
        Seq::empty()
    } else {
        spec_pending_spawns(q.drop_last()) + (if q.last().info.active && q.last().info.status
            != Status::Running {
            seq![q.last().id]
        } else {
            Seq::empty()
        })
    }
}

/// The services whose id differs from `id`: what a removal keeps.
pub open spec fn other_id(id: usize) -> spec_fn(Service) -> bool {
    |s: Service| s.id != id
}

/// Filtering preserves the pairwise distinctness of service ids and every
/// filtered element satisfies the predicate.
pub proof fn lemma_service_filter(q: Seq<Service>, p: spec_fn(Service) -> bool)
    ensures
        forall|i: int| 0 <= i < q.filter(p).len() ==> p(#[trigger] q.filter(p)[i]),
        q.filter(p).len() <= q.len(),
    decreases q.len(),
{
    #[allow(deprecated)]
    q.filter_lemma(p);
}

/// A filter that keeps every element changes nothing.
pub proof fn lemma_service_filter_all(q: Seq<Service>, p: spec_fn(Service) -> bool)
    requires
        forall|i: int| 0 <= i < q.len() ==> p(#[trigger] q[i]),
    ensures
        q.filter(p) == q,
    decreases q.len(),
{
    reveal_with_fuel(Seq::filter, 1);
    if q.len() != 0 {
        let qd = q.drop_last();
        assert(forall|i: int| 0 <= i < qd.len() ==> qd[i] == q[i]);
        lemma_service_filter_all(qd, p);
        assert(p(q.last()));
        assert(q.filter(p) =~= q);
    }
}

/// Dropping at least one element shortens the filtered sequence.
pub proof fn lemma_service_filter_len_lt(q: Seq<Service>, p: spec_fn(Service) -> bool, w: int)
    requires
        0 <= w < q.len(),
        !p(q[w]),
    ensures
        q.filter(p).len() < q.len(),
    decreases q.len(),
{
    reveal_with_fuel(Seq::filter, 1);
    let qd = q.drop_last();
    if w == q.len() - 1 {
        qd.lemma_filter_len(p);
        assert(!p(q.last()));
        assert(q.filter(p) == qd.filter(p));
    } else {
        assert(qd[w] == q[w]);
        lemma_service_filter_len_lt(qd, p, w);
        if p(q.last()) {
            assert(q.filter(p) == qd.filter(p).push(q.last()));
        } else {
            assert(q.filter(p) == qd.filter(p));
        }
    }
}

/// A queue with pairwise distinct ids keeps them distinct after a filter.
proof fn lemma_service_filter_distinct(q: Seq<Service>, p: spec_fn(Service) -> bool)
    requires
        forall|i: int, j: int|
            0 <= i < j < q.len() ==> (#[trigger] q[i]).id != (#[trigger] q[j]).id,
    ensures
        forall|i: int, j: int|
            0 <= i < j < q.filter(p).len() ==> (#[trigger] q.filter(p)[i]).id != (
            #[trigger] q.filter(p)[j]).id,
    decreases q.len(),
{
    reveal_with_fuel(Seq::filter, 1);
    if q.len() != 0 {
        let qd = q.drop_last();
        lemma_service_filter_distinct(qd, p);
        assert forall|i: int, j: int|
            0 <= i < j < q.filter(p).len() implies (#[trigger] q.filter(p)[i]).id != (
            #[trigger] q.filter(p)[j]).id by {
            if p(q.last()) {
                assert(q.filter(p) == qd.filter(p).push(q.last()));
                if j < q.filter(p).len() - 1 {
                    assert(q.filter(p)[i] == qd.filter(p)[i]);
                    assert(q.filter(p)[j] == qd.filter(p)[j]);
                } else {
                    assert(q.filter(p)[j] == q.last());
                    assert(q.filter(p)[i] == qd.filter(p)[i]);
                    let elem = qd.filter(p)[i];
                    assert(qd.filter(p).contains(elem));
                    qd.lemma_filter_contains_rev(p, elem);
                    let w = choose|w: int| 0 <= w < qd.len() && qd[w] == elem;
                    assert(q[w] == elem);
                    assert(q[w].id != q[q.len() - 1].id);
                }
            } else {
                assert(q.filter(p) == qd.filter(p));
            }
        }
    }
}

/// Read an element of the service vector.
fn vec_ref(v: &Vec<Service>, i: usize) -> (r: &Service)
    requires
        i < v@.len(),
    ensures
        *r == v@[i as int],
{
    &v[i]
}

/// Replace the runtime state of the service at `i`.
fn vec_set_info(v: &mut Vec<Service>, i: usize, info: Info)
    requires
        i < old(v)@.len(),
    ensures
        final(v)@.len() == old(v)@.len(),
        final(v)@[i as int] == (Service { info, ..old(v)@[i as int] }),
        forall|j: int| 0 <= j < old(v)@.len() && j != i ==> final(v)@[j] == old(v)@[j],
{
    let old_s = v.remove(i);
    let s = Service { info, ..old_s };
    v.insert(i, s);
}

/// Whether two strings hold the same characters.
fn str_eq(a: &str, b: &str) -> (r: bool)
    ensures
        r == (a@ == b@),
{
    let la = a.unicode_len();
    let lb = b.unicode_len();
    if la != lb {
        proof {
            assert(a@ != b@);
        }
        return false;
    }
    let mut i: usize = 0;
    while i < la
        invariant
            i <= la,
            la == a@.len(),
            la == b@.len(),
            forall|j: int| 0 <= j < i ==> a@[j] == b@[j],
        decreases la - i,
    {
        if a.get_char(i) != b.get_char(i) {
            return false;
        }
        i += 1;
    }
    proof {
        assert(a@ =~= b@);
    }
    true
}

} // verus!
