//! Deadline queue of supervisor events.
//!
//! Events carry a monotonic deadline in milliseconds. The queue keeps them
//! sorted by deadline, soonest first, and is *source-unique*: enqueueing an
//! event first drops every earlier event of the same source (same variant,
//! and for the per-service variants the same service id).

use vstd::prelude::*;

use crate::clock::ClockRef;
use crate::clock::spec_from_systime;
use crate::clock::wall_in_range;

verus! {

/// A time-tagged supervisor event.
#[derive(Debug, Clone, Copy, PartialEq, Eq, Structural)]
pub enum SchedulerEvent {
    /// a cron occurrence for a service; the wall time of the occurrence is
    /// retained (in seconds) so the next one can be computed from it
    ServiceSchedule { id: usize, instant: u64, wall_time: u64 },
    /// a crash-restart for a service
    ServiceRestart { id: usize, instant: u64 },
    /// a debounced restart requested by the filesystem watcher
    WatchServiceRestart { id: usize, instant: u64 },
    /// the periodic resource-statistics refresh
    Sysinfo { instant: u64 },
    /// the periodic monotonic-vs-wallclock drift test
    ClockCheck { instant: u64 },
}

pub open spec fn spec_instant(e: SchedulerEvent) -> u64 {
    match e {
        SchedulerEvent::ServiceSchedule { instant, .. } => instant,
        SchedulerEvent::ServiceRestart { instant, .. } => instant,
        SchedulerEvent::WatchServiceRestart { instant, .. } => instant,
        SchedulerEvent::Sysinfo { instant } => instant,
        SchedulerEvent::ClockCheck { instant } => instant,
    }
}

pub open spec fn spec_id(e: SchedulerEvent) -> Option<usize> {
    match e {
        SchedulerEvent::ServiceSchedule { id, .. } => Some(id),
        SchedulerEvent::ServiceRestart { id, .. } => Some(id),
        SchedulerEvent::WatchServiceRestart { id, .. } => Some(id),
        SchedulerEvent::Sysinfo { .. } => None,
        SchedulerEvent::ClockCheck { .. } => None,
    }
}

/// Two events share a source when they are the same variant and, for the
/// per-service variants, carry the same service id.
pub open spec fn spec_source_eq(a: SchedulerEvent, b: SchedulerEvent) -> bool {
    match (a, b) {
        (
            SchedulerEvent::ServiceSchedule { id: x, .. },
            SchedulerEvent::ServiceSchedule { id: y, .. },
        ) => x == y,
        (
            SchedulerEvent::ServiceRestart { id: x, .. },
            SchedulerEvent::ServiceRestart { id: y, .. },
        ) => x == y,
        (
            SchedulerEvent::WatchServiceRestart { id: x, .. },
            SchedulerEvent::WatchServiceRestart { id: y, .. },
        ) => x == y,
        (SchedulerEvent::Sysinfo { .. }, SchedulerEvent::Sysinfo { .. }) => true,
        (SchedulerEvent::ClockCheck { .. }, SchedulerEvent::ClockCheck { .. }) => true,
        _ => false,
    }
}

/// How many events of `q` share their source with `like`.
pub open spec fn count_source(q: Seq<SchedulerEvent>, like: SchedulerEvent) -> nat
    decreases q.len(),
{
    if q.len() == 0 {
        0
    } else {
        (if spec_source_eq(q[0], like) {
            1nat
        } else {
            0nat
        }) + count_source(q.drop_first(), like)
    }
}

/// The events that do not share their source with `like`: what a
/// source-unique enqueue keeps.
pub open spec fn not_same_source(like: SchedulerEvent) -> spec_fn(SchedulerEvent) -> bool {
    |e: SchedulerEvent| !spec_source_eq(e, like)
}

/// The events that do not belong to service `service`.
pub open spec fn not_service(service: usize) -> spec_fn(SchedulerEvent) -> bool {
    |e: SchedulerEvent| spec_id(e) != Some(service)
}

/// What one source-unique enqueue does to the queue: `q1` holds exactly one
/// event of the new event's source (the new one), keeps every event of the
/// other sources and nothing else, and `r` says whether the new deadline is
/// the head of the queue.
pub open spec fn spec_enqueued_any(
    q0: Seq<SchedulerEvent>,
    q1: Seq<SchedulerEvent>,
    event: SchedulerEvent,
) -> bool {
    &&& count_source(q1, event) == 1
    &&& q1.contains(event)
    &&& q1.len() == q0.filter(not_same_source(event)).len() + 1
    &&& forall|e: SchedulerEvent| q0.contains(e) && !spec_source_eq(e, event) ==> q1.contains(e)
    &&& forall|e: SchedulerEvent|
        q1.contains(e) ==> e == event || (q0.contains(e) && !spec_source_eq(e, event))
    &&& forall|like: SchedulerEvent|
        !spec_source_eq(event, like) ==> count_source(q1, like) == count_source(q0, like)
}

pub open spec fn spec_enqueued(
    q0: Seq<SchedulerEvent>,
    q1: Seq<SchedulerEvent>,
    event: SchedulerEvent,
    r: bool,
) -> bool {
    &&& spec_enqueued_any(q0, q1, event)
    &&& r == (spec_instant(q1[0]) == spec_instant(event))
}

impl SchedulerEvent {
    /// The service this event belongs to, if it belongs to one.
    pub fn id(&self) -> (r: Option<usize>)
        ensures
            r == spec_id(*self),
    {
        match self {
            SchedulerEvent::ServiceSchedule { id, .. } => Some(*id),
            SchedulerEvent::ServiceRestart { id, .. } => Some(*id),
            SchedulerEvent::WatchServiceRestart { id, .. } => Some(*id),
            SchedulerEvent::Sysinfo { .. } => None,
            SchedulerEvent::ClockCheck { .. } => None,
        }
    }

    /// The monotonic deadline of this event.
    pub fn instant(&self) -> (r: u64)
        ensures
            r == spec_instant(*self),
    {
        match self {
            SchedulerEvent::ServiceSchedule { instant, .. } => *instant,
            SchedulerEvent::ServiceRestart { instant, .. } => *instant,
            SchedulerEvent::WatchServiceRestart { instant, .. } => *instant,
            SchedulerEvent::Sysinfo { instant } => *instant,
            SchedulerEvent::ClockCheck { instant } => *instant,
        }
    }

    /// Whether `other` stems from the same source as `self`.
    pub fn is_source_eq(&self, other: &SchedulerEvent) -> (r: bool)
        ensures
            r == spec_source_eq(*self, *other),
    {
        match (self, other) {
            (
                SchedulerEvent::ServiceSchedule { id: x, .. },
                SchedulerEvent::ServiceSchedule { id: y, .. },
            ) => x == y,
            (
                SchedulerEvent::ServiceRestart { id: x, .. },
                SchedulerEvent::ServiceRestart { id: y, .. },
            ) => x == y,
            (
                SchedulerEvent::WatchServiceRestart { id: x, .. },
                SchedulerEvent::WatchServiceRestart { id: y, .. },
            ) => x == y,
            (SchedulerEvent::Sysinfo { .. }, SchedulerEvent::Sysinfo { .. }) => true,
            (SchedulerEvent::ClockCheck { .. }, SchedulerEvent::ClockCheck { .. }) => true,
            _ => false,
        }
    }
}

/// The event queue, kept sorted by deadline, soonest first.
#[derive(Debug)]
pub struct Scheduler {
    queue: Vec<SchedulerEvent>,
}

/// Sorted by deadline, non-decreasing.
pub open spec fn sorted_by_instant(q: Seq<SchedulerEvent>) -> bool {
    forall|i: int, j: int|
        0 <= i <= j < q.len() ==> spec_instant(#[trigger] q[i]) <= spec_instant(#[trigger] q[j])
}

impl Scheduler {
    pub closed spec fn view(&self) -> Seq<SchedulerEvent> {
        self.queue@
    }

    pub open spec fn wf(&self) -> bool {
        sorted_by_instant(self.view())
    }

    /// An empty queue.
    pub fn new() -> (r: Scheduler)
        ensures
            r.wf(),
            r@ == Seq::<SchedulerEvent>::empty(),
    {
        Scheduler { queue: Vec::new() }
    }

    /// Drop every queued event.
    pub fn clear(&mut self)
        ensures
            final(self).wf(),
            final(self)@ == Seq::<SchedulerEvent>::empty(),
    {
        self.queue.clear();
    }

    /// A snapshot of the queue, soonest deadline first.
    pub fn dump(&self) -> (r: Vec<SchedulerEvent>)
        ensures
            r@ == self@,
    {
        let mut out: Vec<SchedulerEvent> = Vec::new();
        let mut i: usize = 0;
        while i < self.queue.len()
            invariant
                i <= self.queue.len(),
                out@ == self.queue@.take(i as int),
            decreases self.queue.len() - i,
        {
            out.push(self.queue[i]);
            proof {
                assert(self.queue@.take(i + 1) == self.queue@.take(i as int).push(
                    self.queue@[i as int],
                ));
            }
            i += 1;
        }
        proof {
            assert(self.queue@.take(self.queue@.len() as int) == self.queue@);
        }
        out
    }

    /// Remove every event that shares its source with `like`.
    fn remove_source(&mut self, like: &SchedulerEvent)
        requires
            old(self).wf(),
        ensures
            final(self).wf(),
            final(self)@ == old(self)@.filter(not_same_source(*like)),
    {
        let ghost q0 = self.queue@;
        let mut out: Vec<SchedulerEvent> = Vec::new();
        let mut i: usize = 0;
        while i < self.queue.len()
            invariant
                i <= self.queue.len(),
                self.queue@ == q0,
                out@ == q0.take(i as int).filter(not_same_source(*like)),
            decreases self.queue.len() - i,
        {
            let e = self.queue[i];
            proof {
                reveal_with_fuel(Seq::filter, 2);
                assert(q0.take(i + 1).drop_last() == q0.take(i as int));
                assert(q0.take(i + 1).last() == q0[i as int]);
            }
            if !e.is_source_eq(like) {
                out.push(e);
            }
            i += 1;
        }
        proof {
            assert(q0.take(q0.len() as int) == q0);
        }
        self.queue = out;
        proof {
            lemma_filter_sorted(q0, not_same_source(*like));
        }
    }

    /// Enqueue `event`, dropping every earlier event of the same source.
    ///
    /// Afterwards the queue holds exactly one event of that source: the new
    /// one. Every event of another source is kept, and nothing else enters
    /// the queue. Returns whether the new event's deadline is now the head
    /// of the queue.
    pub fn enqueue(&mut self, event: SchedulerEvent) -> (r: bool)
        requires
            old(self).wf(),
        ensures
            final(self).wf(),
            spec_enqueued(old(self)@, final(self)@, event, r),
    {
        self.remove_source(&event);
        let ghost qf = self.queue@;
        proof {
            lemma_filter_no_source(old(self)@, event);
            lemma_filter_contains(old(self)@, not_same_source(event));
        }
        // find the first position whose deadline is later than the event's
        let t = event.instant();
        let idx = insert_pos(&self.queue, t);
        self.queue.insert(idx, event);
        proof {
            let q1 = self.queue@;
            assert(q1 == qf.insert(idx as int, event));
            qf.insert_ensures(idx as int, event);
            lemma_count_insert(qf, idx as int, event, event);
            assert(count_source(qf, event) == 0);
            assert forall|i: int, j: int| 0 <= i <= j < q1.len() implies spec_instant(
                #[trigger] q1[i],
            ) <= spec_instant(#[trigger] q1[j]) by {
                if i < idx {
                    assert(qf.insert(idx as int, event)[i] == qf[i]);
                } else if i > idx {
                    assert(qf.insert(idx as int, event)[i] == qf[i - 1]);
                }
                if j < idx {
                    assert(qf.insert(idx as int, event)[j] == qf[j]);
                } else if j > idx {
                    assert(qf.insert(idx as int, event)[j] == qf[j - 1]);
                }
            }
            assert(q1.contains(event)) by {
                assert(q1[idx as int] == event);
            }
            assert forall|e: SchedulerEvent|
                old(self)@.contains(e) && !spec_source_eq(e, event) implies q1.contains(e) by {
                assert(old(self)@.filter(not_same_source(event)).contains(e));
                let k = choose|k: int| 0 <= k < qf.len() && qf[k] == e;
                if k < idx {
                    assert(qf.insert(idx as int, event)[k] == qf[k]);
                    assert(q1[k] == e);
                } else {
                    assert(qf.insert(idx as int, event)[k + 1] == qf[k]);
                    assert(q1[k + 1] == e);
                }
            }
            assert forall|e: SchedulerEvent| q1.contains(e) implies e == event || (
            old(self)@.contains(e) && !spec_source_eq(e, event)) by {
                let k = choose|k: int| 0 <= k < q1.len() && q1[k] == e;
                if k != idx {
                    if k < idx {
                        assert(qf.insert(idx as int, event)[k] == qf[k]);
                        assert(qf[k] == e);
                    } else {
                        assert(qf.insert(idx as int, event)[k] == qf[k - 1]);
                        assert(qf[k - 1] == e);
                    }
                    assert(qf.contains(e));
                    assert(old(self)@.filter(not_same_source(event)).contains(e));
                }
            }
            assert forall|like: SchedulerEvent| !spec_source_eq(event, like) implies count_source(
                q1,
                like,
            ) == count_source(old(self)@, like) by {
                lemma_count_insert(qf, idx as int, event, like);
                lemma_count_filter_other(old(self)@, event, like);
            }
            assert(spec_instant(q1[0]) == spec_instant(event) <==> idx == 0 || spec_instant(
                qf[0],
            ) == spec_instant(event)) by {
                if idx == 0 {
                    assert(q1[0] == event);
                } else {
                    assert(q1[0] == qf[0]);
                    assert(spec_instant(qf[0]) <= spec_instant(event));
                }
            }
        }
        idx == 0 || self.queue[0].instant() == t
    }

    /// Milliseconds from `now` until the soonest deadline, zero when it is
    /// already due; `None` on an empty queue.
    pub fn peek(&self, now: u64) -> (r: Option<u64>)
        ensures
            match r {
                Some(d) => self@.len() > 0 && d == if spec_instant(self@[0]) >= now {
                    spec_instant(self@[0]) - now
                } else {
                    0
                },
                None => self@.len() == 0,
            },
    {
        if self.queue.len() == 0 {
            None
        } else {
            let head = self.queue[0].instant();
            if head >= now {
                Some(head - now)
            } else {
                Some(0)
            }
        }
    }

    /// Remove every event whose source id is `service`; events of other
    /// services and the id-less events stay.
    pub fn remove(&mut self, service: usize)
        requires
            old(self).wf(),
        ensures
            final(self).wf(),
            final(self)@ == old(self)@.filter(not_service(service)),
    {
        let ghost q0 = self.queue@;
        let mut out: Vec<SchedulerEvent> = Vec::new();
        let mut i: usize = 0;
        while i < self.queue.len()
            invariant
                i <= self.queue.len(),
                self.queue@ == q0,
                out@ == q0.take(i as int).filter(not_service(service)),
            decreases self.queue.len() - i,
        {
            let e = self.queue[i];
            proof {
                reveal_with_fuel(Seq::filter, 2);
                assert(q0.take(i + 1).drop_last() == q0.take(i as int));
                assert(q0.take(i + 1).last() == q0[i as int]);
            }
            let keep = match e.id() {
                Some(id) => id != service,
                None => true,
            };
            if keep {
                out.push(e);
            }
            i += 1;
        }
        proof {
            assert(q0.take(q0.len() as int) == q0);
        }
        self.queue = out;
        proof {
            lemma_filter_sorted(q0, not_service(service));
        }
    }

    /// Pop and return every event due at `now`: exactly those whose deadline
    /// is `now` or earlier. Later events remain queued, in order.
    pub fn iter(&mut self, now: u64) -> (r: Vec<SchedulerEvent>)
        requires
            old(self).wf(),
        ensures
            final(self).wf(),
            exists|k: int|
                {
                    &&& 0 <= k <= old(self)@.len()
                    &&& r@ == old(self)@.take(k)
                    &&& final(self)@ == old(self)@.skip(k)
                    &&& forall|i: int|
                        0 <= i < old(self)@.len() ==> (spec_instant(#[trigger] old(self)@[i]) <= now
                            <==> i < k)
                },
    {
        let ghost q0 = self.queue@;
        let mut out: Vec<SchedulerEvent> = Vec::new();
        let mut k: usize = 0;
        while k < self.queue.len() && self.queue[k].instant() <= now
            invariant
                k <= self.queue.len(),
                self.queue@ == q0,
                sorted_by_instant(q0),
                out@ == q0.take(k as int),
                forall|j: int| 0 <= j < k ==> spec_instant(#[trigger] q0[j]) <= now,
            decreases self.queue.len() - k,
        {
            out.push(self.queue[k]);
            proof {
                assert(q0.take(k + 1) == q0.take(k as int).push(q0[k as int]));
            }
            k += 1;
        }
        let ghost kk = k as int;
        // drop the popped prefix
        let mut rest: Vec<SchedulerEvent> = Vec::new();
        let mut i: usize = k;
        while i < self.queue.len()
            invariant
                0 <= kk <= i <= self.queue.len(),
                self.queue@ == q0,
                rest@ == q0.subrange(kk, i as int),
            decreases self.queue.len() - i,
        {
            rest.push(self.queue[i]);
            proof {
                assert(q0.subrange(kk, i + 1) == q0.subrange(kk, i as int).push(q0[i as int]));
            }
            i += 1;
        }
        self.queue = rest;
        proof {
            assert(final(self)@ == q0.skip(kk));
            assert forall|i: int| 0 <= i < q0.len() implies (spec_instant(#[trigger] q0[i]) <= now
                <==> i < kk) by {
                if i < kk {
                } else {
                    if kk < q0.len() {
                        assert(spec_instant(q0[kk]) > now);
                        assert(spec_instant(q0[kk]) <= spec_instant(q0[i]));
                    }
                }
            }
            assert(sorted_by_instant(q0.skip(kk))) by {
                assert forall|a: int, b: int| 0 <= a <= b < q0.skip(kk).len() implies spec_instant(
                    #[trigger] q0.skip(kk)[a],
                ) <= spec_instant(#[trigger] q0.skip(kk)[b]) by {
                    assert(q0.skip(kk)[a] == q0[a + kk]);
                    assert(q0.skip(kk)[b] == q0[b + kk]);
                }
            }
        }
        out
    }
}

/// Exponential restart backoff, doubling per consecutive crash and
/// saturating at the top of `u64`: `k` saturated doublings of `interval`.
pub open spec fn sat_doublings(interval: u64, k: nat) -> u64
    decreases k,
{
    if k == 0 {
        interval
    } else {
        let p = sat_doublings(interval, (k - 1) as nat);
        if p > u64::MAX / 2 {
            u64::MAX
        } else {
            (2 * p) as u64
        }
    }
}

/// The delay before the restart of a service that crashed `crashed` times
/// in a row: `interval * 2^(crashed - 1)`, saturating.
pub open spec fn spec_backoff(interval: u64, crashed: nat) -> u64
    recommends
        crashed >= 1,
{
    sat_doublings(interval, (crashed - 1) as nat)
}

/// Where the backoff does not saturate it is exactly
/// `interval * 2^(crashed - 1)`.
pub proof fn lemma_backoff_exact(interval: u64, crashed: nat)
    requires
        crashed >= 1,
        interval * vstd::arithmetic::power2::pow2((crashed - 1) as nat) <= u64::MAX,
    ensures
        spec_backoff(interval, crashed) == interval * vstd::arithmetic::power2::pow2(
            (crashed - 1) as nat,
        ),
{
    lemma_sat_doublings_exact(interval, (crashed - 1) as nat);
}

proof fn lemma_sat_doublings_exact(interval: u64, k: nat)
    requires
        interval * vstd::arithmetic::power2::pow2(k) <= u64::MAX,
    ensures
        sat_doublings(interval, k) == interval * vstd::arithmetic::power2::pow2(k),
    decreases k,
{
    vstd::arithmetic::power2::lemma_pow2_pos(k);
    if k == 0 {
        vstd::arithmetic::power2::lemma2_to64();
        assert(vstd::arithmetic::power2::pow2(0) == 1);
    } else {
        let km = (k - 1) as nat;
        vstd::arithmetic::power2::lemma_pow2_pos(km);
        assert(vstd::arithmetic::power2::pow2(k) == 2 * vstd::arithmetic::power2::pow2(km)) by {
            vstd::arithmetic::power2::lemma_pow2_unfold(k);
        }
        assert(interval * vstd::arithmetic::power2::pow2(km) <= u64::MAX) by (nonlinear_arith)
            requires
                interval * vstd::arithmetic::power2::pow2(k) <= u64::MAX,
                vstd::arithmetic::power2::pow2(k) == 2 * vstd::arithmetic::power2::pow2(km),
                vstd::arithmetic::power2::pow2(km) >= 1,
                interval >= 0,
        ;
        lemma_sat_doublings_exact(interval, km);
        let p = sat_doublings(interval, km);
        assert(2 * (interval * vstd::arithmetic::power2::pow2(km)) == interval
            * vstd::arithmetic::power2::pow2(k)) by (nonlinear_arith)
            requires
                vstd::arithmetic::power2::pow2(k) == 2 * vstd::arithmetic::power2::pow2(km),
        ;
        assert(p <= u64::MAX / 2);
    }
}

/// Between one crash and the next the backoff exactly doubles, up to
/// saturation: the interval between successive restart deadlines grows as
/// `interval * 2^(crashed - 1)` does.
pub proof fn lemma_backoff_doubles(interval: u64, crashed: nat)
    requires
        crashed >= 1,
    ensures
        spec_backoff(interval, (crashed + 1) as nat) == if spec_backoff(interval, crashed)
            > u64::MAX / 2 {
            u64::MAX as int
        } else {
            2 * spec_backoff(interval, crashed)
        },
{
}

/// Once saturated, further doublings stay saturated; a zero interval stays
/// zero.
proof fn lemma_sat_doublings_stable(interval: u64, k: nat)
    ensures
        sat_doublings(interval, k) == u64::MAX ==> sat_doublings(interval, (k + 1) as nat)
            == u64::MAX,
        interval == 0 ==> sat_doublings(interval, k) == 0,
    decreases k,
{
    if k > 0 {
        lemma_sat_doublings_stable(interval, (k - 1) as nat);
    }
}

/// With a positive interval, 64 doublings saturate.
proof fn lemma_sat_doublings_saturates(interval: u64, k: nat)
    requires
        interval >= 1,
        k >= 64,
    ensures
        sat_doublings(interval, k) == u64::MAX,
    decreases k,
{
    if k == 64 {
        lemma_sat_doublings_lower(interval, 64);
        vstd::arithmetic::power2::lemma2_to64_rest();
        assert(vstd::arithmetic::power2::pow2(64) == 0x10000000000000000);
    } else {
        lemma_sat_doublings_saturates(interval, (k - 1) as nat);
    }
}

/// A positive interval doubled `k` times reaches at least `2^k`, up to
/// saturation.
proof fn lemma_sat_doublings_lower(interval: u64, k: nat)
    requires
        interval >= 1,
    ensures
        sat_doublings(interval, k) >= vstd::arithmetic::power2::pow2(k) || sat_doublings(
            interval,
            k,
        ) == u64::MAX,
    decreases k,
{
    vstd::arithmetic::power2::lemma_pow2_pos(k);
    if k == 0 {
        vstd::arithmetic::power2::lemma2_to64();
    } else {
        let km = (k - 1) as nat;
        lemma_sat_doublings_lower(interval, km);
        vstd::arithmetic::power2::lemma_pow2_unfold(k);
        vstd::arithmetic::power2::lemma_pow2_pos(km);
    }
}

/// Compute the restart backoff: `interval * 2^(crashed - 1)`, saturating.
pub fn backoff(interval: u64, crashed: usize) -> (r: u64)
    requires
        crashed >= 1,
    ensures
        r == spec_backoff(interval, crashed as nat),
{
    if interval == 0 {
        proof {
            lemma_sat_doublings_stable(interval, (crashed - 1) as nat);
        }
        return 0;
    }
    let mut doublings: usize = crashed - 1;
    if doublings >= 64 {
        proof {
            lemma_sat_doublings_saturates(interval, (crashed - 1) as nat);
        }
        return u64::MAX;
    }
    let mut d: u64 = interval;
    let mut i: usize = 0;
    while i < doublings
        invariant
            i <= doublings,
            d == sat_doublings(interval, i as nat),
        decreases doublings - i,
    {
        if d > u64::MAX / 2 {
            d = u64::MAX;
        } else {
            d = 2 * d;
        }
        i += 1;
    }
    d
}

/// The deadline of the crash-restart of a service: its end time (or `now`
/// when none is recorded) plus the exponential backoff, saturating.
pub open spec fn spec_restart_event(
    id: usize,
    end_time: Option<u64>,
    crashed: nat,
    now: u64,
    interval: u64,
) -> SchedulerEvent {
    let base = match end_time {
        Some(t) => t,
        None => now,
    };
    let delay = spec_backoff(interval, crashed);
    let instant = if base + delay > u64::MAX {
        u64::MAX
    } else {
        (base + delay) as u64
    };
    SchedulerEvent::ServiceRestart { id, instant }
}

/// Whether the next occurrence `w` can be booked at all: it fits the
/// millisecond scale and its deadline is representable through `anchor`.
pub open spec fn spec_cron_bookable(anchor: ClockRef, w: u64) -> bool {
    w <= u64::MAX as int / 1000 && wall_in_range(anchor, (w * 1000) as u64)
}

/// What one cron rescheduling does to the queue: with a schedule whose
/// next occurrence exists and can be anchored, that occurrence is enqueued
/// source-uniquely; in every other case the queue is unchanged.
pub open spec fn spec_rescheduled_any(
    q0: Seq<SchedulerEvent>,
    q1: Seq<SchedulerEvent>,
    id: usize,
    anchor: ClockRef,
    schedule: Option<String>,
    last_wall_s: u64,
) -> bool {
    match schedule {
        Some(expr) => match spec_cron_next(expr@, last_wall_s) {
            Some(w) => if spec_cron_bookable(anchor, w) {
                spec_enqueued_any(q0, q1, spec_cron_event(id, anchor, w))
            } else {
                q1 == q0
            },
            None => q1 == q0,
        },
        None => q1 == q0,
    }
}

/// `spec_rescheduled_any`, together with what the call reports: head-ness
/// of the booked occurrence, or no new head where nothing was booked.
pub open spec fn spec_rescheduled(
    q0: Seq<SchedulerEvent>,
    q1: Seq<SchedulerEvent>,
    id: usize,
    anchor: ClockRef,
    schedule: Option<String>,
    last_wall_s: u64,
    r: bool,
) -> bool {
    &&& spec_rescheduled_any(q0, q1, id, anchor, schedule, last_wall_s)
    &&& match schedule {
        Some(expr) => match spec_cron_next(expr@, last_wall_s) {
            Some(w) => if spec_cron_bookable(anchor, w) {
                r == (spec_instant(q1[0]) == spec_instant(spec_cron_event(id, anchor, w)))
            } else {
                !r
            },
            None => !r,
        },
        None => !r,
    }
}

/// The queue entry for a cron occurrence at wall time `w` (seconds),
/// anchored to the monotonic scale through `anchor`.
pub open spec fn spec_cron_event(id: usize, anchor: ClockRef, w: u64) -> SchedulerEvent {
    SchedulerEvent::ServiceSchedule {
        id,
        instant: spec_from_systime(anchor, (w * 1000) as u64) as u64,
        wall_time: w,
    }
}

/// The next occurrence of the cron expression strictly after a wall time
/// (seconds since the Unix epoch, on the UTC calendar); `None` when the
/// expression does not parse or no occurrence exists. A function of the
/// expression text and the time alone.
pub uninterp spec fn spec_cron_next(expr: Seq<char>, after_wall_s: u64) -> Option<u64>;

/// Relies on croner's cron parser and `find_next_occurrence`: the result
/// is `spec_cron_next` of the expression and the time, and — with
/// `inclusive` false the search starts one second past the given time — a
/// returned occurrence is strictly later.
#[verifier::external_body]
fn cron_next(expr: &str, after_wall_s: u64) -> (r: Option<u64>)
    ensures
        r == spec_cron_next(expr@, after_wall_s),
        r is Some ==> after_wall_s < r.unwrap(),
{
    let cron: croner::Cron = expr.parse().ok()?;
    let after_s = i64::try_from(after_wall_s).ok()?;
    let after = chrono::DateTime::from_timestamp(after_s, 0)?.naive_utc();
    match cron.find_next_occurrence(&after, false) {
        Ok(next) => u64::try_from(next.and_utc().timestamp()).ok(),
        Err(_) => None,
    }
}

impl Scheduler {
    /// Enqueue the crash-restart of service `id`, due at its end time (or
    /// `now`) plus `interval * 2^(crashed - 1)`; returns whether that
    /// deadline is now the head of the queue.
    pub fn schedule_restart(
        &mut self,
        id: usize,
        end_time: Option<u64>,
        crashed: usize,
        now: u64,
        interval: u64,
    ) -> (r: bool)
        requires
            old(self).wf(),
            crashed >= 1,
        ensures
            final(self).wf(),
            spec_enqueued(
                old(self)@,
                final(self)@,
                spec_restart_event(id, end_time, crashed as nat, now, interval),
                r,
            ),
    {
        let base = match end_time {
            Some(t) => t,
            None => now,
        };
        let delay = backoff(interval, crashed);
        let instant = if base > u64::MAX - delay {
            u64::MAX
        } else {
            base + delay
        };
        self.enqueue(SchedulerEvent::ServiceRestart { id, instant })
    }

    /// Enqueue the next cron occurrence of service `id`, strictly after the
    /// wall time `last_wall_s` of the previous one: exactly when a schedule
    /// is given, its next occurrence exists and its deadline can be
    /// anchored, that occurrence is enqueued source-uniquely, with its wall
    /// time retained and its deadline converted through `anchor`; otherwise
    /// the queue is unchanged and `false` comes back.
    pub fn reschedule(
        &mut self,
        id: usize,
        schedule: &Option<String>,
        last_wall_s: u64,
        anchor: &ClockRef,
    ) -> (r: bool)
        requires
            old(self).wf(),
        ensures
            final(self).wf(),
            spec_rescheduled(old(self)@, final(self)@, id, *anchor, *schedule, last_wall_s, r),
    {
        let expr = match schedule {
            Some(e) => e,
            None => {
                return false;
            },
        };
        let w = match cron_next(expr.as_str(), last_wall_s) {
            Some(w) => w,
            None => {
                return false;
            },
        };
        if w > u64::MAX / 1000 {
            return false;
        }
        let wall_ms = w * 1000;
        let in_range = if anchor.wall >= wall_ms {
            anchor.wall - wall_ms <= anchor.mono
        } else {
            wall_ms - anchor.wall <= u64::MAX - anchor.mono
        };
        if !in_range {
            return false;
        }
        let instant = anchor.from_systime(wall_ms);
        let r = self.enqueue(SchedulerEvent::ServiceSchedule { id, instant, wall_time: w });
        proof {
            assert(spec_enqueued(old(self)@, self@, spec_cron_event(id, *anchor, w), r));
        }
        r
    }
}


/// First index of `q` whose deadline is later than `t`: the insertion
/// point that keeps the queue sorted and places the new event after its
/// deadline peers.
fn insert_pos(q: &Vec<SchedulerEvent>, t: u64) -> (idx: usize)
    requires
        sorted_by_instant(q@),
    ensures
        idx <= q@.len(),
        forall|j: int| 0 <= j < idx ==> spec_instant(#[trigger] q@[j]) <= t,
        forall|j: int| idx <= j < q@.len() ==> spec_instant(#[trigger] q@[j]) > t,
{
    let mut idx: usize = 0;
    while idx < q.len()
        invariant
            idx <= q@.len(),
            sorted_by_instant(q@),
            forall|j: int| 0 <= j < idx ==> spec_instant(#[trigger] q@[j]) <= t,
        decreases q@.len() - idx,
    {
        let due = q[idx].instant();
        if due > t {
            proof {
                assert forall|j: int| idx <= j < q@.len() implies spec_instant(#[trigger] q@[j])
                    > t by {
                    assert(spec_instant(q@[idx as int]) <= spec_instant(q@[j]));
                }
            }
            return idx;
        }
        idx += 1;
    }
    idx
}

/// Filtering keeps a deadline-sorted queue sorted.
proof fn lemma_filter_sorted(q: Seq<SchedulerEvent>, p: spec_fn(SchedulerEvent) -> bool)
    requires
        sorted_by_instant(q),
    ensures
        sorted_by_instant(q.filter(p)),
    decreases q.len(),
{
    reveal_with_fuel(Seq::filter, 1);
    if q.len() != 0 {
        lemma_filter_sorted(q.drop_last(), p);
        assert forall|i: int, j: int| 0 <= i <= j < q.filter(p).len() implies spec_instant(
            #[trigger] q.filter(p)[i],
        ) <= spec_instant(#[trigger] q.filter(p)[j]) by {
            let qd = q.drop_last();
            qd.filter_lemma(p);
            q.filter_lemma(p);
            if p(q.last()) {
                assert(q.filter(p) == qd.filter(p).push(q.last()));
                if j < q.filter(p).len() - 1 {
                    assert(q.filter(p)[i] == qd.filter(p)[i]);
                    assert(q.filter(p)[j] == qd.filter(p)[j]);
                } else {
                    assert(q.filter(p)[j] == q.last());
                    if i < q.filter(p).len() - 1 {
                        assert(qd.filter(p)[i] == q.filter(p)[i]);
                        let elem = qd.filter(p)[i];
                        assert(qd.filter(p).contains(elem));
                        qd.lemma_filter_contains_rev(p, elem);
                        let w = choose|w: int| 0 <= w < qd.len() && qd[w] == elem;
                        assert(q[w] == elem);
                        assert(spec_instant(q[w]) <= spec_instant(q[q.len() - 1]));
                    }
                }
            } else {
                assert(q.filter(p) == qd.filter(p));
            }
        }
    }
}

/// After filtering out a source, no event of that source is counted.
proof fn lemma_filter_no_source(q: Seq<SchedulerEvent>, like: SchedulerEvent)
    ensures
        count_source(q.filter(not_same_source(like)), like) == 0,
{
    let qf = q.filter(not_same_source(like));
    q.filter_lemma(not_same_source(like));
    lemma_count_zero(qf, like);
}

/// A queue with no event of a source counts zero for it.
proof fn lemma_count_zero(q: Seq<SchedulerEvent>, like: SchedulerEvent)
    requires
        forall|i: int| 0 <= i < q.len() ==> !spec_source_eq(#[trigger] q[i], like),
    ensures
        count_source(q, like) == 0,
    decreases q.len(),
{
    if q.len() != 0 {
        lemma_count_zero(q.drop_first(), like);
    }
}

/// Inserting one event raises the count of its own source by one and keeps
/// every other count.
proof fn lemma_count_insert(q: Seq<SchedulerEvent>, i: int, x: SchedulerEvent, like: SchedulerEvent)
    requires
        0 <= i <= q.len(),
    ensures
        count_source(q.insert(i, x), like) == count_source(q, like) + if spec_source_eq(x, like) {
            1int
        } else {
            0int
        },
    decreases q.len(),
{
    if i == 0 {
        assert(q.insert(0, x).drop_first() == q);
    } else {
        assert(q.len() > 0);
        assert(q.insert(i, x)[0] == q[0]);
        assert(q.insert(i, x).drop_first() == q.drop_first().insert(i - 1, x));
        lemma_count_insert(q.drop_first(), i - 1, x, like);
    }
}

/// Appending one event raises the count of its source by one and keeps
/// every other count.
proof fn lemma_count_push(q: Seq<SchedulerEvent>, x: SchedulerEvent, like: SchedulerEvent)
    ensures
        count_source(q.push(x), like) == count_source(q, like) + if spec_source_eq(x, like) {
            1int
        } else {
            0int
        },
    decreases q.len(),
{
    if q.len() == 0 {
        assert(q.push(x).drop_first() =~= q);
    } else {
        assert(q.push(x)[0] == q[0]);
        assert(q.push(x).drop_first() =~= q.drop_first().push(x));
        lemma_count_push(q.drop_first(), x, like);
    }
}

/// Dropping the events of one source does not change the count of any
/// other source.
proof fn lemma_count_filter_other(q: Seq<SchedulerEvent>, event: SchedulerEvent, like: SchedulerEvent)
    requires
        !spec_source_eq(event, like),
    ensures
        count_source(q.filter(not_same_source(event)), like) == count_source(q, like),
    decreases q.len(),
{
    reveal_with_fuel(Seq::filter, 1);
    if q.len() != 0 {
        let qd = q.drop_last();
        let p = not_same_source(event);
        lemma_count_filter_other(qd, event, like);
        assert(qd.push(q.last()) =~= q);
        lemma_count_push(qd, q.last(), like);
        if p(q.last()) {
            assert(q.filter(p) == qd.filter(p).push(q.last()));
            lemma_count_push(qd.filter(p), q.last(), like);
        } else {
            assert(spec_source_eq(q.last(), event));
            assert(!spec_source_eq(q.last(), like));
            assert(q.filter(p) == qd.filter(p));
        }
    }
}

/// Every element of a filtered queue already stood in the queue.
proof fn lemma_filter_contains(q: Seq<SchedulerEvent>, p: spec_fn(SchedulerEvent) -> bool)
    ensures
        forall|e: SchedulerEvent| #[trigger] q.filter(p).contains(e) ==> q.contains(e) && p(e),
        forall|e: SchedulerEvent| q.contains(e) && p(e) ==> #[trigger] q.filter(p).contains(e),
{
    q.filter_lemma(p);
    assert forall|e: SchedulerEvent| #[trigger] q.filter(p).contains(e) implies q.contains(e) && p(
        e,
    ) by {
        q.lemma_filter_contains_rev(p, e);
        let k = choose|k: int| 0 <= k < q.filter(p).len() && q.filter(p)[k] == e;
        assert(p(q.filter(p)[k]));
    }
    assert forall|e: SchedulerEvent| q.contains(e) && p(e) implies #[trigger] q.filter(p).contains(
        e,
    ) by {
        let k = choose|k: int| 0 <= k < q.len() && q[k] == e;
        assert(q.filter(p).contains(q[k]));
    }
}

} // verus!
