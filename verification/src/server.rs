//! The control channel's request handling.
//!
//! The TCP transport and the JSON framing live outside the library; this
//! module owns the decisions: which connections are admitted, how a
//! request names a service, and what every action does to the supervisor
//! state — with the process work handed back as effects.

use vstd::prelude::*;

use crate::info::Info;
use crate::monitor::{
    lemma_service_filter, lemma_service_filter_all, lemma_service_filter_len_lt, other_id, Effect,
    Monitor, Service,
};
use crate::scheduler::{Scheduler, SchedulerEvent};
use crate::command::Command;
use crate::status::Status;
use crate::sysinfo::Stats;

verus! {

/// Cap on concurrent control connections.
pub const MAX_CONNECTIONS: usize = 16;

/// Whether a fresh connection with `count` already-open peers is served:
/// only while the cap still has room, so at most `MAX_CONNECTIONS` run
/// concurrently and the next one is shut immediately.
pub fn admit_connection(count: usize) -> (r: bool)
    ensures
        r == (count < MAX_CONNECTIONS),
{
    count < MAX_CONNECTIONS
}

/// A request of the control channel.
#[derive(Debug)]
pub enum Action {
    /// spawn the daemon (handled on the client side)
    Daemon,
    /// list service ids and names
    List,
    /// dump every service's runtime state
    Info,
    /// dump statistics, of one service or of all
    Stats { service: Option<String> },
    /// dump the daemon's own statistics
    DaemonStats,
    /// restart one service
    Restart { service: String },
    /// stop one service
    Stop { service: String },
    /// render the configuration
    ShowConfiguration,
    /// dump the schedule horizon
    ShowScheduler,
    /// add a service and start it
    Add { name: String, env: Vec<(String, String)>, command: Vec<String> },
    /// stop a service and drop it
    Remove { service: String },
    /// list a service's log files
    ListLogFiles { service: String },
}

/// The reply to one request, as plain values; the transport serializes it.
#[derive(Debug)]
pub enum ActionReply {
    /// the action was carried out
    Done,
    /// service ids with their names
    List(Vec<(usize, String)>),
    /// service ids with their runtime state
    InfoList(Vec<(usize, Info)>),
    /// service ids with their statistics
    StatsList(Vec<(usize, Stats)>),
    /// the daemon's own statistics
    DaemonStats(Stats),
    /// render the configuration document
    Configuration,
    /// the queued events, soonest deadline first
    Scheduler(Vec<SchedulerEvent>),
    /// list the log files of this service
    LogFiles(usize),
    /// the request failed
    Error(String),
}

/// The numeric value of a digit string; meaningful where every character
/// is a digit.
pub open spec fn spec_digits_value(s: Seq<char>) -> int
    decreases s.len(),
{
    if s.len() == 0 {
        0
    } else {
        spec_digits_value(s.drop_last()) * 10 + (s.last() as u32 - 48)
    }
}

pub open spec fn spec_all_digits(s: Seq<char>) -> bool {
    forall|i: int| 0 <= i < s.len() ==> 48 <= (#[trigger] s[i] as u32) <= 57
}

/// Parse a decimal service id: every character a digit, the value within
/// `usize`; anything else is no id.
pub fn parse_usize(s: &str) -> (r: Option<usize>)
    ensures
        match r {
            Some(v) => s@.len() > 0 && spec_all_digits(s@) && v == spec_digits_value(s@),
            None => s@.len() == 0 || !spec_all_digits(s@) || spec_digits_value(s@) > usize::MAX,
        },
{
    let n = s.unicode_len();
    if n == 0 {
        return None;
    }
    let mut value: usize = 0;
    let mut i: usize = 0;
    while i < n
        invariant
            i <= n,
            n == s@.len(),
            spec_all_digits(s@.take(i as int)),
            value == spec_digits_value(s@.take(i as int)),
        decreases n - i,
    {
        let c = s.get_char(i);
        let d = c as u32;
        proof {
            assert(s@.take(i + 1).drop_last() =~= s@.take(i as int));
            assert(s@.take(i + 1).last() == s@[i as int]);
        }
        if d < 48 || d > 57 {
            proof {
                assert(!spec_all_digits(s@)) by {
                    assert(s@[i as int] as u32 == d);
                }
            }
            return None;
        }
        let digit = (d - 48) as usize;
        if value > (usize::MAX - digit) / 10 {
            proof {
                lemma_digits_value_grows(s@, i + 1);
                assert(spec_digits_value(s@.take(i + 1)) > usize::MAX);
            }
            return None;
        }
        value = value * 10 + digit;
        proof {
            assert(spec_all_digits(s@.take(i + 1)));
        }
        i += 1;
    }
    proof {
        assert(s@.take(n as int) =~= s@);
    }
    Some(value)
}

/// A digit string's value never shrinks as it grows to the right.
proof fn lemma_digits_value_grows(s: Seq<char>, k: int)
    requires
        0 < k <= s.len(),
    ensures
        spec_digits_value(s.take(k)) <= spec_digits_value(s) || !spec_all_digits(s),
    decreases s.len() - k,
{
    if k == s.len() {
        assert(s.take(k) =~= s);
    } else {
        lemma_digits_value_grows(s, k + 1);
        assert(s.take(k + 1).drop_last() =~= s.take(k));
        if spec_all_digits(s) {
            assert(48 <= s[k] as u32 <= 57) by {
                assert(48 <= (s[k] as u32) <= 57);
            }
            assert(s.take(k + 1).last() == s[k]);
            assert(spec_digits_value(s.take(k + 1)) >= spec_digits_value(s.take(k)) * 10);
            assert(spec_digits_value(s.take(k)) >= 0) by {
                lemma_digits_value_nonneg(s.take(k));
            }
        }
    }
}

/// A digit string's value is never negative.
proof fn lemma_digits_value_nonneg(s: Seq<char>)
    ensures
        spec_digits_value(s) >= 0 || !spec_all_digits(s),
    decreases s.len(),
{
    if s.len() > 0 {
        lemma_digits_value_nonneg(s.drop_last());
        assert(forall|i: int|
            0 <= i < s.drop_last().len() ==> s.drop_last()[i] == s[i]);
    }
}

/// Resolve the service a request names: by its decimal id when the text
/// parses as one and a service carries it, else by name.
pub fn find_service(monitor: &Monitor, service: &str) -> (r: Option<usize>)
    ensures
        match r {
            Some(i) => spec_names_service(monitor.services@, i as int, service@),
            None => spec_no_such_service(monitor.services@, service@),
        },
{
    if let Some(id) = parse_usize(service) {
        if let Some(i) = monitor.index_of(id) {
            return Some(i);
        }
    }
    monitor.find_by_name(service)
}

/// The id a request's text parses to, where it is one.
pub open spec fn spec_parsed(s: Seq<char>) -> Option<int> {
    if s.len() > 0 && spec_all_digits(s) && spec_digits_value(s) <= usize::MAX {
        Some(spec_digits_value(s))
    } else {
        None
    }
}

/// Whether the service at `i` is the one the query names: by its name, or
/// by its decimal id.
pub open spec fn spec_names_service(services: Seq<Service>, i: int, query: Seq<char>) -> bool {
    &&& 0 <= i < services.len()
    &&& (services[i].name@ == query || Some(services[i].id as int) == spec_parsed(query))
}

/// No service answers the query, neither by name nor by decimal id.
pub open spec fn spec_no_such_service(services: Seq<Service>, query: Seq<char>) -> bool {
    forall|i: int|
        0 <= i < services.len() ==> (#[trigger] services[i]).name@ != query && Some(
            services[i].id as int,
        ) != spec_parsed(query)
}

/// Carry out one request against the supervisor state. The process work —
/// spawning, signalling — comes back as effects; the reply holds the data
/// the transport sends back.
pub fn run_action(monitor: &mut Monitor, sched: &mut Scheduler, action: Action) -> (r: (
    ActionReply,
    Vec<Effect>,
))
    requires
        old(monitor).wf(),
        old(sched).wf(),
        !(action is Daemon),
    ensures
        final(monitor).wf(),
        final(sched).wf(),
        match action {
            Action::Daemon => true,
            Action::List => {
                let list = r.0;
                &&& r.1@ == Seq::<Effect>::empty()
                &&& final(monitor).services@ == old(monitor).services@
                &&& final(sched)@ == old(sched)@
                &&& list matches ActionReply::List(entries)
                &&& entries@.len() == old(monitor).services@.len()
                &&& forall|i: int|
                    0 <= i < old(monitor).services@.len() ==> (#[trigger] entries@[i]).0 == old(monitor).services@[i].id && entries@[i].1@ == old(monitor).services@[i].name@
            },
            Action::Info => {
                let list = r.0;
                &&& r.1@ == Seq::<Effect>::empty()
                &&& final(monitor).services@ == old(monitor).services@
                &&& final(sched)@ == old(sched)@
                &&& list matches ActionReply::InfoList(entries)
                &&& entries@.len() == old(monitor).services@.len()
                &&& forall|i: int|
                    0 <= i < old(monitor).services@.len() ==> #[trigger] entries@[i] == (
                        old(monitor).services@[i].id,
                        old(monitor).services@[i].info,
                    )
            },
            Action::Stats { service } => {
                &&& final(monitor).services@ == old(monitor).services@
                &&& final(sched)@ == old(sched)@
                &&& match service {
                    Some(query) => match r.0 {
                        ActionReply::StatsList(entries) => {
                            &&& entries@.len() == 1
                            &&& exists|i: int|
                                #[trigger] spec_names_service(
                                    old(monitor).services@,
                                    i,
                                    query@,
                                ) && entries@[0] == (
                                    old(monitor).services@[i].id,
                                    old(monitor).services@[i].stats,
                                )
                        },
                        ActionReply::Error(m) => m@ == "no such service"@
                            && spec_no_such_service(old(monitor).services@, query@),
                        _ => false,
                    },
                    None => r.0 matches ActionReply::StatsList(entries) && entries@.len() == old(monitor).services@.len() && forall|i: int|
                        0 <= i < old(monitor).services@.len() ==> #[trigger] entries@[i] == (
                            old(monitor).services@[i].id,
                            old(monitor).services@[i].stats,
                        ),
                }
            },
            Action::DaemonStats => {
                &&& final(monitor).services@ == old(monitor).services@
                &&& final(sched)@ == old(sched)@
                &&& r.0 matches ActionReply::DaemonStats(stats) && stats == old(monitor).stats
                &&& r.1@ == Seq::<Effect>::empty()
            },
            Action::Restart { service } => {
                &&& final(monitor).services@ == old(monitor).services@
                &&& final(sched)@ == old(sched)@
                &&& match r.0 {
                    ActionReply::Done => exists|i: int|
                        #[trigger] spec_names_service(old(monitor).services@, i, service@)
                            && r.1@ == seq![
                            Effect::SpawnService(old(monitor).services@[i].id),
                        ],
                    ActionReply::Error(m) => m@ == "no such service"@ && r.1@
                        == Seq::<Effect>::empty() && spec_no_such_service(
                        old(monitor).services@,
                        service@,
                    ),
                    _ => false,
                }
            },
            Action::Stop { service } => {
                &&& final(sched)@ == old(sched)@
                &&& final(monitor).services@.len() == old(monitor).services@.len()
                &&& match r.0 {
                    ActionReply::Done => exists|i: int|
                        {
                            &&& #[trigger] spec_names_service(
                                old(monitor).services@,
                                i,
                                service@,
                            )
                            &&& r.1@ == seq![
                                Effect::StopService(old(monitor).services@[i].id),
                            ]
                            &&& final(monitor).services@[i].info.active == false
                        },
                    ActionReply::Error(m) => m@ == "no such service"@ && r.1@
                        == Seq::<Effect>::empty() && final(monitor).services@ == old(monitor).services@ && spec_no_such_service(
                        old(monitor).services@,
                        service@,
                    ),
                    _ => false,
                }
            },
            Action::ShowConfiguration => {
                &&& final(monitor).services@ == old(monitor).services@
                &&& final(sched)@ == old(sched)@
                &&& r.0 matches ActionReply::Configuration
                &&& r.1@ == Seq::<Effect>::empty()
            },
            Action::ShowScheduler => {
                &&& final(monitor).services@ == old(monitor).services@
                &&& final(sched)@ == old(sched)@
                &&& r.0 matches ActionReply::Scheduler(events) && events@ == old(sched)@
                &&& r.1@ == Seq::<Effect>::empty()
            },
            Action::Add { name, env, command } => {
                &&& final(sched)@ == old(sched)@
                &&& match r.0 {
                    ActionReply::Done => {
                        &&& final(monitor).services@.len() == old(monitor).services@.len() + 1
                        &&& ({
                            let added = final(monitor).services@.last();
                            &&& added.name@ == name@
                            &&& added.command.command@ == command@[0]@
                            &&& added.info.status == Status::Created
                            &&& added.info.active
                            &&& forall|i: int|
                                0 <= i < old(monitor).services@.len() ==> (#[trigger] old(monitor).services@[i]).id < added.id
                            &&& r.1@ == seq![Effect::SpawnService(added.id)]
                            &&& forall|i: int|
                                0 <= i < old(monitor).services@.len() ==> #[trigger] final(monitor).services@[i] == old(monitor).services@[i]
                        })
                    },
                    ActionReply::Error(m) => {
                        &&& final(monitor).services@ == old(monitor).services@
                        &&& r.1@ == Seq::<Effect>::empty()
                        &&& (m@ == "command is empty"@ <==> command@.len() == 0)
                    },
                    _ => false,
                }
            },
            Action::Remove { service } => {
                match r.0 {
                    ActionReply::Done => exists|i: int|
                        {
                            let id = old(monitor).services@[i].id;
                            &&& #[trigger] spec_names_service(
                                old(monitor).services@,
                                i,
                                service@,
                            )
                            &&& r.1@ == seq![Effect::StopService(id)]
                            &&& final(sched)@ == old(sched)@.filter(
                                crate::scheduler::not_service(id),
                            )
                            &&& forall|j: int|
                                0 <= j < final(monitor).services@.len() ==> (#[trigger] final(monitor).services@[j]).id != id
                            &&& final(monitor).services@.len() < old(monitor).services@.len()
                        },
                    ActionReply::Error(m) => m@ == "no such service"@ && r.1@
                        == Seq::<Effect>::empty() && final(monitor).services@ == old(monitor).services@ && final(sched)@ == old(sched)@ && spec_no_such_service(
                        old(monitor).services@,
                        service@,
                    ),
                    _ => false,
                }
            },
            Action::ListLogFiles { service } => {
                &&& final(monitor).services@ == old(monitor).services@
                &&& final(sched)@ == old(sched)@
                &&& r.1@ == Seq::<Effect>::empty()
                &&& match r.0 {
                    ActionReply::LogFiles(id) => exists|i: int|
                        #[trigger] spec_names_service(old(monitor).services@, i, service@)
                            && old(monitor).services@[i].id == id,
                    ActionReply::Error(m) => m@ == "no such service"@ && spec_no_such_service(
                        old(monitor).services@,
                        service@,
                    ),
                    _ => false,
                }
            },
        },
{
    match action {
        Action::Daemon => {
            // the precondition keeps the daemon action on the client side
            proof {
                assert(false);
            }
            (error_reply("daemon must be handled by the client"), Vec::new())
        },
        Action::List => {
            let mut list: Vec<(usize, String)> = Vec::new();
            let mut i: usize = 0;
            while i < monitor.services.len()
                invariant
                    i <= monitor.services@.len(),
                    list@.len() == i,
                    forall|j: int|
                        0 <= j < i ==> (#[trigger] list@[j]).0 == monitor.services@[j].id
                            && list@[j].1@ == monitor.services@[j].name@,
                decreases monitor.services.len() - i,
            {
                let entry = service_entry(monitor, i);
                list.push(entry);
                i += 1;
            }
            (ActionReply::List(list), Vec::new())
        },
        Action::Info => {
            let mut list: Vec<(usize, Info)> = Vec::new();
            let mut i: usize = 0;
            while i < monitor.services.len()
                invariant
                    i <= monitor.services@.len(),
                    list@.len() == i,
                    forall|j: int|
                        0 <= j < i ==> #[trigger] list@[j] == (
                            monitor.services@[j].id,
                            monitor.services@[j].info,
                        ),
                decreases monitor.services.len() - i,
            {
                let s = &monitor.services[i];
                list.push((s.id, s.info));
                i += 1;
            }
            (ActionReply::InfoList(list), Vec::new())
        },
        Action::Stats { service } => {
            match service {
                Some(query) => {
                    match find_service(monitor, query.as_str()) {
                        Some(i) => {
                            let s = &monitor.services[i];
                            let mut list: Vec<(usize, Stats)> = Vec::new();
                            list.push((s.id, s.stats));
                            (ActionReply::StatsList(list), Vec::new())
                        },
                        None => (error_reply("no such service"), Vec::new()),
                    }
                },
                None => {
                    let mut list: Vec<(usize, Stats)> = Vec::new();
                    let mut i: usize = 0;
                    while i < monitor.services.len()
                        invariant
                            i <= monitor.services@.len(),
                            list@.len() == i,
                            forall|j: int|
                                0 <= j < i ==> #[trigger] list@[j] == (
                                    monitor.services@[j].id,
                                    monitor.services@[j].stats,
                                ),
                        decreases monitor.services.len() - i,
                    {
                        let s = &monitor.services[i];
                        list.push((s.id, s.stats));
                        i += 1;
                    }
                    (ActionReply::StatsList(list), Vec::new())
                },
            }
        },
        Action::DaemonStats => (ActionReply::DaemonStats(monitor.stats), Vec::new()),
        Action::Restart { service } => {
            match find_service(monitor, service.as_str()) {
                Some(i) => {
                    let id = monitor.services[i].id;
                    let mut effects: Vec<Effect> = Vec::new();
                    effects.push(Effect::SpawnService(id));
                    (ActionReply::Done, effects)
                },
                None => (error_reply("no such service"), Vec::new()),
            }
        },
        Action::Stop { service } => {
            match find_service(monitor, service.as_str()) {
                Some(i) => {
                    let id = monitor.services[i].id;
                    monitor.set_active(id, false);
                    let mut effects: Vec<Effect> = Vec::new();
                    effects.push(Effect::StopService(id));
                    (ActionReply::Done, effects)
                },
                None => (error_reply("no such service"), Vec::new()),
            }
        },
        Action::ShowConfiguration => (ActionReply::Configuration, Vec::new()),
        Action::ShowScheduler => (ActionReply::Scheduler(sched.dump()), Vec::new()),
        Action::Add { name, env, command } => {
            let mut command = command;
            if command.len() == 0 {
                return (error_reply("command is empty"), Vec::new());
            }
            if monitor.next_id == usize::MAX {
                proof {
                    reveal_strlit("service ids exhausted");
                    reveal_strlit("command is empty");
                    assert("service ids exhausted"@.len() == 21);
                    assert("command is empty"@.len() == 16);
                    assert("service ids exhausted"@ != "command is empty"@);
                }
                return (error_reply("service ids exhausted"), Vec::new());
            }
            let id = monitor.next_id;
            let path = command.remove(0);
            let mut cmd = Command::new(path.as_str(), command);
            if env.len() > 0 {
                cmd.env = Some(env);
            }
            let service = Service::new(id, name.as_str(), cmd);
            let ghost pre = monitor.services@;
            monitor.insert(service);
            proof {
                lemma_service_filter_all(pre, other_id(id));
                assert(monitor.services@.last().id == id);
                assert(forall|i: int|
                    0 <= i < pre.len() ==> #[trigger] monitor.services@[i] == pre[i]);
            }
            let mut effects: Vec<Effect> = Vec::new();
            effects.push(Effect::SpawnService(id));
            (ActionReply::Done, effects)
        },
        Action::Remove { service } => {
            match find_service(monitor, service.as_str()) {
                Some(i) => {
                    let ghost pre = monitor.services@;
                    let id = monitor.services[i].id;
                    monitor.set_active(id, false);
                    let ghost mid = monitor.services@;
                    sched.remove(id);
                    monitor.remove(id);
                    let mut effects: Vec<Effect> = Vec::new();
                    effects.push(Effect::StopService(id));
                    proof {
                        assert(mid[i as int].id == id);
                        lemma_service_filter(mid, other_id(id));
                        lemma_service_filter_len_lt(mid, other_id(id), i as int);
                        assert(effects@ =~= seq![Effect::StopService(id)]);
                        assert(forall|j: int|
                            0 <= j < monitor.services@.len() ==> (
                            #[trigger] monitor.services@[j]).id != id);
                        assert(pre[i as int].id == id);
                    }
                    (ActionReply::Done, effects)
                },
                None => (error_reply("no such service"), Vec::new()),
            }
        },
        Action::ListLogFiles { service } => {
            match find_service(monitor, service.as_str()) {
                Some(i) => {
                    let id = monitor.services[i].id;
                    (ActionReply::LogFiles(id), Vec::new())
                },
                None => (error_reply("no such service"), Vec::new()),
            }
        },
    }
}

/// An error reply carrying `msg`.
fn error_reply(msg: &str) -> (r: ActionReply)
    ensures
        r matches ActionReply::Error(m) && m@ == msg@,
{
    ActionReply::Error(msg.to_owned())
}

/// Read one list entry for the service at `i`.
fn service_entry(monitor: &Monitor, i: usize) -> (r: (usize, String))
    requires
        i < monitor.services@.len(),
    ensures
        r.0 == monitor.services@[i as int].id,
        r.1@ == monitor.services@[i as int].name@,
{
    let s = &monitor.services[i];
    (s.id, String::from_str(s.name.as_str()))
}

} // verus!
