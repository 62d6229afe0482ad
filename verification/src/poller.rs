//! The bookkeeping half of the poll-based multiplexer.
//!
//! The worker threads build a set of descriptors with interest flags, hand
//! it to the `poll` system call outside the library, and read back the
//! ready entries and the control word that the self-pipe carried.

use vstd::prelude::*;

verus! {

/// Interest and readiness flags of one polled descriptor, as the `poll`
/// system call encodes them.
#[derive(Debug, Clone, Copy, PartialEq, Eq, Structural)]
pub struct PollerFlags(pub u16);

/// Data may be read.
pub const POLL_IN: u16 = 0x001;

/// Data may be written.
pub const POLL_OUT: u16 = 0x004;

/// An error condition arose.
pub const POLL_ERR: u16 = 0x008;

/// The other end hung up.
pub const POLL_HUP: u16 = 0x010;

/// The descriptor is not open.
pub const POLL_NVAL: u16 = 0x020;

impl PollerFlags {
    /// The union of two flag sets.
    pub fn union(self, other: PollerFlags) -> (r: PollerFlags)
        ensures
            r.0 == self.0 | other.0,
    {
        PollerFlags(self.0 | other.0)
    }

    /// Whether every flag of `other` is set in `self`.
    pub fn contains(self, other: PollerFlags) -> (r: bool)
        ensures
            r == (self.0 & other.0 == other.0),
    {
        self.0 & other.0 == other.0
    }
}

/// One entry of the poll set: a descriptor, the events asked for, and the
/// events that came back.
#[derive(Debug, Clone, Copy, PartialEq, Eq, Structural)]
pub struct PollerFd {
    /// the file descriptor
    pub fd: i32,
    /// events of interest
    pub events: u16,
    /// events reported ready
    pub revents: u16,
}

/// The ready entries of a poll set, in order: each entry with a readiness
/// flag, as a `(descriptor, flags)` pair, at most `cap` of them.
pub open spec fn spec_ready_list(entries: Seq<PollerFd>, cap: int) -> Seq<(i32, PollerFlags)>
    decreases entries.len(),
{
    if cap <= 0 || entries.len() == 0 {
        Seq::empty()
    } else if entries[0].revents != 0 {
        seq![(entries[0].fd, PollerFlags(entries[0].revents))] + spec_ready_list(
            entries.drop_first(),
            cap - 1,
        )
    } else {
        spec_ready_list(entries.drop_first(), cap)
    }
}

/// The set of descriptors one poll round watches.
pub struct PollerFds {
    pfds: Vec<PollerFd>,
    events: Option<usize>,
}

impl PollerFds {
    /// The entries, in order.
    pub closed spec fn view(&self) -> Seq<PollerFd> {
        self.pfds@
    }

    /// How many ready entries the last poll reported, when one ran.
    pub closed spec fn spec_events(&self) -> Option<usize> {
        self.events
    }

    /// An empty set; room is reserved for the entries plus the self-pipe.
    pub fn with_capacity(capacity: usize) -> (r: PollerFds)
        ensures
            r@ == Seq::<PollerFd>::empty(),
            r.spec_events() is None,
    {
        let extra = if capacity < usize::MAX {
            capacity + 1
        } else {
            capacity
        };
        PollerFds { pfds: Vec::with_capacity(extra), events: None }
    }

    /// Drop every entry and the last poll's count.
    pub fn clear(&mut self)
        ensures
            final(self)@ == Seq::<PollerFd>::empty(),
            final(self).spec_events() is None,
    {
        self.events = None;
        self.pfds.clear();
    }

    /// Add a descriptor with its interest flags, not yet ready.
    pub fn push(&mut self, fd: i32, flags: PollerFlags)
        ensures
            final(self)@ == old(self)@.push(PollerFd { fd, events: flags.0, revents: 0 }),
            final(self).spec_events() == old(self).spec_events(),
    {
        self.pfds.push(PollerFd { fd, events: flags.0, revents: 0 });
    }

    /// The descriptors and interest flags of the set, in order: what the
    /// `poll` system call is handed.
    pub fn entries(&self) -> (r: Vec<(i32, u16)>)
        ensures
            r@.len() == self@.len(),
            forall|i: int|
                0 <= i < self@.len() ==> #[trigger] r@[i] == (self@[i].fd, self@[i].events),
    {
        let mut out: Vec<(i32, u16)> = Vec::new();
        let mut i: usize = 0;
        while i < self.pfds.len()
            invariant
                i <= self.pfds@.len(),
                out@.len() == i,
                forall|j: int|
                    0 <= j < i ==> #[trigger] out@[j] == (self@[j].fd, self@[j].events),
            decreases self.pfds.len() - i,
        {
            let e = self.pfds[i];
            out.push((e.fd, e.events));
            i += 1;
        }
        out
    }

    /// Record what one poll round reported: the readiness of each entry
    /// and how many entries were ready.
    pub fn set_results(&mut self, revents: &Vec<u16>, ready: usize)
        requires
            revents@.len() == old(self)@.len(),
        ensures
            final(self)@.len() == old(self)@.len(),
            forall|i: int|
                0 <= i < final(self)@.len() ==> final(self)@[i] == (PollerFd {
                    revents: revents@[i],
                    ..old(self)@[i]
                }),
            final(self).spec_events() == Some(ready),
    {
        let mut i: usize = 0;
        let n = self.pfds.len();
        while i < n
            invariant
                i <= n,
                n == self.pfds@.len(),
                n == old(self)@.len(),
                n == revents@.len(),
                self.events == old(self).events,
                forall|j: int|
                    0 <= j < i ==> self.pfds@[j] == (PollerFd {
                        revents: revents@[j],
                        ..old(self)@[j]
                    }),
                forall|j: int| i <= j < n ==> self.pfds@[j] == old(self)@[j],
            decreases n - i,
        {
            let prev = self.pfds[i];
            self.pfds.set(i, PollerFd { fd: prev.fd, events: prev.events, revents: revents[i] });
            i += 1;
        }
        self.events = Some(ready);
    }

    /// The entries the last poll reported ready: exactly those with any
    /// readiness flag, in order, capped at the reported count.
    pub fn ready(&self) -> (r: Vec<(i32, PollerFlags)>)
        ensures
            r@ == spec_ready_list(
                self@,
                match self.spec_events() {
                    Some(n) => n as int,
                    None => self@.len() as int,
                },
            ),
    {
        let cap = match self.events {
            Some(n) => n,
            None => self.pfds.len(),
        };
        let mut out: Vec<(i32, PollerFlags)> = Vec::new();
        let mut i: usize = 0;
        proof {
            assert(self@.skip(0) =~= self@);
            assert(Seq::<(i32, PollerFlags)>::empty() + spec_ready_list(self@, cap as int)
                =~= spec_ready_list(self@, cap as int));
        }
        loop
            invariant
                i <= self.pfds@.len(),
                out@.len() <= cap,
                spec_ready_list(self@, cap as int) == out@ + spec_ready_list(
                    self@.skip(i as int),
                    cap - out@.len(),
                ),
            ensures
                spec_ready_list(self@, cap as int) == out@,
            decreases self.pfds.len() - i,
        {
            if i >= self.pfds.len() {
                proof {
                    assert(self@.skip(i as int) =~= Seq::<PollerFd>::empty());
                    assert(out@ + Seq::<(i32, PollerFlags)>::empty() =~= out@);
                }
                break;
            }
            if out.len() >= cap {
                proof {
                    assert(spec_ready_list(self@.skip(i as int), cap - out@.len())
                        == Seq::<(i32, PollerFlags)>::empty());
                    assert(out@ + Seq::<(i32, PollerFlags)>::empty() =~= out@);
                }
                break;
            }
            let ghost tail = self@.skip(i as int);
            proof {
                assert(tail.len() > 0);
                assert(tail[0] == self@[i as int]);
                assert(tail.drop_first() =~= self@.skip(i + 1));
            }
            let e = self.pfds[i];
            if e.revents != 0 {
                out.push((e.fd, PollerFlags(e.revents)));
                proof {
                    assert(spec_ready_list(tail, cap - (out@.len() - 1)) == seq![
                        (tail[0].fd, PollerFlags(tail[0].revents)),
                    ] + spec_ready_list(tail.drop_first(), cap - out@.len()));
                    assert(out@ + spec_ready_list(self@.skip(i + 1), cap - out@.len())
                        =~= out@.drop_last() + spec_ready_list(tail, cap - (out@.len() - 1)));
                }
            }
            i += 1;
        }
        out
    }
}

/// The control word injected through the self-pipe.
#[derive(Debug, Clone, Copy, PartialEq, Eq, Structural)]
pub enum PollerWord {
    /// rebuild the poll set on the next round
    Wake,
    /// stop the polling thread
    Exit,
    /// any other byte a producer sent
    Custom(u8),
}

/// The byte that carries each control word.
pub open spec fn spec_word_byte(w: PollerWord) -> u8 {
    match w {
        PollerWord::Wake => 120,
        PollerWord::Exit => 113,
        PollerWord::Custom(b) => b,
    }
}

impl PollerWord {
    /// The byte to send for this word.
    pub fn to_byte(&self) -> (r: u8)
        ensures
            r == spec_word_byte(*self),
    {
        match self {
            PollerWord::Wake => 120,
            PollerWord::Exit => 113,
            PollerWord::Custom(b) => *b,
        }
    }

    /// Classify a byte read from the self-pipe.
    pub fn from_byte(value: u8) -> (r: PollerWord)
        ensures
            r == (if value == 120 {
                PollerWord::Wake
            } else if value == 113 {
                PollerWord::Exit
            } else {
                PollerWord::Custom(value)
            }),
    {
        if value == 120 {
            PollerWord::Wake
        } else if value == 113 {
            PollerWord::Exit
        } else {
            PollerWord::Custom(value)
        }
    }
}

} // verus!
