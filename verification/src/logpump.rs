//! The per-service log pump: which pipes it drains, the pending buffer
//! that holds a short write's tail, and how poll events move data.
//!
//! Reading the pipes and writing the file are I/O done outside the
//! library; the pump decides what each readiness event means and keeps the
//! backpressure state: while a pending buffer exists the pump stops
//! reading its inputs and waits for the output to drain.

use vstd::prelude::*;

use crate::buffer::Buffer;
use crate::logfile::LogFile;
use crate::poller::{PollerFds, PollerFlags, POLL_ERR, POLL_IN, POLL_OUT};

verus! {

/// Index of the first occurrence of `fd` in `s`, or the length when none.
pub open spec fn spec_first_index(s: Seq<i32>, fd: i32) -> int
    decreases s.len(),
{
    if s.len() == 0 {
        0
    } else if s[0] == fd {
        0
    } else {
        1 + spec_first_index(s.drop_first(), fd)
    }
}

/// `s` without its first occurrence of `fd`, when it has one.
pub open spec fn spec_remove_first(s: Seq<i32>, fd: i32) -> Seq<i32> {
    if s.contains(fd) {
        s.remove(spec_first_index(s, fd))
    } else {
        s
    }
}

/// A service's log pump.
pub struct LogPump {
    /// read ends of the child's stdout and stderr pipes
    pub input: Vec<i32>,
    /// the rotating file the pump writes to
    pub output: LogFile,
    /// tail of a short write, kept until the output drains
    pub buffer: Option<Buffer>,
}

impl LogPump {
    pub open spec fn spec_buffer(&self) -> Option<Buffer> {
        self.buffer
    }

    /// A pump that writes to `output`, with no inputs yet.
    pub fn new(output: LogFile) -> (r: LogPump)
        ensures
            r.input@ == Seq::<i32>::empty(),
            r.output == output,
            r.spec_buffer() is None,
    {
        LogPump { input: Vec::new(), output, buffer: None }
    }

    /// Whether a short write left bytes waiting for the output to drain.
    pub fn has_buffer(&self) -> (r: bool)
        ensures
            r == (self.spec_buffer() is Some),
    {
        self.buffer.is_some()
    }

    /// Register a fresh input pipe's read end.
    pub fn add_input(&mut self, fd: i32)
        ensures
            final(self).input@ == old(self).input@.push(fd),
            final(self).output == old(self).output,
            final(self).spec_buffer() == old(self).spec_buffer(),
    {
        self.input.push(fd);
    }

    /// Take the pending buffer to flush it, when one waits.
    pub fn take_pending(&mut self) -> (r: Option<Buffer>)
        ensures
            r == old(self).spec_buffer(),
            final(self).spec_buffer() is None,
            final(self).input@ == old(self).input@,
            final(self).output == old(self).output,
    {
        self.buffer.take()
    }

    /// Account for a write of `written` bytes out of `buffer`'s live
    /// range: a fully drained buffer comes back for reuse, a short write
    /// parks the tail as the pending buffer and returns nothing.
    pub fn after_log(&mut self, buffer: Buffer, written: usize) -> (r: Option<Buffer>)
        requires
            old(self).spec_buffer() is None,
            buffer.wf(),
        ensures
            final(self).input@ == old(self).input@,
            final(self).output == old(self).output,
            ({
                let drained = buffer@.len() <= written;
                if drained {
                    r is Some && r.unwrap()@.len() == 0 && final(self).spec_buffer() is None
                } else {
                    &&& r is None
                    &&& final(self).spec_buffer() is Some
                    &&& final(self).spec_buffer().unwrap()@ == buffer@.skip(written as int)
                }
            }),
    {
        proof {
            buffer.lemma_view();
        }
        let mut buf = buffer;
        buf.consume(written);
        if buf.is_empty() {
            proof {
                assert(buf@.len() == 0);
                assert(self.spec_buffer() is None);
                assert(buffer@.len() <= written);
            }
            Some(buf)
        } else {
            proof {
                assert(buffer@.len() > written);
                assert(buf@ == buffer@.skip(written as int));
            }
            self.buffer = Some(buf);
            None
        }
    }

    /// Drop input `fd` from the pump: the child closed its end. Returns
    /// nothing for an input; an unknown descriptor is treated as an error.
    pub fn on_hup(&mut self, fd: i32) -> (r: Option<Buffer>)
        ensures
            final(self).output == old(self).output,
            old(self).input@.contains(fd) ==> {
                &&& final(self).input@ == spec_remove_first(old(self).input@, fd)
                &&& final(self).spec_buffer() == old(self).spec_buffer()
                &&& r is None
            },
            !old(self).input@.contains(fd) ==> spec_error_outcome(old(self), final(self), fd, r),
    {
        if self.remove_input(fd) {
            None
        } else {
            self.on_error_output(fd)
        }
    }

    /// Handle an error event on `fd`: a failing input is dropped; a
    /// failing output surrenders the pending buffer; anything else is
    /// ignored.
    pub fn on_error(&mut self, fd: i32) -> (r: Option<Buffer>)
        ensures
            final(self).output == old(self).output,
            old(self).input@.contains(fd) ==> {
                &&& final(self).input@ == spec_remove_first(old(self).input@, fd)
                &&& final(self).spec_buffer() == old(self).spec_buffer()
                &&& r is None
            },
            !old(self).input@.contains(fd) ==> spec_error_outcome(old(self), final(self), fd, r),
    {
        if self.remove_input(fd) {
            None
        } else {
            self.on_error_output(fd)
        }
    }

    /// The error path for a descriptor that is not an input.
    fn on_error_output(&mut self, fd: i32) -> (r: Option<Buffer>)
        ensures
            final(self).output == old(self).output,
            final(self).input@ == old(self).input@,
            spec_error_outcome(old(self), final(self), fd, r),
    {
        let is_output = match self.output.as_raw_fd() {
            Some(out) => out == fd,
            None => false,
        };
        if is_output {
            self.buffer.take()
        } else {
            None
        }
    }

    /// Remove the first occurrence of `fd` from the inputs; reports
    /// whether one was there.
    fn remove_input(&mut self, fd: i32) -> (r: bool)
        ensures
            final(self).output == old(self).output,
            final(self).spec_buffer() == old(self).spec_buffer(),
            r == old(self).input@.contains(fd),
            final(self).input@ == spec_remove_first(old(self).input@, fd),
    {
        let ghost q0 = self.input@;
        let mut i: usize = 0;
        while i < self.input.len()
            invariant
                q0 == old(self).input@,
                i <= self.input@.len(),
                self.input@ == q0,
                self.output == old(self).output,
                self.buffer == old(self).buffer,
                forall|j: int| 0 <= j < i ==> q0[j] != fd,
            decreases self.input.len() - i,
        {
            if self.input[i] == fd {
                self.input.remove(i);
                proof {
                    lemma_first_index(q0, fd, i as int);
                    assert(q0.contains(fd)) by {
                        assert(q0[i as int] == fd);
                    }
                }
                return true;
            }
            i += 1;
        }
        proof {
            if q0.contains(fd) {
                let k = choose|k: int| 0 <= k < q0.len() && q0[k] == fd;
                assert(false);
            }
        }
        false
    }

    /// The poll entries this pump asks for: under backpressure only the
    /// output (for draining), otherwise every input.
    pub fn prepare(&self, pfds: &mut PollerFds) -> (n: usize)
        ensures
            final(pfds).spec_events() == old(pfds).spec_events(),
            ({
                if self.spec_buffer() is Some && self.output.spec_fd() is Some {
                    &&& n == 1
                    &&& final(pfds)@ == old(pfds)@.push(
                        crate::poller::PollerFd {
                            fd: self.output.spec_fd().unwrap(),
                            events: POLL_OUT | POLL_ERR,
                            revents: 0,
                        },
                    )
                } else {
                    &&& n == self.input@.len()
                    &&& final(pfds)@.len() == old(pfds)@.len() + self.input@.len()
                    &&& forall|j: int|
                        0 <= j < old(pfds)@.len() ==> final(pfds)@[j] == old(pfds)@[j]
                    &&& forall|j: int|
                        0 <= j < self.input@.len() ==> final(pfds)@[old(pfds)@.len() + j] == (
                        crate::poller::PollerFd {
                            fd: self.input@[j],
                            events: POLL_IN | POLL_ERR,
                            revents: 0,
                        })
                }
            }),
    {
        let watch_output = match self.output.as_raw_fd() {
            Some(_) => self.has_buffer(),
            None => false,
        };
        if watch_output {
            let out_fd = match self.output.as_raw_fd() {
                Some(f) => f,
                None => 0,
            };
            pfds.push(out_fd, PollerFlags(POLL_OUT | POLL_ERR));
            1
        } else {
            let mut i: usize = 0;
            while i < self.input.len()
                invariant
                    i <= self.input@.len(),
                    pfds.spec_events() == old(pfds).spec_events(),
                    pfds@.len() == old(pfds)@.len() + i,
                    forall|j: int| 0 <= j < old(pfds)@.len() ==> pfds@[j] == old(pfds)@[j],
                    forall|j: int|
                        0 <= j < i ==> pfds@[old(pfds)@.len() + j] == (crate::poller::PollerFd {
                            fd: self.input@[j],
                            events: POLL_IN | POLL_ERR,
                            revents: 0,
                        }),
                decreases self.input.len() - i,
            {
                pfds.push(self.input[i], PollerFlags(POLL_IN | POLL_ERR));
                i += 1;
            }
            i
        }
    }
}

/// What the error path does when `fd` is not an input: a matching output
/// descriptor surrenders the pending buffer, anything else changes
/// nothing.
pub open spec fn spec_error_outcome(
    pre: &LogPump,
    post: &LogPump,
    fd: i32,
    r: Option<Buffer>,
) -> bool {
    if pre.output.spec_fd() == Some(fd) {
        r == pre.spec_buffer() && post.spec_buffer() is None && post.input@ == pre.input@
    } else {
        r is None && post.spec_buffer() == pre.spec_buffer() && post.input@ == pre.input@
    }
}

/// When the first occurrence of `fd` stands at `i`, removing it is
/// `remove(i)`.
proof fn lemma_first_index(s: Seq<i32>, fd: i32, i: int)
    requires
        0 <= i < s.len(),
        s[i] == fd,
        forall|j: int| 0 <= j < i ==> s[j] != fd,
    ensures
        spec_first_index(s, fd) == i,
    decreases i,
{
    if i > 0 {
        assert(s[0] != fd);
        lemma_first_index(s.drop_first(), fd, i - 1);
        assert(forall|j: int| 0 <= j < i - 1 ==> s.drop_first()[j] == s[j + 1]);
    }
}

} // verus!
