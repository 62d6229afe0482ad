//! Signal values and signal sets.
//!
//! A set is a bitmask over signal numbers `0..64`. The daemon builds the
//! mask it blocks at startup from these; delivering, blocking and waiting
//! are system calls that live outside the library.

use vstd::prelude::*;

use crate::fmt::{spec_dec, u64_to_dec};

verus! {

/// Number of the timer signal.
pub const SIGALRM_NUM: i32 = 14;

/// Number of the child-status signal.
pub const SIGCHLD_NUM: i32 = 17;

/// Number of the polite termination signal.
pub const SIGTERM_NUM: i32 = 15;

/// Number of the unblockable stop signal.
pub const SIGSTOP_NUM: i32 = 19;

/// Number of the unblockable kill signal.
pub const SIGKILL_NUM: i32 = 9;

/// Number of the interrupt signal.
pub const SIGINT_NUM: i32 = 2;

/// A signal, by number.
#[derive(Debug, Clone, Copy, PartialEq, Eq, Structural)]
pub struct Signal(pub i32);

/// The display name of a signal: the conventional name for the signals the
/// supervisor handles, `SIG(n)` for the rest.
pub open spec fn spec_signal_name(n: i32) -> Seq<char> {
    if n == SIGALRM_NUM {
        "SIGALRM"@
    } else if n == SIGCHLD_NUM {
        "SIGCHLD"@
    } else if n == SIGTERM_NUM {
        "SIGTERM"@
    } else if n == SIGSTOP_NUM {
        "SIGSTOP"@
    } else if n == SIGKILL_NUM {
        "SIGKILL"@
    } else if n == SIGINT_NUM {
        "SIGINT"@
    } else if n >= 0 {
        "SIG("@ + spec_dec(n as nat) + ")"@
    } else {
        "SIG(?)"@
    }
}

impl Signal {
    /// The signal's display name.
    pub fn name(&self) -> (r: String)
        ensures
            r@ == spec_signal_name(self.0),
    {
        let n = self.0;
        if n == SIGALRM_NUM {
            String::from_str("SIGALRM")
        } else if n == SIGCHLD_NUM {
            String::from_str("SIGCHLD")
        } else if n == SIGTERM_NUM {
            String::from_str("SIGTERM")
        } else if n == SIGSTOP_NUM {
            String::from_str("SIGSTOP")
        } else if n == SIGKILL_NUM {
            String::from_str("SIGKILL")
        } else if n == SIGINT_NUM {
            String::from_str("SIGINT")
        } else if n >= 0 {
            let mut s = String::from_str("SIG(");
            let d = u64_to_dec(n as u64);
            s.append(d.as_str());
            s.append(")");
            proof {
                assert(s@ =~= "SIG("@ + spec_dec(n as nat) + ")"@);
            }
            s
        } else {
            String::from_str("SIG(?)")
        }
    }
}

/// A set of signals, as a bitmask over numbers `0..64`.
#[derive(Debug, Clone, Copy, PartialEq, Eq, Structural)]
pub struct SignalSet(pub u64);

/// Whether signal number `n` is in the mask `bits`.
pub open spec fn spec_in_set(bits: u64, n: i32) -> bool {
    0 <= n < 64 && (bits >> (n as u64)) & 1 == 1
}

/// The mask of every blockable signal: the classic signal numbers `1..=31`
/// without the unblockable stop and kill signals.
pub const FULL_SET_BITS: u64 = 0xFFF7FDFE;

impl SignalSet {
    /// The empty set.
    pub fn empty() -> (r: SignalSet)
        ensures
            r.0 == 0,
            forall|n: i32| !spec_in_set(r.0, n),
    {
        proof {
            assert(forall|n: u64| n < 64 ==> (0u64 >> n) & 1 == 0) by (bit_vector);
        }
        SignalSet(0)
    }

    /// The set of every blockable signal.
    pub fn full() -> (r: SignalSet)
        ensures
            r.0 == FULL_SET_BITS,
            forall|n: i32|
                spec_in_set(r.0, n) <==> (1 <= n <= 31 && n != SIGSTOP_NUM && n != SIGKILL_NUM),
    {
        proof {
            assert(forall|n: u64|
                n < 64 ==> ((0xFFF7FDFEu64 >> n) & 1 == 1 <==> (1 <= n <= 31 && n != 19 && n
                    != 9))) by (bit_vector);
        }
        SignalSet(FULL_SET_BITS)
    }

    /// Replace the set with every blockable signal.
    pub fn fill(&mut self)
        ensures
            final(self).0 == FULL_SET_BITS,
            forall|n: i32|
                spec_in_set(final(self).0, n) <==> (1 <= n <= 31 && n != SIGSTOP_NUM && n
                    != SIGKILL_NUM),
    {
        let full = SignalSet::full();
        self.0 = full.0;
    }

    /// Whether the set holds `signal`.
    pub fn contains(&self, signal: Signal) -> (r: bool)
        ensures
            r == spec_in_set(self.0, signal.0),
    {
        let n = signal.0;
        if 0 <= n && n < 64 {
            (self.0 >> (n as u64)) & 1 == 1
        } else {
            false
        }
    }

    /// The set with `signal` added; numbers outside `0..64` change nothing.
    pub fn add(self, signal: Signal) -> (r: SignalSet)
        ensures
            forall|n: i32| spec_in_set(r.0, n) <==> (spec_in_set(self.0, n) || n == signal.0
                && 0 <= signal.0 < 64),
    {
        let n = signal.0;
        if 0 <= n && n < 64 {
            let bits = self.0;
            let s = n as u64;
            proof {
                let b = bits;
                assert(forall|m: u64, s: u64|
                    m < 64 && s < 64 ==> (((b | (1u64 << s)) >> m) & 1 == 1 <==> ((b >> m) & 1
                        == 1 || m == s))) by (bit_vector);
            }
            SignalSet(bits | (1u64 << s))
        } else {
            self
        }
    }

    /// The set with `signal` removed; numbers outside `0..64` change
    /// nothing.
    pub fn sub(self, signal: Signal) -> (r: SignalSet)
        ensures
            forall|n: i32| spec_in_set(r.0, n) <==> (spec_in_set(self.0, n) && !(n == signal.0)),
    {
        let n = signal.0;
        if 0 <= n && n < 64 {
            let bits = self.0;
            let s = n as u64;
            proof {
                let b = bits;
                assert(forall|m: u64, s: u64|
                    m < 64 && s < 64 ==> (((b & !(1u64 << s)) >> m) & 1 == 1 <==> ((b >> m) & 1
                        == 1 && m != s))) by (bit_vector);
            }
            SignalSet(bits & !(1u64 << s))
        } else {
            proof {
                assert(forall|m: i32| spec_in_set(self.0, m) ==> 0 <= m < 64);
            }
            self
        }
    }

    /// Iterate over the set's signals, lowest number first.
    pub fn iter(&self) -> (r: SignalSetIterator)
        ensures
            r.bits == self.0,
            r.index == 0,
    {
        SignalSetIterator { index: 0, bits: self.0 }
    }
}

impl Default for SignalSet {
    /// The empty set.
    fn default() -> (r: SignalSet)
        ensures
            r.0 == 0,
            forall|n: i32| !spec_in_set(r.0, n),
    {
        SignalSet::empty()
    }
}

/// The lowest set signal number of `bits` at or above `from`.
pub open spec fn spec_first_set(bits: u64, from: int) -> Option<int>
    decreases 64 - from,
{
    if from < 0 || from >= 64 {
        None
    } else if (bits >> (from as u64)) & 1 == 1 {
        Some(from)
    } else {
        spec_first_set(bits, from + 1)
    }
}

/// Walks the signals of a set, lowest number first.
pub struct SignalSetIterator {
    /// next signal number to look at
    pub index: u8,
    /// the set being walked
    pub bits: u64,
}

impl SignalSetIterator {
    /// The next signal of the set, or `None` when the walk is done.
    pub fn next(&mut self) -> (r: Option<Signal>)
        ensures
            match spec_first_set(old(self).bits, old(self).index as int) {
                Some(n) => r == Some(Signal(n as i32)) && final(self).index == n + 1,
                None => r is None && final(self).index == old(self).index,
            },
            final(self).bits == old(self).bits,
    {
        let mut i = self.index;
        while i < 64
            invariant
                old(self).index <= i,
                i <= 64 || i == old(self).index,
                self == old(self),
                spec_first_set(self.bits, old(self).index as int) == spec_first_set(
                    self.bits,
                    i as int,
                ),
            decreases 64 - i,
        {
            if (self.bits >> (i as u64)) & 1 == 1 {
                self.index = i + 1;
                return Some(Signal(i as i32));
            }
            i += 1;
        }
        None
    }
}

} // verus!
