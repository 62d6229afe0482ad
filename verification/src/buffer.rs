//! A fixed-capacity byte buffer with a live sub-range.
//!
//! The storage is allocated once; `set_range` marks the bytes that hold
//! data, `consume` advances past bytes already handled, and `as_slice`
//! exposes the live range. The log pump recycles such buffers between
//! reads.

use vstd::prelude::*;
use vstd::slice::slice_subrange;

verus! {

/// Default capacity of a pump buffer, in bytes.
pub const DEFAULT_BUFFER_SIZE: usize = 2048;

/// A byte buffer with a live `[start, end)` window into its storage.
#[derive(Debug, Clone, PartialEq, Eq)]
pub struct Buffer {
    data: Vec<u8>,
    start: usize,
    end: usize,
}

impl Buffer {
    /// The live bytes.
    pub closed spec fn view(&self) -> Seq<u8> {
        self.data@.subrange(self.start as int, self.end as int)
    }

    /// The whole storage.
    pub closed spec fn spec_raw(&self) -> Seq<u8> {
        self.data@
    }

    pub closed spec fn spec_start(&self) -> int {
        self.start as int
    }

    pub closed spec fn spec_end(&self) -> int {
        self.end as int
    }

    /// The live range lies within the storage.
    pub open spec fn wf(&self) -> bool {
        0 <= self.spec_start() <= self.spec_end() <= self.spec_raw().len()
    }

    /// The live view is exactly the storage between the range's bounds; in
    /// particular its length is their distance.
    pub proof fn lemma_view(&self)
        requires
            self.wf(),
        ensures
            self@ == self.spec_raw().subrange(self.spec_start(), self.spec_end()),
            self@.len() == self.spec_end() - self.spec_start(),
    {
    }

    /// A zeroed buffer of `size` bytes with an empty live range.
    pub fn new(size: usize) -> (r: Buffer)
        ensures
            r.wf(),
            r.spec_raw() == Seq::new(size as nat, |i: int| 0u8),
            r.spec_start() == 0,
            r.spec_end() == 0,
    {
        let mut data: Vec<u8> = Vec::new();
        let mut i: usize = 0;
        while i < size
            invariant
                i <= size,
                data@ == Seq::new(i as nat, |j: int| 0u8),
            decreases size - i,
        {
            data.push(0);
            proof {
                assert(data@ =~= Seq::new((i + 1) as nat, |j: int| 0u8));
            }
            i += 1;
        }
        Buffer { data, start: 0, end: 0 }
    }

    /// Read access to the whole storage, live or not.
    pub fn raw(&self) -> (r: &Vec<u8>)
        ensures
            r@ == self.spec_raw(),
    {
        &self.data
    }

    /// Overwrite storage bytes starting at `pos`; the live range is kept.
    pub fn write_at(&mut self, pos: usize, bytes: &[u8])
        requires
            old(self).wf(),
            pos + bytes@.len() <= old(self).spec_raw().len(),
        ensures
            final(self).wf(),
            final(self).spec_raw().len() == old(self).spec_raw().len(),
            final(self).spec_raw() == old(self).spec_raw().take(pos as int) + bytes@ + old(
                self,
            ).spec_raw().skip(pos + bytes@.len()),
            final(self).spec_start() == old(self).spec_start(),
            final(self).spec_end() == old(self).spec_end(),
    {
        let mut i: usize = 0;
        let n = bytes.len();
        let cap = self.data.len();
        while i < n
            invariant
                i <= n,
                n == bytes@.len(),
                pos + n <= cap,
                cap == self.data@.len(),
                self.start == old(self).start,
                self.end == old(self).end,
                self.data@.len() == old(self).data@.len(),
                self.data@ == old(self).data@.take(pos as int) + bytes@.take(i as int) + old(
                    self,
                ).data@.skip(pos + i),
            decreases n - i,
        {
            let b = *vstd::slice::slice_index_get(bytes, i);
            self.data.set(pos + i, b);
            proof {
                assert(self.data@ =~= old(self).data@.take(pos as int) + bytes@.take(i + 1) + old(
                    self,
                ).data@.skip(pos + i + 1));
            }
            i += 1;
        }
        proof {
            assert(bytes@.take(n as int) == bytes@);
        }
    }

    /// The live bytes, as a slice.
    pub fn as_slice(&self) -> (r: &[u8])
        requires
            self.wf(),
        ensures
            r@ == self@,
    {
        slice_subrange(self.data.as_slice(), self.start, self.end)
    }

    /// Advance the start of the live range past `count` handled bytes,
    /// clamping at its end.
    pub fn consume(&mut self, count: usize)
        requires
            old(self).wf(),
        ensures
            final(self).wf(),
            final(self).spec_raw() == old(self).spec_raw(),
            final(self).spec_end() == old(self).spec_end(),
            final(self).spec_start() == if old(self).spec_start() + count <= old(self).spec_end() {
                old(self).spec_start() + count
            } else {
                old(self).spec_end()
            },
            final(self)@ == if old(self).spec_start() + count <= old(self).spec_end() {
                old(self)@.skip(count as int)
            } else {
                Seq::<u8>::empty()
            },
    {
        if count <= self.end - self.start {
            self.start = self.start + count;
        } else {
            self.start = self.end;
        }
        proof {
            if old(self).start + count <= old(self).end {
                assert(self@ =~= old(self)@.skip(count as int));
            } else {
                assert(self@ =~= Seq::<u8>::empty());
            }
        }
    }

    /// Empty the live range.
    pub fn reset(&mut self)
        ensures
            final(self).wf(),
            final(self).spec_raw() == old(self).spec_raw(),
            final(self).spec_start() == 0,
            final(self).spec_end() == 0,
            final(self)@ == Seq::<u8>::empty(),
    {
        self.start = 0;
        self.end = 0;
        proof {
            assert(self@ =~= Seq::<u8>::empty());
        }
    }

    /// Set the live range to `[start, end)`, each bound clamped to the
    /// capacity and the start clamped to the end.
    pub fn set_range(&mut self, start: usize, end: usize)
        requires
            old(self).wf(),
        ensures
            final(self).wf(),
            final(self).spec_raw() == old(self).spec_raw(),
            final(self).spec_end() == if end <= old(self).spec_raw().len() {
                end as int
            } else {
                old(self).spec_raw().len() as int
            },
            final(self).spec_start() == if start <= final(self).spec_end() {
                start as int
            } else {
                final(self).spec_end()
            },
    {
        let cap = self.data.len();
        let e = if end <= cap {
            end
        } else {
            cap
        };
        let s = if start <= e {
            start
        } else {
            e
        };
        self.start = s;
        self.end = e;
    }

    /// Whether the live range is empty.
    pub fn is_empty(&self) -> (r: bool)
        requires
            self.wf(),
        ensures
            r == (self@.len() == 0),
    {
        self.start == self.end
    }

    /// Number of live bytes.
    pub fn len(&self) -> (r: usize)
        requires
            self.wf(),
        ensures
            r == self@.len(),
    {
        self.end - self.start
    }

    /// Size of the storage.
    pub fn capacity(&self) -> (r: usize)
        ensures
            r == self.spec_raw().len(),
    {
        self.data.len()
    }
}

impl Default for Buffer {
    /// A zeroed buffer of the default capacity.
    fn default() -> (r: Buffer)
        ensures
            r.wf(),
            r.spec_raw() == Seq::new(DEFAULT_BUFFER_SIZE as nat, |i: int| 0u8),
            r.spec_start() == 0,
            r.spec_end() == 0,
    {
        Buffer::new(DEFAULT_BUFFER_SIZE)
    }
}

} // verus!
