//! A set of documents viewed as one seekable byte stream.
//!
//! The stream is the concatenation of the documents, in order; a global
//! offset maps to a document index and a local offset, and reads cross
//! document boundaries transparently.

use vstd::prelude::*;

verus! {

/// Concatenation of a sequence of documents.
pub open spec fn flat(files: Seq<Seq<u8>>) -> Seq<u8>
    decreases files.len(),
{
    if files.len() == 0 {
        Seq::empty()
    } else {
        files.first() + flat(files.drop_first())
    }
}

/// Where document `i` starts in the concatenation.
pub open spec fn start_of(files: Seq<Seq<u8>>, i: int) -> int {
    flat(files.take(i)).len() as int
}

/// Concatenation distributes over appending sequences of documents.
proof fn lemma_flat_concat(a: Seq<Seq<u8>>, b: Seq<Seq<u8>>)
    ensures
        flat(a + b) == flat(a) + flat(b),
    decreases a.len(),
{
    if a.len() == 0 {
        assert(a + b =~= b);
        assert(flat(a) + flat(b) =~= flat(b));
    } else {
        assert((a + b).first() == a.first());
        assert((a + b).drop_first() =~= a.drop_first() + b);
        lemma_flat_concat(a.drop_first(), b);
        assert(flat(a + b) =~= flat(a) + flat(b));
    }
}

/// One more document extends the concatenation by exactly that document.
proof fn lemma_flat_take_succ(files: Seq<Seq<u8>>, i: int)
    requires
        0 <= i < files.len(),
    ensures
        flat(files.take(i + 1)) == flat(files.take(i)) + files[i],
{
    assert(files.take(i + 1) =~= files.take(i) + seq![files[i]]);
    lemma_flat_concat(files.take(i), seq![files[i]]);
    assert(seq![files[i]].first() == files[i]);
    assert(seq![files[i]].drop_first() =~= Seq::<Seq<u8>>::empty());
    assert(flat(Seq::<Seq<u8>>::empty()) == Seq::<u8>::empty());
    assert(flat(seq![files[i]]) =~= files[i]);
}

/// The concatenation splits at any document: what precedes it, the
/// document itself, and what follows it.
proof fn lemma_flat_decompose(files: Seq<Seq<u8>>, i: int)
    requires
        0 <= i < files.len(),
    ensures
        flat(files) == flat(files.take(i)) + files[i] + flat(files.skip(i + 1)),
{
    assert(files =~= files.take(i + 1) + files.skip(i + 1));
    lemma_flat_concat(files.take(i + 1), files.skip(i + 1));
    lemma_flat_take_succ(files, i);
    assert(flat(files) =~= flat(files.take(i)) + files[i] + flat(files.skip(i + 1)));
}

/// Document starts never decrease, and every start stays within the whole.
proof fn lemma_start_of_bounds(files: Seq<Seq<u8>>, i: int)
    requires
        0 <= i <= files.len(),
    ensures
        0 <= start_of(files, i) <= flat(files).len(),
        i < files.len() ==> start_of(files, i) + files[i].len() <= flat(files).len(),
    decreases files.len() - i,
{
    if i == files.len() {
        assert(files.take(i) =~= files);
    } else {
        lemma_flat_take_succ(files, i);
        lemma_start_of_bounds(files, i + 1);
    }
}

/// Whence a seek measures its offset.
#[derive(Debug, Clone, Copy, PartialEq, Eq, Structural)]
pub enum SeekFrom {
    /// from the start of the stream
    Start(u64),
    /// from the end of the stream
    End(i64),
    /// from the current position
    Current(i64),
}

/// `base + off`, clamped into `[0, u64::MAX]`.
pub open spec fn spec_sat_add_signed(base: u64, off: int) -> u64 {
    if base + off < 0 {
        0u64
    } else if base + off > u64::MAX {
        u64::MAX
    } else {
        (base + off) as u64
    }
}

/// Creating a file set failed.
#[derive(Debug, Clone, Copy, PartialEq, Eq, Structural)]
pub enum FileSetError {
    /// no documents were given
    NoFiles,
    /// the documents together exceed the addressable stream size
    TooLarge,
}

/// A sequence of documents read as a single seekable stream.
pub struct FileSet {
    files: Vec<Vec<u8>>,
    index: usize,
    rpos: u64,
    start: u64,
}

impl FileSet {
    /// The documents, in order.
    pub closed spec fn view(&self) -> Seq<Seq<u8>> {
        self.files@.map_values(|f: Vec<u8>| f@)
    }

    pub closed spec fn spec_index(&self) -> int {
        self.index as int
    }

    pub closed spec fn spec_rpos(&self) -> int {
        self.rpos as int
    }

    /// The whole stream.
    pub open spec fn spec_flat(&self) -> Seq<u8> {
        flat(self@)
    }

    /// The current global position.
    pub open spec fn spec_position(&self) -> int {
        start_of(self@, self.spec_index()) + self.spec_rpos()
    }

    pub closed spec fn spec_start(&self) -> int {
        self.start as int
    }

    /// At least one document, a current document with a local position
    /// inside it, the cached start offset right, and a stream that fits
    /// the address space.
    pub open spec fn wf(&self) -> bool {
        &&& self@.len() >= 1
        &&& 0 <= self.spec_index() < self@.len()
        &&& 0 <= self.spec_rpos() <= self@[self.spec_index()].len()
        &&& self.spec_start() == start_of(self@, self.spec_index())
        &&& self.spec_flat().len() <= u64::MAX
    }

    /// Wrap documents into a stream positioned at its start; empty sets
    /// and streams beyond the address space are rejected, and exactly
    /// those.
    pub fn new(files: Vec<Vec<u8>>) -> (r: Result<FileSet, FileSetError>)
        ensures
            match r {
                Ok(fs) => {
                    &&& fs.wf()
                    &&& fs@ == files@.map_values(|f: Vec<u8>| f@)
                    &&& fs.spec_position() == 0
                    &&& files@.len() >= 1
                    &&& flat(files@.map_values(|f: Vec<u8>| f@)).len() <= u64::MAX
                },
                Err(FileSetError::NoFiles) => files@.len() == 0,
                Err(FileSetError::TooLarge) => flat(files@.map_values(|f: Vec<u8>| f@)).len()
                    > u64::MAX,
            },
    {
        if files.len() == 0 {
            return Err(FileSetError::NoFiles);
        }
        let ghost view = files@.map_values(|f: Vec<u8>| f@);
        let mut total: u64 = 0;
        let mut i: usize = 0;
        while i < files.len()
            invariant
                i <= files.len(),
                view == files@.map_values(|f: Vec<u8>| f@),
                total == start_of(view, i as int),
            decreases files.len() - i,
        {
            proof {
                lemma_flat_take_succ(view, i as int);
                assert(view[i as int] == files@[i as int]@);
            }
            let len = files[i].len() as u64;
            total = match total.checked_add(len) {
                Some(t) => t,
                None => {
                    proof {
                        lemma_start_of_bounds(view, i + 1);
                    }
                    return Err(FileSetError::TooLarge);
                },
            };
            i += 1;
        }
        proof {
            assert(view.take(view.len() as int) =~= view);
        }
        Ok(FileSet { files, index: 0, rpos: 0, start: 0 })
    }

    /// The length of the whole stream.
    pub fn total_size(&self) -> (r: u64)
        requires
            self.wf(),
        ensures
            r == self.spec_flat().len(),
    {
        let mut total: u64 = 0;
        let mut i: usize = 0;
        let ghost view = self@;
        while i < self.files.len()
            invariant
                i <= self.files.len(),
                view == self@,
                self@.len() == self.files@.len(),
                self.spec_flat().len() <= u64::MAX,
                total == start_of(view, i as int),
            decreases self.files.len() - i,
        {
            proof {
                lemma_flat_take_succ(view, i as int);
                lemma_start_of_bounds(view, i + 1);
                assert(view[i as int] == self.files@[i as int]@);
            }
            let len = self.files[i].len() as u64;
            total = total + len;
            i += 1;
        }
        proof {
            assert(view.take(view.len() as int) =~= view);
        }
        total
    }

    /// The current global position in the stream.
    pub fn get_position(&self) -> (r: u64)
        requires
            self.wf(),
        ensures
            r == self.spec_position(),
    {
        proof {
            lemma_start_of_bounds(self@, self.spec_index());
        }
        self.start + self.rpos
    }

    /// Bytes left in the current document.
    pub fn get_file_remaining(&self) -> (r: u64)
        requires
            self.wf(),
        ensures
            r == self@[self.spec_index()].len() - self.spec_rpos(),
    {
        let f_len = self.files[self.index].len() as u64;
        f_len - self.rpos
    }

    /// Position the stream at global offset `pos`, clamped to its length;
    /// returns the resulting position.
    pub fn open_at(&mut self, pos: u64) -> (r: u64)
        requires
            old(self).wf(),
        ensures
            final(self).wf(),
            final(self)@ == old(self)@,
            r == if pos <= old(self).spec_flat().len() {
                pos as int
            } else {
                old(self).spec_flat().len() as int
            },
            final(self).spec_position() == r,
    {
        let ghost view = self@;
        let mut rel: u64 = pos;
        let mut i: usize = 0;
        let mut start: u64 = 0;
        while i < self.files.len()
            invariant
                i <= self.files@.len(),
                view == old(self)@,
                view == self@,
                self.wf(),
                self@.len() == self.files@.len(),
                start == start_of(view, i as int),
                start + rel == pos,
                forall|j: int| 0 <= j < i ==> start_of(view, j) + view[j].len() < pos,
            decreases self.files.len() - i,
        {
            proof {
                lemma_flat_take_succ(view, i as int);
                lemma_start_of_bounds(view, i as int);
                assert(view[i as int] == self.files@[i as int]@);
            }
            let len = self.files[i].len() as u64;
            if len < rel {
                rel = rel - len;
                start = start + len;
                i += 1;
            } else {
                self.index = i;
                self.rpos = rel;
                self.start = start;
                proof {
                    assert(self@ =~= view);
                    assert(self.spec_position() == pos);
                    assert(pos <= flat(view).len());
                }
                return start + rel;
            }
        }
        // past the end: land at the end of the last document
        proof {
            assert(view.take(view.len() as int) =~= view);
            lemma_start_of_bounds(view, view.len() - 1);
            lemma_flat_take_succ(view, view.len() - 1);
        }
        let last = self.files.len() - 1;
        let last_len = self.files[last].len() as u64;
        self.index = last;
        self.rpos = last_len;
        self.start = start - last_len;
        proof {
            assert(start_of(view, view.len() - 1) + view[view.len() - 1].len() == flat(
                view,
            ).len());
        }
        start
    }

    /// Seek relative to the start, the end or the current position; out of
    /// range the position clamps to the stream bounds. Returns the new
    /// global position.
    pub fn seek(&mut self, from: SeekFrom) -> (r: u64)
        requires
            old(self).wf(),
        ensures
            final(self).wf(),
            final(self)@ == old(self)@,
            final(self).spec_position() == r,
            r == {
                let total = old(self).spec_flat().len() as int;
                let target = match from {
                    SeekFrom::Start(p) => p as int,
                    SeekFrom::End(off) => spec_sat_add_signed(total as u64, off as int) as int,
                    SeekFrom::Current(off) => spec_sat_add_signed(
                        old(self).spec_position() as u64,
                        off as int,
                    ) as int,
                };
                if target <= total {
                    target
                } else {
                    total
                }
            },
    {
        proof {
            lemma_start_of_bounds(old(self)@, old(self).spec_index());
        }
        let target: u64 = match from {
            SeekFrom::Start(p) => p,
            SeekFrom::End(off) => sat_add_signed(self.total_size(), off),
            SeekFrom::Current(off) => {
                let cur = self.get_position();
                sat_add_signed(cur, off)
            },
        };
        self.open_at(target)
    }

    /// Read up to `buf_len` bytes from the current position: exactly the
    /// next `min(buf_len, remaining)` bytes of the stream, crossing
    /// document boundaries, and advance past them.
    pub fn read(&mut self, buf_len: usize) -> (r: Vec<u8>)
        requires
            old(self).wf(),
        ensures
            final(self).wf(),
            final(self)@ == old(self)@,
            r@ == old(self).spec_flat().subrange(
                old(self).spec_position(),
                old(self).spec_position() + r@.len(),
            ),
            r@.len() == vstd::math::min(
                buf_len as int,
                old(self).spec_flat().len() - old(self).spec_position(),
            ),
            final(self).spec_position() == old(self).spec_position() + r@.len(),
    {
        let ghost view = self@;
        let ghost pos0 = self.spec_position();
        proof {
            lemma_start_of_bounds(view, self.spec_index());
        }
        let mut out: Vec<u8> = Vec::new();
        loop
            invariant
                self.wf(),
                self@ == view,
                self@.len() == self.files@.len(),
                0 <= pos0 <= flat(view).len(),
                out@.len() <= buf_len,
                out@ == flat(view).subrange(pos0, pos0 + out@.len()),
                pos0 + out@.len() == self.spec_position(),
                pos0 + out@.len() <= flat(view).len(),
            ensures
                self.wf(),
                self@ == view,
                out@ == flat(view).subrange(pos0, pos0 + out@.len()),
                pos0 + out@.len() == self.spec_position(),
                out@.len() == vstd::math::min(buf_len as int, flat(view).len() - pos0),
            decreases buf_len - out.len(), self.files.len() - self.index,
        {
            proof {
                lemma_start_of_bounds(view, self.spec_index());
                lemma_flat_decompose(view, self.spec_index());
            }
            if out.len() == buf_len {
                proof {
                    lemma_start_of_bounds(view, self.spec_index());
                }
                break;
            }
            let f_len = self.files[self.index].len() as u64;
            let avail = f_len - self.rpos;
            if avail == 0 {
                if self.index + 1 < self.files.len() {
                    proof {
                        lemma_flat_take_succ(view, self.spec_index());
                    }
                    self.start = self.start + f_len;
                    self.index = self.index + 1;
                    self.rpos = 0;
                } else {
                    // end of the stream
                    proof {
                        assert(start_of(view, view.len() - 1) + view[view.len() - 1].len()
                            == flat(view).len()) by {
                            lemma_flat_take_succ(view, view.len() - 1);
                            assert(view.take(view.len() as int) =~= view);
                        }
                    }
                    break;
                }
            } else {
                let n_usize = self.files[self.index].len();
                let base = self.rpos as usize;
                let want = buf_len - out.len();
                let chunk: usize = if want < n_usize - base {
                    want
                } else {
                    n_usize - base
                };
                let ghost out0 = out@;
                let ghost idx0 = self.spec_index();
                let mut j: usize = 0;
                while j < chunk
                    invariant
                        0 <= j <= chunk,
                        self@ == view,
                        self@.len() == self.files@.len(),
                        self.wf(),
                        idx0 == self.spec_index(),
                        base == self.spec_rpos(),
                        n_usize == view[idx0].len(),
                        base + chunk <= n_usize,
                        out@ == out0 + view[idx0].subrange(base as int, base + j),
                    decreases chunk - j,
                {
                    let fi = &self.files[self.index];
                    proof {
                        assert(fi@ == view[idx0]);
                    }
                    let b = fi[base + j];
                    out.push(b);
                    proof {
                        assert(view[idx0].subrange(base as int, base + j + 1) == view[
                            idx0
                        ].subrange(base as int, base + j).push(view[idx0][base + j]));
                        assert(out@ =~= out0 + view[idx0].subrange(base as int, base + j + 1));
                    }
                    j = j + 1;
                }
                proof {
                    lemma_flat_decompose(view, idx0);
                    lemma_start_of_bounds(view, idx0);
                    assert(pos0 + out0.len() == start_of(view, idx0) + base);
                    assert forall|l: int| 0 <= l < view[idx0].len() implies flat(view)[start_of(
                        view,
                        idx0,
                    ) + l] == view[idx0][l] by {
                        assert(flat(view) == flat(view.take(idx0)) + view[idx0] + flat(
                            view.skip(idx0 + 1),
                        ));
                    }
                    assert(pos0 + out@.len() <= flat(view).len());
                    assert(out0 == flat(view).subrange(pos0, pos0 + out0.len()));
                    assert(out@ == out0 + view[idx0].subrange(base as int, base + chunk));
                    assert(out@.len() == out0.len() + chunk);
                    assert forall|l: int| 0 <= l < out@.len() implies out@[l] == flat(view)[pos0
                        + l] by {
                        if l < out0.len() {
                            assert(out@[l] == out0[l]);
                            assert(out0[l] == flat(view).subrange(pos0, pos0 + out0.len())[l]);
                            assert(flat(view).subrange(pos0, pos0 + out0.len())[l] == flat(
                                view,
                            )[pos0 + l]);
                        } else {
                            let o = l - out0.len();
                            assert(out@[l] == view[idx0].subrange(base as int, base + chunk)[o]);
                            assert(view[idx0].subrange(base as int, base + chunk)[o] == view[
                                idx0
                            ][base + o]);
                            assert(flat(view)[start_of(view, idx0) + (base + o)] == view[idx0][
                                base + o
                            ]);
                            assert(pos0 + l == start_of(view, idx0) + (base + o));
                            assert(flat(view)[pos0 + l] == flat(view)[start_of(view, idx0) + (
                            base + o)]);
                        }
                        assert(out@[l] == flat(view)[pos0 + l]);
                    }
                    assert(out@ =~= flat(view).subrange(pos0, pos0 + out@.len()));
                }
                self.rpos = self.rpos + chunk as u64;
            }
        }
        out
    }
}

/// `base + off`, clamped into the `u64` range.
fn sat_add_signed(base: u64, off: i64) -> (r: u64)
    ensures
        r == spec_sat_add_signed(base, off as int),
{
    if off >= 0 {
        let mag = off as u64;
        if base > u64::MAX - mag {
            u64::MAX
        } else {
            base + mag
        }
    } else {
        let mag: u64 = if off == i64::MIN {
            9223372036854775808u64
        } else {
            (-off) as u64
        };
        if base < mag {
            0
        } else {
            base - mag
        }
    }
}

} // verus!
