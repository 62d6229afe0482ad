//! Reading the last lines of a document.
//!
//! `tail` returns the suffix of a byte document holding its last `k`
//! lines. The final byte is not counted as a line break: a document ending
//! in a newline has that newline close its last line rather than open an
//! empty one.

use vstd::prelude::*;
use vstd::slice::slice_index_get;

verus! {

/// The line separator.
pub const NEWLINE: u8 = 10;

/// Tailing failed.
#[derive(Debug, Clone, Copy, PartialEq, Eq, Structural)]
pub enum TailError {
    /// an empty document has no last byte to anchor the backward scan
    Empty,
}

/// Index just after the `k`-th newline of `body`, counted from its end;
/// `0` when `body` holds fewer than `k` newlines. `k` must be positive.
pub open spec fn start_for(body: Seq<u8>, k: nat) -> int
    decreases body.len(),
{
    if body.len() == 0 {
        0
    } else if body.last() == NEWLINE {
        if k <= 1 {
            body.len() as int
        } else {
            start_for(body.drop_last(), (k - 1) as nat)
        }
    } else {
        start_for(body.drop_last(), k)
    }
}

/// Where the last `k` lines of `data` start: newlines are counted from the
/// end, ignoring the very last byte, and `k = 0` yields the empty suffix.
pub open spec fn spec_tail_start(data: Seq<u8>, k: nat) -> int
    recommends
        data.len() > 0,
{
    if k == 0 {
        data.len() as int
    } else {
        start_for(data.take(data.len() - 1), k)
    }
}

/// The bytes of `data` from `from` on.
fn copy_from(data: &[u8], from: usize) -> (r: Vec<u8>)
    requires
        from <= data@.len(),
    ensures
        r@ == data@.skip(from as int),
{
    let mut out: Vec<u8> = Vec::new();
    let mut i: usize = from;
    let n = data.len();
    while i < n
        invariant
            from <= i <= n,
            n == data@.len(),
            out@ == data@.subrange(from as int, i as int),
        decreases n - i,
    {
        out.push(*slice_index_get(data, i));
        proof {
            assert(data@.subrange(from as int, i + 1) == data@.subrange(from as int, i as int).push(
                data@[i as int],
            ));
        }
        i += 1;
    }
    proof {
        assert(data@.subrange(from as int, n as int) == data@.skip(from as int));
    }
    out
}

/// The tail of a document: with `max_lines` absent the whole document,
/// otherwise exactly its last `min(k, lines)` lines, verbatim. An empty
/// document cannot anchor a line-counted tail and is reported as such.
pub fn tail(data: &[u8], max_lines: Option<usize>) -> (r: Result<Vec<u8>, TailError>)
    ensures
        match max_lines {
            None => r is Ok && r.unwrap()@ == data@,
            Some(k) => if data@.len() == 0 {
                r == Err::<Vec<u8>, TailError>(TailError::Empty)
            } else {
                r is Ok && r.unwrap()@ == data@.skip(spec_tail_start(data@, k as nat))
            },
        },
{
    let k = match max_lines {
        None => {
            return Ok(copy_from(data, 0));
        },
        Some(k) => k,
    };
    if data.len() == 0 {
        return Err(TailError::Empty);
    }
    if k == 0 {
        let n = data.len();
        return Ok(copy_from(data, n));
    }
    let body_len = data.len() - 1;
    let ghost body = data@.take(body_len as int);
    let mut idx: usize = body_len;
    let mut remaining: usize = k;
    proof {
        assert(max_lines == Some(k));
        assert(body.take(body_len as int) =~= body);
    }
    while idx > 0
        invariant
            max_lines == Some(k),
            k >= 1,
            0 <= idx <= body_len,
            body_len == data@.len() - 1,
            body == data@.take(body_len as int),
            remaining >= 1,
            start_for(body, k as nat) == start_for(body.take(idx as int), remaining as nat),
        decreases idx,
    {
        let c = *slice_index_get(data, idx - 1);
        proof {
            assert(body.take(idx as int).last() == data@[idx - 1]);
            assert(body.take(idx as int).drop_last() == body.take(idx - 1));
        }
        if c == NEWLINE {
            if remaining == 1 {
                proof {
                    assert(start_for(body.take(idx as int), 1nat) == idx);
                }
                return Ok(copy_from(data, idx));
            }
            remaining = remaining - 1;
        }
        idx = idx - 1;
    }
    proof {
        assert(body.take(0) == Seq::<u8>::empty());
        assert(start_for(body.take(0), remaining as nat) == 0);
    }
    Ok(copy_from(data, 0))
}

} // verus!
