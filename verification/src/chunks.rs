//! Fixed-size chunking of byte sequences for the SPI transfer engine.
//!
//! Every SPI transaction moves at most [`MAX_XFER_BYTES`] bytes in each
//! direction; longer buffers are walked in windows of that size, with a
//! shorter final window.

use vstd::prelude::*;

verus! {

/// The per-transaction payload ceiling of the SPI transfer path.
pub const MAX_XFER_BYTES: usize = 64;

/// The windows a byte sequence is split into: full 64-byte windows, then
/// whatever remains.
pub open spec fn chunks_of(s: Seq<u8>) -> Seq<Seq<u8>>
    decreases s.len(),
{
    if s.len() == 0 {
        Seq::empty()
    } else if s.len() <= MAX_XFER_BYTES {
        seq![s]
    } else {
        seq![s.take(MAX_XFER_BYTES as int)] + chunks_of(s.skip(MAX_XFER_BYTES as int))
    }
}

/// The window lengths of a buffer of `n` bytes, without the contents.
pub open spec fn size_plan(n: int) -> Seq<int>
    decreases n,
{
    if n <= 0 {
        Seq::empty()
    } else if n <= MAX_XFER_BYTES {
        seq![n]
    } else {
        seq![MAX_XFER_BYTES as int] + size_plan(n - MAX_XFER_BYTES)
    }
}

/// Chunking yields exactly `ceil(len / 64)` windows.
pub proof fn lemma_chunks_count(s: Seq<u8>)
    ensures
        chunks_of(s).len() == (s.len() + MAX_XFER_BYTES - 1) as int / (MAX_XFER_BYTES as int),
    decreases s.len(),
{
    if s.len() > MAX_XFER_BYTES {
        lemma_chunks_count(s.skip(MAX_XFER_BYTES as int));
    }
}

/// Each window is the matching 64-byte subrange of the original sequence; in
/// particular every window is nonempty and no longer than 64 bytes.
pub proof fn lemma_chunks_shape(s: Seq<u8>)
    ensures
        forall|i: int|
            0 <= i < chunks_of(s).len() ==> #[trigger] chunks_of(s)[i] =~= s.subrange(
                MAX_XFER_BYTES * i,
                if MAX_XFER_BYTES * (i + 1) <= s.len() {
                    MAX_XFER_BYTES * (i + 1)
                } else {
                    s.len() as int
                },
            ),
    decreases s.len(),
{
    if s.len() > MAX_XFER_BYTES {
        let rest = s.skip(MAX_XFER_BYTES as int);
        lemma_chunks_shape(rest);
        lemma_chunks_count(rest);
        assert forall|i: int| 0 <= i < chunks_of(s).len() implies #[trigger] chunks_of(s)[i]
            =~= s.subrange(
            MAX_XFER_BYTES * i,
            if MAX_XFER_BYTES * (i + 1) <= s.len() {
                MAX_XFER_BYTES * (i + 1)
            } else {
                s.len() as int
            },
        ) by {
            if i > 0 {
                let a = MAX_XFER_BYTES * (i - 1);
                let b = if MAX_XFER_BYTES * i <= rest.len() {
                    MAX_XFER_BYTES * i
                } else {
                    rest.len() as int
                };
                assert(chunks_of(s)[i] == chunks_of(rest)[i - 1]);
                assert(chunks_of(rest)[i - 1] =~= rest.subrange(a, b));
                assert(rest.subrange(a, b) =~= s.subrange(
                    a + MAX_XFER_BYTES,
                    b + MAX_XFER_BYTES,
                ));
            } else {
                assert(chunks_of(s)[0] == s.take(MAX_XFER_BYTES as int));
                assert(s.take(MAX_XFER_BYTES as int) =~= s.subrange(0, MAX_XFER_BYTES as int));
            }
        }
    }
}

/// Concatenating the windows reconstructs the original sequence exactly.
pub proof fn lemma_chunks_concat(s: Seq<u8>)
    ensures
        chunks_of(s).flatten() == s,
    decreases s.len(),
{
    if s.len() == 0 {
        assert(chunks_of(s).flatten() =~= s);
    } else if s.len() <= MAX_XFER_BYTES {
        assert(chunks_of(s) =~= seq![s]);
        seq![s].lemma_flatten_one_element();
        assert(chunks_of(s).flatten() =~= s);
    } else {
        let head = s.take(MAX_XFER_BYTES as int);
        let rest = s.skip(MAX_XFER_BYTES as int);
        lemma_chunks_concat(rest);
        assert(chunks_of(s).first() == head);
        assert(chunks_of(s).drop_first() =~= chunks_of(rest));
        assert(chunks_of(s).flatten() == head + chunks_of(rest).flatten());
        assert(head + rest =~= s);
    }
}

/// The final window holds `len % 64` bytes, or a full 64 when the length is
/// a nonzero multiple of 64.
pub proof fn lemma_chunks_last(s: Seq<u8>)
    requires
        s.len() > 0,
    ensures
        chunks_of(s).last().len() == if s.len() % MAX_XFER_BYTES as nat == 0 {
            MAX_XFER_BYTES as nat
        } else {
            s.len() % MAX_XFER_BYTES as nat
        },
    decreases s.len(),
{
    if s.len() > MAX_XFER_BYTES {
        let rest = s.skip(MAX_XFER_BYTES as int);
        lemma_chunks_last(rest);
        assert(chunks_of(s).last() == chunks_of(rest).last());
        assert(rest.len() % MAX_XFER_BYTES as nat == s.len() % MAX_XFER_BYTES as nat)
            by (nonlinear_arith)
            requires
                rest.len() + MAX_XFER_BYTES as nat == s.len(),
        ;
    }
}

/// The window lengths of a buffer are exactly what [`size_plan`] says of its
/// length.
pub proof fn lemma_size_plan_matches(s: Seq<u8>)
    ensures
        size_plan(s.len() as int).len() == chunks_of(s).len(),
        forall|i: int|
            0 <= i < chunks_of(s).len() ==> #[trigger] size_plan(s.len() as int)[i]
                == chunks_of(s)[i].len(),
    decreases s.len(),
{
    if s.len() > MAX_XFER_BYTES {
        lemma_size_plan_matches(s.skip(MAX_XFER_BYTES as int));
    }
}

/// Walking the plan: a nonempty plan starts with a window of
/// `min(64, n)` bytes, and dropping it leaves the plan of what remains.
pub proof fn lemma_size_plan_step(n: int)
    requires
        n > 0,
    ensures
        size_plan(n).len() > 0,
        size_plan(n)[0] == if n > MAX_XFER_BYTES { MAX_XFER_BYTES as int } else { n },
        size_plan(n).skip(1) =~= size_plan(n - size_plan(n)[0]),
{
    if n > MAX_XFER_BYTES {
        assert((seq![MAX_XFER_BYTES as int] + size_plan(n - MAX_XFER_BYTES)).skip(1)
            =~= size_plan(n - MAX_XFER_BYTES));
    } else {
        assert(seq![n].skip(1) =~= size_plan(0));
    }
}

/// The lengths of the ≤64-byte windows that a buffer of `total` bytes is
/// walked in: full windows first, then the remainder.
pub fn chunk_sizes(total: usize) -> (v: Vec<usize>)
    ensures
        v@.map_values(|x: usize| x as int) == size_plan(total as int),
{
    let mut v: Vec<usize> = Vec::new();
    let mut rem: usize = total;
    proof {
        assert(v@.map_values(|x: usize| x as int) + size_plan(rem as int) =~= size_plan(
            total as int,
        ));
    }
    while rem > 0
        invariant
            v@.map_values(|x: usize| x as int) + size_plan(rem as int) =~= size_plan(total as int),
        decreases rem,
    {
        let ghost pre = v@;
        if rem > MAX_XFER_BYTES {
            v.push(MAX_XFER_BYTES);
            rem = rem - MAX_XFER_BYTES;
            proof {
                assert(v@.map_values(|x: usize| x as int) =~= pre.map_values(|x: usize| x as int)
                    + seq![MAX_XFER_BYTES as int]);
                assert(v@.map_values(|x: usize| x as int) + size_plan(rem as int) =~= size_plan(
                    total as int,
                ));
            }
        } else {
            v.push(rem);
            proof {
                assert(v@.map_values(|x: usize| x as int) =~= pre.map_values(|x: usize| x as int)
                    + seq![rem as int]);
                assert(v@.map_values(|x: usize| x as int) + size_plan(0) =~= size_plan(total as int));
            }
            rem = 0;
        }
    }
    proof {
        assert(v@.map_values(|x: usize| x as int) + size_plan(0) =~= v@.map_values(
            |x: usize| x as int,
        ));
    }
    v
}

} // verus!
