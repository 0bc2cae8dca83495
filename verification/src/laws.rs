//! Laws of the positional contracts, stated over the same
//! specification model the traits' contracts use and proved once for
//! every caller.

use vstd::prelude::*;

use crate::bytes::lemma_overlay_read_back;
use crate::bytes::lemma_steps_complete_capped;
use crate::bytes::lemma_steps_complete_full;
use crate::bytes::overlay;
use crate::bytes::steps_complete;
use crate::degenerate::Empty;
use crate::degenerate::Repeat;
use crate::degenerate::Sink;
use crate::read::ReadAt;
use crate::write::WriteAt;

verus! {

/// The bytes a single `read_at` call at `pos` with a buffer of `n`
/// bytes places: the source's bytes from `pos` on, as many as its
/// count reports.
pub open spec fn read_back<R: ReadAt>(r: R, pos: int, n: nat) -> Seq<u8> {
    let c = if r.read_count(pos, n) <= n {
        r.read_count(pos, n)
    } else {
        n
    };
    Seq::new(c, |j: int| r.byte_at(pos + j))
}

/// Reading is reproducible: any two states of a reader that agree on
/// the read model — which is exactly what every `read_at`,
/// `read_exact_at`, or interleaved positional call on the same value
/// preserves — serve the same count and the same bytes at every
/// offset.  In particular a re-read after a read, or a read on a
/// seek-then-read wrapper after an earlier positional call at another
/// offset, returns identical contents: the sequential composition is
/// interference-free even though it would not be under concurrency.
pub proof fn lemma_read_is_reproducible<R: ReadAt>(before: R, after: R, pos: int, n: nat)
    requires
        forall|p: int, m: nat| #[trigger] after.read_count(p, m) == before.read_count(p, m),
        forall|p: int| #[trigger] after.byte_at(p) == before.byte_at(p),
    ensures
        after.read_count(pos, n) == before.read_count(pos, n),
        read_back(after, pos, n) == read_back(before, pos, n),
{
    assert(read_back(after, pos, n) =~= read_back(before, pos, n));
}

/// A read that stays in bounds serves the buffer's true contents: for
/// `pos + n` within the buffer, the bytes placed are exactly the
/// buffer's own slice at `[pos, pos + n)`.
pub proof fn lemma_buffer_read_matches_content(v: Vec<u8>, pos: int, n: nat)
    requires
        0 <= pos,
        pos + n <= v@.len(),
    ensures
        v.read_count(pos, n) == n,
        read_back(v, pos, n) == v@.subrange(pos, pos + n),
{
    assert(read_back(v, pos, n) =~= v@.subrange(pos, pos + n));
}

/// An offset at or past the end of a growable buffer reads zero
/// bytes, never an error.
pub proof fn lemma_vec_read_past_end(v: Vec<u8>, pos: int, n: nat)
    requires
        pos >= v@.len(),
    ensures
        v.read_count(pos, n) == 0,
{
}

/// An offset at or past the end of a fixed buffer reads zero bytes,
/// never an error.
pub proof fn lemma_fixed_read_past_end(f: crate::buffer::FixedBuf, pos: int, n: nat)
    requires
        pos >= f@.len(),
    ensures
        f.read_count(pos, n) == 0,
{
}

/// Round trip through a growable buffer: writing `d` at `pos` always
/// completes (so `write_all_at` succeeds), and a read of `d.len()`
/// bytes at `pos` from the grown contents yields exactly `d`.
pub proof fn lemma_growable_round_trip(v: Vec<u8>, w: Vec<u8>, pos: int, d: Seq<u8>)
    requires
        0 <= pos,
        pos + d.len() <= usize::MAX,
        w@ == overlay(v@, pos, d),
    ensures
        steps_complete((|p: int, m: nat| v.write_count(p, m)), pos, d.len()),
        read_back(w, pos, d.len()) == d,
{
    lemma_steps_complete_capped(
        (|p: int, m: nat| v.write_count(p, m)),
        usize::MAX as int,
        pos,
        d.len(),
    );
    lemma_overlay_read_back(v@, pos, d);
    assert(read_back(w, pos, d.len()) =~= d);
}

/// An exact read asking for more than the buffer holds from `pos` on
/// cannot complete, so `read_exact_at` fails with the end-of-data
/// error rather than returning a partial success.
pub proof fn lemma_exact_read_needs_data(v: Vec<u8>, pos: int, n: nat)
    requires
        0 <= pos,
        n > 0,
        pos + n > v@.len(),
    ensures
        !steps_complete((|p: int, m: nat| v.read_count(p, m)), pos, n),
{
    lemma_steps_complete_capped(
        (|p: int, m: nat| v.read_count(p, m)),
        v@.len() as int,
        pos,
        n,
    );
}

/// The discard sink accepts every write whole: `write_all_at` on it
/// succeeds whatever the offset and the data length.
pub proof fn lemma_sink_accepts_everything(s: Sink, pos: int, n: nat)
    ensures
        s.write_count(pos, n) == n,
        steps_complete((|p: int, m: nat| s.write_count(p, m)), pos, n),
{
    lemma_steps_complete_full((|p: int, m: nat| s.write_count(p, m)), pos, n);
}

/// The always-empty source reads zero bytes for every offset and
/// buffer, a nonempty buffer at offset zero included.
pub proof fn lemma_empty_reads_nothing(e: Empty, pos: int, n: nat)
    ensures
        e.read_count(pos, n) == 0,
        read_back(e, pos, n) == Seq::<u8>::empty(),
{
    assert(read_back(e, pos, n) =~= Seq::<u8>::empty());
}

/// Two sequential writes over ranges that do not touch land
/// independently: every byte of either write is read back from the
/// stored contents, whichever order the writes came in.  Together
/// with [`lemma_read_is_reproducible`] this is the single-accessor
/// correctness of seek-then-operate composition: sequential
/// positional calls at different offsets never disturb each other's
/// result, even though concurrent ones could.
pub proof fn lemma_disjoint_writes_keep_both(s: Seq<u8>, o1: int, d1: Seq<u8>, o2: int, d2: Seq<u8>)
    requires
        0 <= o1,
        0 <= o2,
        o1 + d1.len() <= o2 || o2 + d2.len() <= o1,
    ensures
        forall|j: int|
            0 <= j < d1.len() ==> overlay(overlay(s, o1, d1), o2, d2)[o1 + j] == d1[j],
        forall|j: int|
            0 <= j < d2.len() ==> overlay(overlay(s, o1, d1), o2, d2)[o2 + j] == d2[j],
{
}

/// The infinite-repeat source fills every buffer completely, and its
/// contents do not depend on the offset: reads of the same length at
/// any two offsets serve identical bytes.
pub proof fn lemma_repeat_fills_identically(r: Repeat, o1: int, o2: int, n: nat)
    ensures
        r.read_count(o1, n) == n,
        read_back(r, o1, n) == read_back(r, o2, n),
{
    assert(read_back(r, o1, n) =~= read_back(r, o2, n));
}

} // verus!
