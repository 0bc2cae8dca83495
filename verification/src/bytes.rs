//! The mathematical model of in-memory byte resources: how many bytes
//! a bounded resource hands over, what each offset holds, and what a
//! buffer looks like after a write is laid over it.

use vstd::prelude::*;

verus! {

/// The count a bounded resource of capacity `cap` reports for a
/// request of `n` bytes at offset `pos`: everything up to the lesser
/// of the request and the remaining room, and nothing at or past the
/// end.
pub open spec fn capped_count(cap: int, pos: int, n: nat) -> nat {
    if 0 <= pos && pos < cap {
        if n <= cap - pos {
            n
        } else {
            (cap - pos) as nat
        }
    } else {
        0
    }
}

/// The byte a buffer with contents `s` holds at offset `pos`, and
/// zero outside its bounds.
pub open spec fn byte_in(s: Seq<u8>, pos: int) -> u8 {
    if 0 <= pos && pos < s.len() {
        s[pos]
    } else {
        0
    }
}

/// The contents of a buffer `s` after `d` is laid over it at offset
/// `pos`: bytes under `d` are replaced, every other byte keeps its
/// value, and a non-empty write reaching past the end extends the
/// buffer, filling any gap between the old end and `pos` with zeroes.
/// An empty write leaves the buffer as it was.
pub open spec fn overlay(s: Seq<u8>, pos: int, d: Seq<u8>) -> Seq<u8>
    recommends
        0 <= pos,
{
    let n = if d.len() > 0 && pos + d.len() > s.len() {
        pos + d.len()
    } else {
        s.len() as int
    };
    Seq::new(
        n as nat,
        |i: int|
            if pos <= i && i < pos + d.len() {
                d[i - pos]
            } else if 0 <= i && i < s.len() {
                s[i]
            } else {
                0u8
            },
    )
}

/// Whether a run of transfers at advancing offsets, each moving the
/// count `counts` reports for what is still missing, completes `n`
/// bytes from `pos` before the resource stalls with a count of zero.
///
/// The retrying helpers of the two capability traits succeed exactly
/// when this holds of their source's or sink's count function.
pub open spec fn steps_complete(counts: spec_fn(int, nat) -> nat, pos: int, n: nat) -> bool
    decreases n,
{
    if n == 0 {
        true
    } else {
        let c = counts(pos, n);
        if c == 0 || c > n {
            false
        } else {
            steps_complete(counts, pos + c, (n - c) as nat)
        }
    }
}

/// Two count functions that agree everywhere complete the same
/// transfers.
pub proof fn lemma_steps_complete_agree(
    f: spec_fn(int, nat) -> nat,
    g: spec_fn(int, nat) -> nat,
    pos: int,
    n: nat,
)
    requires
        forall|p: int, m: nat| #[trigger] f(p, m) == g(p, m),
    ensures
        steps_complete(f, pos, n) == steps_complete(g, pos, n),
    decreases n,
{
    if n != 0 {
        let c = f(pos, n);
        if c != 0 && c <= n {
            lemma_steps_complete_agree(f, g, pos + c, (n - c) as nat);
        }
    }
}

/// Against a bounded resource of capacity `cap`, a transfer completes
/// exactly when it asks for nothing or fits inside the capacity: the
/// first step moves everything up to the end, and a second step at
/// the end stalls.
pub proof fn lemma_steps_complete_capped(counts: spec_fn(int, nat) -> nat, cap: int, pos: int, n: nat)
    requires
        0 <= pos,
        forall|p: int, m: nat| #[trigger] counts(p, m) == capped_count(cap, p, m),
    ensures
        steps_complete(counts, pos, n) == (n == 0 || pos + n <= cap),
{
    if n != 0 {
        let c = counts(pos, n);
        assert(c == capped_count(cap, pos, n));
        if pos >= cap {
            assert(c == 0);
        } else if n <= cap - pos {
            assert(c == n);
            assert(steps_complete(counts, pos + c, (n - c) as nat));
        } else {
            assert(c == cap - pos);
            let m = (n - c) as nat;
            assert(counts(pos + c, m) == capped_count(cap, cap, m));
            assert(!steps_complete(counts, pos + c, m));
        }
    }
}

/// A resource that always reports the full request completes every
/// transfer in one step.
pub proof fn lemma_steps_complete_full(counts: spec_fn(int, nat) -> nat, pos: int, n: nat)
    requires
        forall|p: int, m: nat| #[trigger] counts(p, m) == m,
    ensures
        steps_complete(counts, pos, n),
{
    if n != 0 {
        assert(counts(pos, n) == n);
        assert(steps_complete(counts, pos + n, 0nat));
    }
}

/// Laying an empty buffer over `s` changes nothing.
pub proof fn lemma_overlay_empty(s: Seq<u8>, pos: int)
    ensures
        overlay(s, pos, Seq::<u8>::empty()) == s,
{
    assert(overlay(s, pos, Seq::<u8>::empty()) =~= s);
}

/// Laying two adjacent pieces of `d` over `s` in turn leaves the same
/// contents as laying the longer prefix over it at once.
pub proof fn lemma_overlay_step(s: Seq<u8>, pos: int, d: Seq<u8>, w: int, c: int)
    requires
        0 <= pos,
        0 <= w,
        0 < c,
        w + c <= d.len(),
    ensures
        overlay(overlay(s, pos, d.take(w)), pos + w, d.subrange(w, w + c)) == overlay(
            s,
            pos,
            d.take(w + c),
        ),
{
    assert(overlay(overlay(s, pos, d.take(w)), pos + w, d.subrange(w, w + c)) =~= overlay(
        s,
        pos,
        d.take(w + c),
    ));
}

/// The bytes just written are read back unchanged: under the overlay,
/// offset `pos + j` holds `d[j]`.
pub proof fn lemma_overlay_read_back(s: Seq<u8>, pos: int, d: Seq<u8>)
    requires
        0 <= pos,
    ensures
        d.len() > 0 ==> overlay(s, pos, d).len() >= pos + d.len(),
        forall|j: int| 0 <= j < d.len() ==> overlay(s, pos, d)[pos + j] == d[j],
{
}

} // verus!
