//! The positional-write capability.

use vstd::prelude::*;

use crate::bytes::lemma_overlay_empty;
use crate::bytes::lemma_overlay_step;
use crate::bytes::overlay;
use crate::bytes::steps_complete;
use crate::error::IoError;

verus! {

/// The `WriteAt` trait allows writing bytes to a sink at explicit
/// offsets, without an implicit cursor that calls would advance.
///
/// Each implementor describes itself through specification functions:
/// `wcontent` gives the bytes the sink has stored, `write_count`
/// gives the count a single write reports, `stores` says whether
/// reported bytes actually land in `wcontent` (a discarding sink
/// reports counts without storing), and `writes_total` says whether
/// writes are guaranteed to succeed.  A single `write_at` call lays
/// the first `write_count(pos, len)` bytes of the data over the
/// stored contents at `pos`; no adapter extends its storage unless
/// its `write_count` says the bytes past the end are accepted.
///
/// As with [`ReadAt`](crate::ReadAt), implementations are not
/// required to be safe for concurrent use; a seek-then-write
/// implementor is wrapped in
/// [`AssertThreadSafe`](crate::AssertThreadSafe), whose name records
/// the caller's promise that no concurrent seek races with it.
pub trait WriteAt: Sized {
    /// The bytes the sink has stored.
    spec fn wcontent(&self) -> Seq<u8>;

    /// The count a single write at `pos` of `n` bytes reports.
    spec fn write_count(&self, pos: int, n: nat) -> nat;

    /// Whether reported bytes land in `wcontent`.  A discarding sink
    /// gives `false`: it reports full counts and stores nothing.
    spec fn stores(&self) -> bool;

    /// Whether writes and flushes on this sink always succeed.
    spec fn writes_total(&self) -> bool;

    /// A bound on how many more times in a row writes on this sink
    /// may report a transient interruption before making progress.
    /// A sink that never interrupts gives it zero.  The bound is a
    /// specification device only: it is what lets every retry loop
    /// over this sink be shown to finish.
    spec fn write_retry_budget(&self) -> nat;

    /// Writes some bytes at `pos` bytes into `self`.
    ///
    /// Returns the number of bytes accepted from the front of `data`,
    /// between zero and `data`'s length.  A count of zero while data
    /// remains signals that the sink can accept nothing at `pos`,
    /// which is not itself an error.
    fn write_at(&mut self, pos: u64, data: &Vec<u8>) -> (r: Result<usize, IoError>)
        ensures
            final(self).stores() == old(self).stores(),
            final(self).writes_total() == old(self).writes_total(),
            forall|p: int, m: nat| #[trigger]
                final(self).write_count(p, m) == old(self).write_count(p, m),
            final(self).write_retry_budget() <= old(self).write_retry_budget(),
            r == Err::<usize, IoError>(IoError::Interrupted)
                ==> final(self).write_retry_budget() < old(self).write_retry_budget(),
            old(self).writes_total() ==> r is Ok,
            r matches Ok(c) ==> {
                &&& c <= data@.len()
                &&& c == old(self).write_count(pos as int, data@.len())
                &&& old(self).stores() ==> final(self).wcontent() == overlay(
                    old(self).wcontent(),
                    pos as int,
                    data@.take(c as int),
                )
            },
            !old(self).stores() ==> final(self).wcontent() == old(self).wcontent(),
            r is Err ==> final(self).wcontent() == old(self).wcontent(),
    ;

    /// Flushes any pending writes to the underlying sink.  A no-op
    /// for purely in-memory sinks; it never changes what is stored.
    fn flush(&mut self) -> (r: Result<(), IoError>)
        ensures
            final(self).wcontent() == old(self).wcontent(),
            final(self).stores() == old(self).stores(),
            final(self).writes_total() == old(self).writes_total(),
            forall|p: int, m: nat| #[trigger]
                final(self).write_count(p, m) == old(self).write_count(p, m),
            final(self).write_retry_budget() <= old(self).write_retry_budget(),
            old(self).writes_total() ==> r is Ok,
    ;

    /// Writes exactly `data.len()` bytes at `pos` bytes into `self`,
    /// by calling `write_at` at advancing offsets until all of the
    /// data is written.
    ///
    /// A transient interruption is retried without losing or
    /// duplicating progress.  Any other error propagates at once;
    /// bytes already written stay applied.  A step that accepts zero
    /// bytes while data remains fails with [`IoError::WriteZero`]:
    /// the sink can accept no more and retrying would not help.
    fn write_all_at(&mut self, pos: u64, data: &Vec<u8>) -> (r: Result<(), IoError>)
        requires
            pos + data@.len() <= u64::MAX,
        ensures
            final(self).stores() == old(self).stores(),
            final(self).writes_total() == old(self).writes_total(),
            forall|p: int, m: nat| #[trigger]
                final(self).write_count(p, m) == old(self).write_count(p, m),
            final(self).write_retry_budget() <= old(self).write_retry_budget(),
            r != Err::<(), IoError>(IoError::Interrupted),
            (r is Ok && old(self).stores()) ==> final(self).wcontent() == overlay(
                old(self).wcontent(),
                pos as int,
                data@,
            ),
            (r is Err && old(self).stores()) ==> exists|w: int|
                0 <= w <= data@.len() && final(self).wcontent() == overlay(
                    old(self).wcontent(),
                    pos as int,
                    #[trigger] data@.take(w),
                ),
            !old(self).stores() ==> final(self).wcontent() == old(self).wcontent(),
            old(self).writes_total() ==> (r is Ok <==> steps_complete(
                (|p: int, m: nat| old(self).write_count(p, m)),
                pos as int,
                data@.len(),
            )),
            old(self).writes_total() && !steps_complete(
                (|p: int, m: nat| old(self).write_count(p, m)),
                pos as int,
                data@.len(),
            ) ==> r == Err::<(), IoError>(IoError::WriteZero),
    {
        let n = data.len();
        let mut written: usize = 0;
        proof {
            lemma_overlay_empty(self.wcontent(), pos as int);
            assert(data@.take(0) =~= Seq::<u8>::empty());
        }
        while written < n
            invariant
                written <= n,
                n == data@.len(),
                pos + n <= u64::MAX,
                self.stores() == old(self).stores(),
                self.writes_total() == old(self).writes_total(),
                forall|p: int, m: nat| #[trigger]
                    self.write_count(p, m) == old(self).write_count(p, m),
                self.write_retry_budget() <= old(self).write_retry_budget(),
                old(self).stores() ==> self.wcontent() == overlay(
                    old(self).wcontent(),
                    pos as int,
                    data@.take(written as int),
                ),
                !old(self).stores() ==> self.wcontent() == old(self).wcontent(),
                steps_complete(
                    (|p: int, m: nat| old(self).write_count(p, m)),
                    pos as int,
                    n as nat,
                ) == steps_complete(
                    (|p: int, m: nat| old(self).write_count(p, m)),
                    pos + written,
                    (n - written) as nat,
                ),
            decreases n - written, self.write_retry_budget(),
        {
            let mut tmp: Vec<u8> = Vec::new();
            let mut k: usize = written;
            while k < n
                invariant
                    written <= k <= n,
                    n == data@.len(),
                    tmp@ == data@.subrange(written as int, k as int),
                decreases n - k,
            {
                let b = data[k];
                tmp.push(b);
                k += 1;
                proof {
                    assert(tmp@ =~= data@.subrange(written as int, k as int));
                }
            }
            let ghost before_step = self.wcontent();
            match self.write_at(pos + written as u64, &tmp) {
                Ok(c) => {
                    if c == 0 {
                        proof {
                            if old(self).stores() {
                                assert(tmp@.take(0int) =~= Seq::<u8>::empty());
                                lemma_overlay_empty(before_step, pos + written as int);
                                assert(self.wcontent() == overlay(
                                    old(self).wcontent(),
                                    pos as int,
                                    data@.take(written as int),
                                ));
                            }
                        }
                        return Err(IoError::WriteZero);
                    }
                    proof {
                        assert(tmp@.take(c as int) =~= data@.subrange(
                            written as int,
                            written + c,
                        ));
                        if old(self).stores() {
                            lemma_overlay_step(
                                old(self).wcontent(),
                                pos as int,
                                data@,
                                written as int,
                                c as int,
                            );
                        }
                    }
                    written = written + c;
                }
                Err(IoError::Interrupted) => {},
                Err(e) => {
                    proof {
                        if old(self).stores() {
                            assert(self.wcontent() == overlay(
                                old(self).wcontent(),
                                pos as int,
                                data@.take(written as int),
                            ));
                        }
                    }
                    return Err(e);
                },
            }
        }
        proof {
            assert(data@.take(n as int) =~= data@);
        }
        Ok(())
    }
}

} // verus!
