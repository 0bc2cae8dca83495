//! The positional-read capability.

use vstd::prelude::*;

use crate::bytes::steps_complete;
use crate::error::IoError;

verus! {

/// The `ReadAt` trait allows reading bytes from a source at explicit
/// offsets, without an implicit cursor that calls would advance.
///
/// Each implementor describes itself through three specification
/// functions: `byte_at` gives the byte the source holds at an offset,
/// `read_count` gives the count a single read reports, and
/// `reads_total` says whether reads are guaranteed to succeed.  A
/// single `read_at` call places `read_count(pos, len)` bytes of the
/// source, starting at `pos`, into the front of the buffer, and
/// leaves the rest of the buffer as it was.
///
/// Implementations are deliberately not required to be safe for
/// concurrent use: a seek-then-read implementor can race with another
/// accessor of the same resource.  A type that is only correct when
/// no concurrent seek interleaves is wrapped in
/// [`AssertThreadSafe`](crate::AssertThreadSafe), whose name records
/// that promise.
pub trait ReadAt: Sized {
    /// The byte the source holds at offset `pos`, and zero where it
    /// holds none.
    spec fn byte_at(&self, pos: int) -> u8;

    /// The count a single read at `pos` with a buffer of `n` bytes
    /// reports.
    spec fn read_count(&self, pos: int, n: nat) -> nat;

    /// Whether reads on this source always succeed.
    spec fn reads_total(&self) -> bool;

    /// A bound on how many more times in a row reads on this source
    /// may report a transient interruption before making progress.
    /// A source that never interrupts gives it zero.  The bound is a
    /// specification device only: it is what lets every retry loop
    /// over this source be shown to finish.
    spec fn read_retry_budget(&self) -> nat;

    /// Reads some bytes from `pos` bytes into the source.
    ///
    /// Returns the number of bytes placed into the front of `buf`,
    /// between zero and `buf`'s length.  A count of zero signals that
    /// the source has no more data at `pos`, which is not an error.
    /// The call never changes what the source holds, and never keeps
    /// a cursor: a later read at the same offset sees the same bytes.
    fn read_at(&mut self, pos: u64, buf: &mut Vec<u8>) -> (r: Result<usize, IoError>)
        ensures
            final(buf)@.len() == old(buf)@.len(),
            final(self).reads_total() == old(self).reads_total(),
            forall|p: int, n: nat| #[trigger]
                final(self).read_count(p, n) == old(self).read_count(p, n),
            forall|p: int| #[trigger] final(self).byte_at(p) == old(self).byte_at(p),
            final(self).read_retry_budget() <= old(self).read_retry_budget(),
            r == Err::<usize, IoError>(IoError::Interrupted) ==> final(self).read_retry_budget()
                < old(self).read_retry_budget(),
            old(self).reads_total() ==> r is Ok,
            r matches Ok(c) ==> {
                &&& c == old(self).read_count(pos as int, old(buf)@.len())
                &&& c <= old(buf)@.len()
                &&& forall|j: int| 0 <= j < c ==> final(buf)@[j] == old(self).byte_at(pos + j)
                &&& forall|j: int|
                    c <= j < old(buf)@.len() ==> final(buf)@[j] == old(buf)@[j]
            },
    ;

    /// Reads exactly `buf.len()` bytes from `pos` bytes into the
    /// source, by calling `read_at` at advancing offsets until the
    /// buffer is full.
    ///
    /// A transient interruption is retried without consuming buffer
    /// space or advancing the offset.  Any other error propagates at
    /// once, with the buffer in an unspecified partially-filled
    /// state.  If the source signals end of data before the buffer is
    /// full, the call fails with [`IoError::UnexpectedEof`]; bytes
    /// already placed are retained but the call as a whole is a
    /// failure.
    fn read_exact_at(&mut self, pos: u64, buf: &mut Vec<u8>) -> (r: Result<(), IoError>)
        requires
            pos + old(buf)@.len() <= u64::MAX,
        ensures
            final(buf)@.len() == old(buf)@.len(),
            final(self).reads_total() == old(self).reads_total(),
            forall|p: int, n: nat| #[trigger]
                final(self).read_count(p, n) == old(self).read_count(p, n),
            forall|p: int| #[trigger] final(self).byte_at(p) == old(self).byte_at(p),
            final(self).read_retry_budget() <= old(self).read_retry_budget(),
            r != Err::<(), IoError>(IoError::Interrupted),
            r is Ok ==> forall|j: int|
                0 <= j < old(buf)@.len() ==> final(buf)@[j] == old(self).byte_at(pos + j),
            old(self).reads_total() ==> (r is Ok <==> steps_complete(
                (|p: int, m: nat| old(self).read_count(p, m)),
                pos as int,
                old(buf)@.len(),
            )),
            old(self).reads_total() && !steps_complete(
                (|p: int, m: nat| old(self).read_count(p, m)),
                pos as int,
                old(buf)@.len(),
            ) ==> r == Err::<(), IoError>(IoError::UnexpectedEof),
    {
        let n = buf.len();
        let mut filled: usize = 0;
        while filled < n
            invariant
                filled <= n,
                n == old(buf)@.len(),
                buf@.len() == n,
                pos + n <= u64::MAX,
                self.reads_total() == old(self).reads_total(),
                forall|p: int, m: nat| #[trigger]
                    self.read_count(p, m) == old(self).read_count(p, m),
                forall|p: int| #[trigger] self.byte_at(p) == old(self).byte_at(p),
                self.read_retry_budget() <= old(self).read_retry_budget(),
                forall|j: int| 0 <= j < filled ==> buf@[j] == old(self).byte_at(pos + j),
                forall|j: int| filled <= j < n ==> buf@[j] == old(buf)@[j],
                steps_complete(
                    (|p: int, m: nat| old(self).read_count(p, m)),
                    pos as int,
                    n as nat,
                ) == steps_complete(
                    (|p: int, m: nat| old(self).read_count(p, m)),
                    pos + filled,
                    (n - filled) as nat,
                ),
            decreases n - filled, self.read_retry_budget(),
        {
            let want = n - filled;
            let mut tmp: Vec<u8> = vec![0u8; want];
            match self.read_at(pos + filled as u64, &mut tmp) {
                Ok(c) => {
                    if c == 0 {
                        return Err(IoError::UnexpectedEof);
                    }
                    let mut j: usize = 0;
                    while j < c
                        invariant
                            j <= c,
                            c <= want,
                            want == n - filled,
                            filled < n,
                            n == old(buf)@.len(),
                            buf@.len() == n,
                            tmp@.len() == want,
                            forall|k: int|
                                0 <= k < c ==> tmp@[k] == old(self).byte_at(
                                    pos + filled + k,
                                ),
                            forall|k: int|
                                0 <= k < filled + j ==> buf@[k] == old(self).byte_at(pos + k),
                            forall|k: int| filled + j <= k < n ==> buf@[k] == old(buf)@[k],
                        decreases c - j,
                    {
                        let b = tmp[j];
                        buf.set(filled + j, b);
                        j += 1;
                    }
                    filled = filled + c;
                }
                Err(IoError::Interrupted) => {},
                Err(e) => {
                    return Err(e);
                },
            }
        }
        Ok(())
    }
}


} // verus!
