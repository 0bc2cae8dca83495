//! The explicit opt-in adapter that promotes a seekable stream into a
//! positional reader or writer.

use vstd::prelude::*;

use crate::bytes::lemma_overlay_empty;
use crate::bytes::lemma_steps_complete_agree;
use crate::bytes::overlay;
use crate::cursor::SeekRead;
use crate::cursor::SeekWrite;
use crate::error::IoError;
use crate::read::ReadAt;
use crate::write::WriteAt;

verus! {

/// Seeks the read cursor to `pos`, retrying the seek as long as it
/// reports a transient interruption; any other failure propagates.
fn seek_read_retrying<T: SeekRead>(t: &mut T, pos: u64) -> (r: Result<(), IoError>)
    ensures
        forall|p: int| #[trigger] final(t).src_byte_at(p) == old(t).src_byte_at(p),
        forall|p: int, m: nat| #[trigger]
            final(t).src_read_count(p, m) == old(t).src_read_count(p, m),
        final(t).src_total() == old(t).src_total(),
        final(t).src_retry_budget() <= old(t).src_retry_budget(),
        old(t).src_total() ==> r is Ok,
        r is Ok ==> final(t).src_pos() == pos,
        r != Err::<(), IoError>(IoError::Interrupted),
    decreases old(t).src_retry_budget(),
{
    match t.seek_to(pos) {
        Ok(()) => Ok(()),
        Err(IoError::Interrupted) => seek_read_retrying(t, pos),
        Err(e) => Err(e),
    }
}

/// Seeks the write cursor to `pos`, retrying the seek as long as it
/// reports a transient interruption; any other failure propagates.
fn seek_write_retrying<T: SeekWrite>(t: &mut T, pos: u64) -> (r: Result<(), IoError>)
    ensures
        final(t).snk_content() == old(t).snk_content(),
        forall|p: int, m: nat| #[trigger]
            final(t).snk_write_count(p, m) == old(t).snk_write_count(p, m),
        final(t).snk_total() == old(t).snk_total(),
        final(t).snk_retry_budget() <= old(t).snk_retry_budget(),
        old(t).snk_total() ==> r is Ok,
        r is Ok ==> final(t).snk_pos() == pos,
        r != Err::<(), IoError>(IoError::Interrupted),
    decreases old(t).snk_retry_budget(),
{
    match t.seek_to(pos) {
        Ok(()) => Ok(()),
        Err(IoError::Interrupted) => seek_write_retrying(t, pos),
        Err(e) => Err(e),
    }
}

/// A wrapper asserting that a seekable stream is safe to use
/// positionally.
///
/// Each positional call composes exactly two underlying operations:
/// move the cursor to the offset, then read or write sequentially.
/// That composition is not atomic: a concurrent user of the same
/// stream can move the shared cursor between the two steps and
/// corrupt both results.  Wrapping a value in this type is the
/// caller's promise that no other positional or cursor-based access
/// to the same stream interleaves while the wrapper exists; the
/// library documents the obligation in this name and does not enforce
/// it with a lock.
///
/// The exact helpers seek — retrying a transient interruption of the
/// seek itself — and then perform one sequential exact-fill or
/// exact-drain operation on the stream, a deliberately distinct code
/// path from the generic retrying defaults with the same error
/// behaviour: no transient interruption is surfaced, a premature end
/// of data reads as [`IoError::UnexpectedEof`], and a write step that
/// accepts nothing as [`IoError::WriteZero`].
#[derive(Clone, Debug)]
pub struct AssertThreadSafe<T>(pub T);

impl<T: SeekRead> ReadAt for AssertThreadSafe<T> {
    open spec fn byte_at(&self, pos: int) -> u8 {
        self.0.src_byte_at(pos)
    }

    open spec fn read_count(&self, pos: int, n: nat) -> nat {
        self.0.src_read_count(pos, n)
    }

    open spec fn reads_total(&self) -> bool {
        self.0.src_total()
    }

    open spec fn read_retry_budget(&self) -> nat {
        self.0.src_retry_budget()
    }

    fn read_at(&mut self, pos: u64, buf: &mut Vec<u8>) -> (r: Result<usize, IoError>) {
        match self.0.seek_to(pos) {
            Ok(()) => {},
            Err(e) => {
                return Err(e);
            },
        }
        self.0.read_next(buf)
    }

    fn read_exact_at(&mut self, pos: u64, buf: &mut Vec<u8>) -> (r: Result<(), IoError>) {
        match seek_read_retrying(&mut self.0, pos) {
            Ok(()) => {},
            Err(e) => {
                return Err(e);
            },
        }
        let ghost mid = self.0;
        let r = self.0.read_exact_next(buf);
        proof {
            let f = |p: int, m: nat| old(self).read_count(p, m);
            let g = |p: int, m: nat| mid.src_read_count(p, m);
            assert forall|p: int, m: nat| #[trigger] f(p, m) == g(p, m) by {
                assert(old(self).read_count(p, m) == old(self).0.src_read_count(p, m));
            }
            lemma_steps_complete_agree(f, g, pos as int, old(buf)@.len());
        }
        r
    }
}

impl<T: SeekWrite> WriteAt for AssertThreadSafe<T> {
    open spec fn wcontent(&self) -> Seq<u8> {
        self.0.snk_content()
    }

    open spec fn write_count(&self, pos: int, n: nat) -> nat {
        self.0.snk_write_count(pos, n)
    }

    open spec fn stores(&self) -> bool {
        true
    }

    open spec fn writes_total(&self) -> bool {
        self.0.snk_total()
    }

    open spec fn write_retry_budget(&self) -> nat {
        self.0.snk_retry_budget()
    }

    fn write_at(&mut self, pos: u64, data: &Vec<u8>) -> (r: Result<usize, IoError>) {
        match self.0.seek_to(pos) {
            Ok(()) => {},
            Err(e) => {
                return Err(e);
            },
        }
        self.0.write_next(data)
    }

    fn flush(&mut self) -> (r: Result<(), IoError>) {
        self.0.flush_stream()
    }

    fn write_all_at(&mut self, pos: u64, data: &Vec<u8>) -> (r: Result<(), IoError>) {
        match seek_write_retrying(&mut self.0, pos) {
            Ok(()) => {},
            Err(e) => {
                proof {
                    assert(data@.take(0int) =~= Seq::<u8>::empty());
                    lemma_overlay_empty(old(self).wcontent(), pos as int);
                }
                return Err(e);
            },
        }
        let ghost mid = self.0;
        let r = self.0.write_all_next(data);
        proof {
            let f = |p: int, m: nat| old(self).write_count(p, m);
            let g = |p: int, m: nat| mid.snk_write_count(p, m);
            assert forall|p: int, m: nat| #[trigger] f(p, m) == g(p, m) by {
                assert(old(self).write_count(p, m) == old(self).0.snk_write_count(p, m));
            }
            lemma_steps_complete_agree(f, g, pos as int, data@.len());
            if r is Err {
                let w = choose|w: int|
                    0 <= w <= data@.len() && self.0.snk_content() == overlay(
                        mid.snk_content(),
                        mid.snk_pos(),
                        #[trigger] data@.take(w),
                    );
                assert(self.wcontent() == overlay(old(self).wcontent(), pos as int, data@.take(w)));
            }
        }
        r
    }
}

} // verus!
