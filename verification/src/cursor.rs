//! Cursor-based streams: the capabilities a seekable resource offers
//! ("move the cursor, then read or write sequentially"), and an
//! in-memory cursor implementing them.
//!
//! These are the shapes a resource must have to be promoted into a
//! positional reader or writer by
//! [`AssertThreadSafe`](crate::AssertThreadSafe).

use vstd::prelude::*;

use crate::buffer::copy_out;
use crate::buffer::write_growing;
use crate::bytes::byte_in;
use crate::bytes::capped_count;
use crate::bytes::lemma_overlay_empty;
use crate::bytes::lemma_steps_complete_capped;
use crate::bytes::overlay;
use crate::bytes::steps_complete;
use crate::error::IoError;

verus! {

/// A resource that can move a read cursor to an absolute offset and
/// read sequentially from it.
///
/// `src_byte_at` and `src_read_count` describe the content the stream
/// serves, independently of the cursor; `src_pos` is the cursor
/// itself.  Implementors outside this crate (an open file, say) are
/// trusted to their contract by the wrapper that promotes them.
pub trait SeekRead: Sized {
    /// The byte the stream holds at offset `pos`, and zero where it
    /// holds none.
    spec fn src_byte_at(&self, pos: int) -> u8;

    /// The count a sequential read at offset `pos` with a buffer of
    /// `n` bytes reports.
    spec fn src_read_count(&self, pos: int, n: nat) -> nat;

    /// The cursor's current offset.
    spec fn src_pos(&self) -> int;

    /// Whether seeks and reads on this stream always succeed.
    spec fn src_total(&self) -> bool;

    /// A bound on how many more times in a row operations on this
    /// stream may report a transient interruption before making
    /// progress.  A specification device only; see
    /// [`ReadAt::read_retry_budget`](crate::ReadAt::read_retry_budget).
    spec fn src_retry_budget(&self) -> nat;

    /// Moves the cursor to the absolute offset `pos`.  Never changes
    /// what the stream holds.
    fn seek_to(&mut self, pos: u64) -> (r: Result<(), IoError>)
        ensures
            forall|p: int| #[trigger] final(self).src_byte_at(p) == old(self).src_byte_at(p),
            forall|p: int, m: nat| #[trigger]
                final(self).src_read_count(p, m) == old(self).src_read_count(p, m),
            final(self).src_total() == old(self).src_total(),
            final(self).src_retry_budget() <= old(self).src_retry_budget(),
            r == Err::<(), IoError>(IoError::Interrupted) ==> final(self).src_retry_budget()
                < old(self).src_retry_budget(),
            old(self).src_total() ==> r is Ok,
            r is Ok ==> final(self).src_pos() == pos,
    ;

    /// Reads some bytes at the cursor into the front of `buf` and
    /// advances the cursor past them.
    fn read_next(&mut self, buf: &mut Vec<u8>) -> (r: Result<usize, IoError>)
        ensures
            final(buf)@.len() == old(buf)@.len(),
            forall|p: int| #[trigger] final(self).src_byte_at(p) == old(self).src_byte_at(p),
            forall|p: int, m: nat| #[trigger]
                final(self).src_read_count(p, m) == old(self).src_read_count(p, m),
            final(self).src_total() == old(self).src_total(),
            final(self).src_retry_budget() <= old(self).src_retry_budget(),
            r == Err::<usize, IoError>(IoError::Interrupted) ==> final(self).src_retry_budget()
                < old(self).src_retry_budget(),
            old(self).src_total() ==> r is Ok,
            r matches Ok(c) ==> {
                &&& c == old(self).src_read_count(old(self).src_pos(), old(buf)@.len())
                &&& c <= old(buf)@.len()
                &&& forall|j: int|
                    0 <= j < c ==> final(buf)@[j] == old(self).src_byte_at(
                        old(self).src_pos() + j,
                    )
                &&& forall|j: int|
                    c <= j < old(buf)@.len() ==> final(buf)@[j] == old(buf)@[j]
                &&& final(self).src_pos() == old(self).src_pos() + c
            },
    ;

    /// Fills all of `buf` from the cursor on, advancing the cursor,
    /// retrying transient interruptions internally; fails with
    /// [`IoError::UnexpectedEof`] if the stream ends first.
    fn read_exact_next(&mut self, buf: &mut Vec<u8>) -> (r: Result<(), IoError>)
        ensures
            final(buf)@.len() == old(buf)@.len(),
            forall|p: int| #[trigger] final(self).src_byte_at(p) == old(self).src_byte_at(p),
            forall|p: int, m: nat| #[trigger]
                final(self).src_read_count(p, m) == old(self).src_read_count(p, m),
            final(self).src_total() == old(self).src_total(),
            final(self).src_retry_budget() <= old(self).src_retry_budget(),
            r != Err::<(), IoError>(IoError::Interrupted),
            r is Ok ==> forall|j: int|
                0 <= j < old(buf)@.len() ==> final(buf)@[j] == old(self).src_byte_at(
                    old(self).src_pos() + j,
                ),
            old(self).src_total() ==> (r is Ok <==> steps_complete(
                (|p: int, m: nat| old(self).src_read_count(p, m)),
                old(self).src_pos(),
                old(buf)@.len(),
            )),
            old(self).src_total() && !steps_complete(
                (|p: int, m: nat| old(self).src_read_count(p, m)),
                old(self).src_pos(),
                old(buf)@.len(),
            ) ==> r == Err::<(), IoError>(IoError::UnexpectedEof),
    ;
}

/// A resource that can move a write cursor to an absolute offset and
/// write sequentially from it.
///
/// `snk_content` is what the stream has stored, independently of the
/// cursor; `snk_pos` is the cursor itself.
pub trait SeekWrite: Sized {
    /// The bytes the stream has stored.
    spec fn snk_content(&self) -> Seq<u8>;

    /// The count a sequential write at offset `pos` of `n` bytes
    /// reports.
    spec fn snk_write_count(&self, pos: int, n: nat) -> nat;

    /// The cursor's current offset.
    spec fn snk_pos(&self) -> int;

    /// Whether seeks, writes and flushes on this stream always
    /// succeed.
    spec fn snk_total(&self) -> bool;

    /// A bound on how many more times in a row operations on this
    /// stream may report a transient interruption before making
    /// progress.  A specification device only; see
    /// [`WriteAt::write_retry_budget`](crate::WriteAt::write_retry_budget).
    spec fn snk_retry_budget(&self) -> nat;

    /// Moves the cursor to the absolute offset `pos`.  Never changes
    /// what the stream has stored.
    fn seek_to(&mut self, pos: u64) -> (r: Result<(), IoError>)
        ensures
            final(self).snk_content() == old(self).snk_content(),
            forall|p: int, m: nat| #[trigger]
                final(self).snk_write_count(p, m) == old(self).snk_write_count(p, m),
            final(self).snk_total() == old(self).snk_total(),
            final(self).snk_retry_budget() <= old(self).snk_retry_budget(),
            r == Err::<(), IoError>(IoError::Interrupted) ==> final(self).snk_retry_budget()
                < old(self).snk_retry_budget(),
            old(self).snk_total() ==> r is Ok,
            r is Ok ==> final(self).snk_pos() == pos,
    ;

    /// Writes some bytes from the front of `data` at the cursor and
    /// advances the cursor past them.
    fn write_next(&mut self, data: &Vec<u8>) -> (r: Result<usize, IoError>)
        ensures
            forall|p: int, m: nat| #[trigger]
                final(self).snk_write_count(p, m) == old(self).snk_write_count(p, m),
            final(self).snk_total() == old(self).snk_total(),
            final(self).snk_retry_budget() <= old(self).snk_retry_budget(),
            r == Err::<usize, IoError>(IoError::Interrupted) ==> final(self).snk_retry_budget()
                < old(self).snk_retry_budget(),
            old(self).snk_total() ==> r is Ok,
            r matches Ok(c) ==> {
                &&& c <= data@.len()
                &&& c == old(self).snk_write_count(old(self).snk_pos(), data@.len())
                &&& final(self).snk_content() == overlay(
                    old(self).snk_content(),
                    old(self).snk_pos(),
                    data@.take(c as int),
                )
                &&& final(self).snk_pos() == old(self).snk_pos() + c
            },
            r is Err ==> final(self).snk_content() == old(self).snk_content(),
    ;

    /// Writes all of `data` from the cursor on, advancing the cursor,
    /// retrying transient interruptions internally; fails with
    /// [`IoError::WriteZero`] if the stream stops accepting bytes
    /// first.
    fn write_all_next(&mut self, data: &Vec<u8>) -> (r: Result<(), IoError>)
        ensures
            forall|p: int, m: nat| #[trigger]
                final(self).snk_write_count(p, m) == old(self).snk_write_count(p, m),
            final(self).snk_total() == old(self).snk_total(),
            final(self).snk_retry_budget() <= old(self).snk_retry_budget(),
            r != Err::<(), IoError>(IoError::Interrupted),
            r is Ok ==> final(self).snk_content() == overlay(
                old(self).snk_content(),
                old(self).snk_pos(),
                data@,
            ),
            r is Err ==> exists|w: int|
                0 <= w <= data@.len() && final(self).snk_content() == overlay(
                    old(self).snk_content(),
                    old(self).snk_pos(),
                    #[trigger] data@.take(w),
                ),
            old(self).snk_total() ==> (r is Ok <==> steps_complete(
                (|p: int, m: nat| old(self).snk_write_count(p, m)),
                old(self).snk_pos(),
                data@.len(),
            )),
            old(self).snk_total() && !steps_complete(
                (|p: int, m: nat| old(self).snk_write_count(p, m)),
                old(self).snk_pos(),
                data@.len(),
            ) ==> r == Err::<(), IoError>(IoError::WriteZero),
    ;

    /// Forces any buffered writes through to the backing resource.
    /// Never changes what is stored or where the cursor stands.
    fn flush_stream(&mut self) -> (r: Result<(), IoError>)
        ensures
            final(self).snk_content() == old(self).snk_content(),
            final(self).snk_pos() == old(self).snk_pos(),
            forall|p: int, m: nat| #[trigger]
                final(self).snk_write_count(p, m) == old(self).snk_write_count(p, m),
            final(self).snk_total() == old(self).snk_total(),
            final(self).snk_retry_budget() <= old(self).snk_retry_budget(),
            old(self).snk_total() ==> r is Ok,
    ;
}

/// What an in-memory cursor looks like to specifications: the bytes
/// it holds and where its cursor stands.
pub struct CursorModel {
    /// The bytes the cursor's buffer holds.
    pub bytes: Seq<u8>,
    /// The cursor's current offset.
    pub at: int,
}

/// A growable in-memory buffer with a seekable cursor: reads serve
/// its contents from the cursor on, writes overwrite and extend them
/// there, exactly as a cursor over an owned byte buffer behaves.
///
/// It is the crate's own seekable stream: wrapping it in
/// [`AssertThreadSafe`](crate::AssertThreadSafe) gives a positional
/// reader and writer whose seek-then-operate composition is checked
/// here rather than assumed.
#[derive(Clone, Debug)]
pub struct MemCursor {
    data: Vec<u8>,
    pos: u64,
}

impl View for MemCursor {
    type V = CursorModel;

    closed spec fn view(&self) -> CursorModel {
        CursorModel { bytes: self.data@, at: self.pos as int }
    }
}

impl MemCursor {
    /// A cursor over `data`, standing at offset zero.
    pub fn new(data: Vec<u8>) -> (r: MemCursor)
        ensures
            r@.bytes == data@,
            r@.at == 0,
    {
        MemCursor { data, pos: 0 }
    }

    /// The cursor's current offset.
    pub fn position(&self) -> (p: u64)
        ensures
            p == self@.at,
    {
        self.pos
    }

    /// Releases the underlying bytes.
    pub fn into_inner(self) -> (r: Vec<u8>)
        ensures
            r@ == self@.bytes,
    {
        self.data
    }
}

impl SeekRead for MemCursor {
    open spec fn src_byte_at(&self, pos: int) -> u8 {
        byte_in(self@.bytes, pos)
    }

    open spec fn src_read_count(&self, pos: int, n: nat) -> nat {
        capped_count(self@.bytes.len() as int, pos, n)
    }

    open spec fn src_pos(&self) -> int {
        self@.at
    }

    open spec fn src_total(&self) -> bool {
        true
    }

    open spec fn src_retry_budget(&self) -> nat {
        0
    }

    fn seek_to(&mut self, pos: u64) -> (r: Result<(), IoError>) {
        self.pos = pos;
        Ok(())
    }

    fn read_next(&mut self, buf: &mut Vec<u8>) -> (r: Result<usize, IoError>) {
        let c = copy_out(&self.data, self.pos, buf);
        if c > 0 {
            let end = self.data.len();
            proof {
                assert(self.pos + c <= end);
            }
            self.pos = self.pos + c as u64;
        }
        Ok(c)
    }

    fn read_exact_next(&mut self, buf: &mut Vec<u8>) -> (r: Result<(), IoError>) {
        let n = buf.len();
        proof {
            lemma_steps_complete_capped(
                (|p: int, m: nat| old(self).src_read_count(p, m)),
                old(self)@.bytes.len() as int,
                old(self)@.at,
                n as nat,
            );
        }
        if n == 0 {
            return Ok(());
        }
        if self.pos >= self.data.len() as u64 {
            return Err(IoError::UnexpectedEof);
        }
        let avail = self.data.len() - (self.pos as usize);
        if n > avail {
            return Err(IoError::UnexpectedEof);
        }
        let _filled = copy_out(&self.data, self.pos, buf);
        self.pos = self.pos + n as u64;
        Ok(())
    }
}

impl SeekWrite for MemCursor {
    open spec fn snk_content(&self) -> Seq<u8> {
        self@.bytes
    }

    open spec fn snk_write_count(&self, pos: int, n: nat) -> nat {
        capped_count(usize::MAX as int, pos, n)
    }

    open spec fn snk_pos(&self) -> int {
        self@.at
    }

    open spec fn snk_total(&self) -> bool {
        true
    }

    open spec fn snk_retry_budget(&self) -> nat {
        0
    }

    fn seek_to(&mut self, pos: u64) -> (r: Result<(), IoError>) {
        self.pos = pos;
        Ok(())
    }

    fn write_next(&mut self, data: &Vec<u8>) -> (r: Result<usize, IoError>) {
        let c = write_growing(&mut self.data, self.pos, data);
        if c > 0 {
            self.pos = self.pos + c as u64;
        }
        Ok(c)
    }

    fn write_all_next(&mut self, data: &Vec<u8>) -> (r: Result<(), IoError>) {
        let n = data.len();
        proof {
            lemma_steps_complete_capped(
                (|p: int, m: nat| old(self).snk_write_count(p, m)),
                usize::MAX as int,
                old(self)@.at,
                n as nat,
            );
        }
        if n == 0 {
            proof {
                lemma_overlay_empty(self@.bytes, self.pos as int);
            }
            return Ok(());
        }
        if self.pos >= usize::MAX as u64 {
            proof {
                assert(data@.take(0int) =~= Seq::<u8>::empty());
                lemma_overlay_empty(old(self).snk_content(), old(self).snk_pos());
            }
            return Err(IoError::WriteZero);
        }
        let i = self.pos as usize;
        if n > usize::MAX - i {
            proof {
                assert(data@.take(0int) =~= Seq::<u8>::empty());
                lemma_overlay_empty(old(self).snk_content(), old(self).snk_pos());
            }
            return Err(IoError::WriteZero);
        }
        let _accepted = write_growing(&mut self.data, self.pos, data);
        proof {
            assert(data@.take(n as int) =~= data@);
        }
        self.pos = self.pos + n as u64;
        Ok(())
    }

    fn flush_stream(&mut self) -> (r: Result<(), IoError>) {
        Ok(())
    }
}

} // verus!
