//! In-memory buffer adapters: the growable `Vec<u8>` and the
//! fixed-capacity [`FixedBuf`].

use vstd::prelude::*;

use crate::bytes::byte_in;
use crate::bytes::capped_count;
use crate::bytes::lemma_overlay_empty;
use crate::bytes::overlay;
use crate::error::IoError;
use crate::read::ReadAt;
use crate::write::WriteAt;

verus! {

/// Copies into the front of `buf` as many bytes of `src` as are
/// available from offset `pos` on, up to `buf`'s length, and returns
/// the count.  An offset at or past the end yields zero.
pub(crate) fn copy_out(src: &Vec<u8>, pos: u64, buf: &mut Vec<u8>) -> (c: usize)
    ensures
        final(buf)@.len() == old(buf)@.len(),
        c == capped_count(src@.len() as int, pos as int, old(buf)@.len()),
        forall|j: int| 0 <= j < c ==> final(buf)@[j] == src@[pos + j],
        forall|j: int| c <= j < old(buf)@.len() ==> final(buf)@[j] == old(buf)@[j],
{
    if pos >= src.len() as u64 {
        return 0;
    }
    let i = pos as usize;
    let avail = src.len() - i;
    let c = if buf.len() < avail {
        buf.len()
    } else {
        avail
    };
    let mut j: usize = 0;
    while j < c
        invariant
            j <= c,
            i == pos as int,
            i + c <= usize::MAX,
            i + c <= src@.len(),
            c <= buf@.len(),
            buf@.len() == old(buf)@.len(),
            forall|k: int| 0 <= k < j ==> buf@[k] == src@[i + k],
            forall|k: int| j <= k < buf@.len() ==> buf@[k] == old(buf)@[k],
        decreases c - j,
    {
        let b = src[i + j];
        buf.set(j, b);
        j += 1;
    }
    c
}

/// Lays the front of `data` over `dst` at offset `pos`, truncating
/// the copy to the room left before `dst`'s end, and returns the
/// count.  Never resizes `dst`; an offset at or past the end accepts
/// nothing.
pub(crate) fn write_in_place(dst: &mut Vec<u8>, pos: u64, data: &Vec<u8>) -> (c: usize)
    ensures
        final(dst)@.len() == old(dst)@.len(),
        c == capped_count(old(dst)@.len() as int, pos as int, data@.len()),
        final(dst)@ == overlay(old(dst)@, pos as int, data@.take(c as int)),
{
    if pos >= dst.len() as u64 {
        proof {
            assert(data@.take(0) =~= Seq::<u8>::empty());
            lemma_overlay_empty(dst@, pos as int);
        }
        return 0;
    }
    let i = pos as usize;
    let avail = dst.len() - i;
    let c = if data.len() < avail {
        data.len()
    } else {
        avail
    };
    let mut j: usize = 0;
    while j < c
        invariant
            j <= c,
            i == pos as int,
            i + c <= usize::MAX,
            i + c <= dst@.len(),
            c <= data@.len(),
            dst@.len() == old(dst)@.len(),
            forall|k: int| i <= k < i + j ==> dst@[k] == data@[k - i],
            forall|k: int|
                0 <= k < dst@.len() && !(i <= k < i + j) ==> dst@[k] == old(dst)@[k],
        decreases c - j,
    {
        let b = data[j];
        dst.set(i + j, b);
        j += 1;
    }
    proof {
        assert(dst@ =~= overlay(old(dst)@, pos as int, data@.take(c as int)));
    }
    c
}

/// Lays the front of `data` over `dst` at offset `pos`, growing `dst`
/// as needed and filling with zeroes any gap between its old end and
/// `pos`; returns the count.  Only an offset past what a length can
/// represent makes it accept nothing.
pub(crate) fn write_growing(dst: &mut Vec<u8>, pos: u64, data: &Vec<u8>) -> (c: usize)
    ensures
        c == capped_count(usize::MAX as int, pos as int, data@.len()),
        final(dst)@ == overlay(old(dst)@, pos as int, data@.take(c as int)),
{
    if data.len() == 0 || pos >= usize::MAX as u64 {
        proof {
            assert(data@.take(0) =~= Seq::<u8>::empty());
            lemma_overlay_empty(dst@, pos as int);
        }
        return 0;
    }
    let i = pos as usize;
    let room = usize::MAX - i;
    let c = if data.len() < room {
        data.len()
    } else {
        room
    };
    let ghost base = old(dst)@;
    while dst.len() < i
        invariant
            i == pos as int,
            base.len() <= dst@.len(),
            dst@.len() <= if base.len() >= i as int {
                base.len() as int
            } else {
                i as int
            },
            forall|k: int| 0 <= k < base.len() ==> dst@[k] == base[k],
            forall|k: int| base.len() <= k < dst@.len() ==> dst@[k] == 0u8,
        decreases i - dst@.len(),
    {
        dst.push(0u8);
    }
    let ghost mid = dst@;
    let mut j: usize = 0;
    while j < c
        invariant
            j <= c,
            0 < c <= data@.len(),
            i == pos as int,
            i + c <= usize::MAX,
            mid.len() == if base.len() >= i as int {
                base.len() as int
            } else {
                i as int
            },
            forall|k: int| 0 <= k < base.len() ==> mid[k] == base[k],
            forall|k: int| base.len() <= k < mid.len() ==> mid[k] == 0u8,
            dst@.len() == if i + j > mid.len() {
                i + j
            } else {
                mid.len() as int
            },
            forall|k: int| i <= k < i + j ==> dst@[k] == data@[k - i],
            forall|k: int| 0 <= k < mid.len() && !(i <= k < i + j) ==> dst@[k] == mid[k],
        decreases c - j,
    {
        let b = data[j];
        if i + j < dst.len() {
            dst.set(i + j, b);
        } else {
            dst.push(b);
        }
        j += 1;
    }
    proof {
        let t = data@.take(c as int);
        let o = overlay(base, pos as int, t);
        assert(t.len() == c);
        assert(dst@.len() == o.len());
        assert forall|k: int| 0 <= k < o.len() implies dst@[k] == o[k] by {
            if i <= k < i + c {
                assert(dst@[k] == data@[k - i]);
                assert(t[k - i] == data@[k - i]);
            } else {
                assert(dst@[k] == mid[k]);
            }
        }
        assert(dst@ =~= o);
    }
    c
}

/// The growable buffer adapter.  Reads serve the buffer's current
/// contents; writes overwrite in place and are the one adapter
/// permitted to grow the resource, extending it whenever the write
/// reaches past the current end.  Only an offset past what a length
/// can represent makes a write accept nothing.
impl ReadAt for Vec<u8> {
    open spec fn byte_at(&self, pos: int) -> u8 {
        byte_in(self@, pos)
    }

    open spec fn read_count(&self, pos: int, n: nat) -> nat {
        capped_count(self@.len() as int, pos, n)
    }

    open spec fn reads_total(&self) -> bool {
        true
    }

    open spec fn read_retry_budget(&self) -> nat {
        0
    }

    fn read_at(&mut self, pos: u64, buf: &mut Vec<u8>) -> (r: Result<usize, IoError>) {
        let c = copy_out(self, pos, buf);
        Ok(c)
    }
}

impl WriteAt for Vec<u8> {
    open spec fn wcontent(&self) -> Seq<u8> {
        self@
    }

    open spec fn write_count(&self, pos: int, n: nat) -> nat {
        capped_count(usize::MAX as int, pos, n)
    }

    open spec fn stores(&self) -> bool {
        true
    }

    open spec fn writes_total(&self) -> bool {
        true
    }

    open spec fn write_retry_budget(&self) -> nat {
        0
    }

    fn write_at(&mut self, pos: u64, data: &Vec<u8>) -> (r: Result<usize, IoError>) {
        let c = write_growing(self, pos, data);
        Ok(c)
    }

    fn flush(&mut self) -> (r: Result<(), IoError>) {
        Ok(())
    }
}

/// An owned byte buffer whose length never changes: the
/// fixed-capacity adapter.  Reads serve its contents; writes
/// overwrite in place and truncate at its end rather than grow it.
#[derive(Clone, Debug)]
pub struct FixedBuf {
    bytes: Vec<u8>,
}

impl View for FixedBuf {
    type V = Seq<u8>;

    closed spec fn view(&self) -> Seq<u8> {
        self.bytes@
    }
}

impl FixedBuf {
    /// Wraps `bytes` as a buffer of exactly that length.
    pub fn new(bytes: Vec<u8>) -> (r: FixedBuf)
        ensures
            r@ == bytes@,
    {
        FixedBuf { bytes }
    }

    /// The buffer's length in bytes.
    pub fn len(&self) -> (n: usize)
        ensures
            n == self@.len(),
    {
        self.bytes.len()
    }

    /// The byte at index `i`.
    pub fn byte(&self, i: usize) -> (b: u8)
        requires
            i < self@.len(),
        ensures
            b == self@[i as int],
    {
        self.bytes[i]
    }

    /// Releases the underlying bytes.
    pub fn into_vec(self) -> (r: Vec<u8>)
        ensures
            r@ == self@,
    {
        self.bytes
    }
}

impl ReadAt for FixedBuf {
    open spec fn byte_at(&self, pos: int) -> u8 {
        byte_in(self@, pos)
    }

    open spec fn read_count(&self, pos: int, n: nat) -> nat {
        capped_count(self@.len() as int, pos, n)
    }

    open spec fn reads_total(&self) -> bool {
        true
    }

    open spec fn read_retry_budget(&self) -> nat {
        0
    }

    fn read_at(&mut self, pos: u64, buf: &mut Vec<u8>) -> (r: Result<usize, IoError>) {
        let c = copy_out(&self.bytes, pos, buf);
        Ok(c)
    }
}

impl WriteAt for FixedBuf {
    open spec fn wcontent(&self) -> Seq<u8> {
        self@
    }

    open spec fn write_count(&self, pos: int, n: nat) -> nat {
        capped_count(self@.len() as int, pos, n)
    }

    open spec fn stores(&self) -> bool {
        true
    }

    open spec fn writes_total(&self) -> bool {
        true
    }

    open spec fn write_retry_budget(&self) -> nat {
        0
    }

    fn write_at(&mut self, pos: u64, data: &Vec<u8>) -> (r: Result<usize, IoError>) {
        let c = write_in_place(&mut self.bytes, pos, data);
        Ok(c)
    }

    fn flush(&mut self) -> (r: Result<(), IoError>) {
        Ok(())
    }
}

} // verus!
