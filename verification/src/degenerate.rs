//! Degenerate sources and sinks: an always-empty source, an
//! infinite-repeat source, and a discard-everything sink.

use vstd::prelude::*;

use crate::error::IoError;
use crate::read::ReadAt;
use crate::write::WriteAt;

verus! {

/// A source that is always at its end: every read reports zero bytes,
/// whatever the offset and the buffer.  Models "nothing there".
#[derive(Clone, Copy, Debug, PartialEq, Eq, Structural)]
pub struct Empty;

impl ReadAt for Empty {
    open spec fn byte_at(&self, pos: int) -> u8 {
        0
    }

    open spec fn read_count(&self, pos: int, n: nat) -> nat {
        0
    }

    open spec fn reads_total(&self) -> bool {
        true
    }

    open spec fn read_retry_budget(&self) -> nat {
        0
    }

    fn read_at(&mut self, pos: u64, buf: &mut Vec<u8>) -> (r: Result<usize, IoError>) {
        Ok(0)
    }
}

/// A source with an endless supply of a single byte: every read fills
/// the whole buffer with it, whatever the offset.  Models "infinite
/// supply", useful as a filler and in tests.
#[derive(Clone, Copy, Debug, PartialEq, Eq, Structural)]
pub struct Repeat {
    byte: u8,
}

impl Repeat {
    /// A source that repeats `byte` endlessly.
    pub fn new(byte: u8) -> (r: Repeat)
        ensures
            r.fill_byte() == byte,
    {
        Repeat { byte }
    }

    /// The byte the source repeats.
    pub closed spec fn fill_byte(&self) -> u8 {
        self.byte
    }
}

impl ReadAt for Repeat {
    open spec fn byte_at(&self, pos: int) -> u8 {
        self.fill_byte()
    }

    open spec fn read_count(&self, pos: int, n: nat) -> nat {
        n
    }

    open spec fn reads_total(&self) -> bool {
        true
    }

    open spec fn read_retry_budget(&self) -> nat {
        0
    }

    fn read_at(&mut self, pos: u64, buf: &mut Vec<u8>) -> (r: Result<usize, IoError>) {
        let n = buf.len();
        let mut j: usize = 0;
        while j < n
            invariant
                j <= n,
                buf@.len() == n,
                forall|k: int| 0 <= k < j ==> buf@[k] == self.byte_at(0),
            decreases n - j,
        {
            let b = self.byte;
            buf.set(j, b);
            j += 1;
        }
        Ok(n)
    }
}

/// A sink that reports every byte as written and stores nothing.
/// Models "nowhere, but no error", useful for measuring output size
/// and in tests.
#[derive(Clone, Copy, Debug, PartialEq, Eq, Structural)]
pub struct Sink;

impl WriteAt for Sink {
    open spec fn wcontent(&self) -> Seq<u8> {
        Seq::empty()
    }

    open spec fn write_count(&self, pos: int, n: nat) -> nat {
        n
    }

    open spec fn stores(&self) -> bool {
        false
    }

    open spec fn writes_total(&self) -> bool {
        true
    }

    open spec fn write_retry_budget(&self) -> nat {
        0
    }

    fn write_at(&mut self, pos: u64, data: &Vec<u8>) -> (r: Result<usize, IoError>) {
        Ok(data.len())
    }

    fn flush(&mut self) -> (r: Result<(), IoError>) {
        Ok(())
    }
}

} // verus!
