//! Positional (offset-addressed) byte I/O.
//!
//! The crate defines two capability traits: [`ReadAt`] for reading a
//! buffer of bytes at an explicit offset, and [`WriteAt`] for writing
//! one, neither of which keeps an implicit cursor.  A fixed set of
//! adapters implements them: the growable `Vec<u8>` and the
//! fixed-capacity [`FixedBuf`] in-memory buffers, and the degenerate
//! [`Empty`], [`Repeat`] and [`Sink`].  A resource that only offers
//! "seek, then read or write sequentially" — shaped by the
//! [`SeekRead`] and [`SeekWrite`] traits, with [`MemCursor`] as the
//! in-memory implementor — is promoted into a positional reader or
//! writer by wrapping it in [`AssertThreadSafe`], under the caller's
//! promise that no concurrent seek races with it.
//!
//! Every adapter's behaviour is pinned by its contract, and the laws
//! the adapters obey — reads are reproducible, round trips return
//! what was written, sequential calls at different offsets do not
//! interfere — are proved once in [`laws`].

pub mod buffer;
pub mod bytes;
pub mod cursor;
pub mod degenerate;
pub mod error;
pub mod laws;
pub mod read;
pub mod wrapper;
pub mod write;

pub use buffer::FixedBuf;
pub use cursor::MemCursor;
pub use cursor::SeekRead;
pub use cursor::SeekWrite;
pub use degenerate::Empty;
pub use degenerate::Repeat;
pub use degenerate::Sink;
pub use error::IoError;
pub use read::ReadAt;
pub use wrapper::AssertThreadSafe;
pub use write::WriteAt;
