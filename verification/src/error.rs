//! The error kinds that positional operations report.

use vstd::prelude::*;

verus! {

/// An error reported by a positional read or write.
///
/// `Interrupted` marks a transient failure: the step made no progress
/// and the retrying helpers repeat it without surfacing it.
/// `UnexpectedEof` is raised only by exact reads whose source ran out
/// of data before the buffer was filled.  `WriteZero` is raised only
/// by exact writes whose sink accepted zero bytes while data remained.
/// `Other` stands for any failure of the backing device, propagated
/// verbatim.
#[derive(Clone, Copy, Debug, PartialEq, Eq, Structural)]
pub enum IoError {
    /// The operation was interrupted before making progress; retrying it may succeed.
    Interrupted,
    /// The source reached its end before an exact read was satisfied.
    UnexpectedEof,
    /// The sink accepted no bytes while an exact write still had data left.
    WriteZero,
    /// Any other failure of the backing device, propagated verbatim.
    Other,
}

impl IoError {
    /// Whether retrying the failed step could make progress.
    pub fn is_transient(&self) -> (r: bool)
        ensures
            r == (*self is Interrupted),
    {
        match self {
            IoError::Interrupted => true,
            _ => false,
        }
    }
}

} // verus!
