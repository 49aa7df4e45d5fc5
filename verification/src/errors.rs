//! The error kinds a single move can end in.

use vstd::prelude::*;

verus! {

/// What went wrong with one source/destination pair.
#[derive(Clone, Copy, Debug, PartialEq, Eq, Structural)]
pub enum MvError {
    /// The resolved source or the destination contains a NUL byte and so
    /// cannot be addressed as a platform path string.
    InvalidPath,
    /// The atomic rename failed and copy fallback was disabled.
    RenameFailed,
    /// The fallback whole-file copy failed.
    CopyFailed,
}

/// The description each error kind reports.
pub open spec fn message_spec(e: MvError) -> Seq<char> {
    match e {
        MvError::InvalidPath => "path contains a NUL byte"@,
        MvError::RenameFailed => "rename failed and copying is disabled"@,
        MvError::CopyFailed => "copy failed"@,
    }
}

impl MvError {
    /// A short human-readable description, for reporting.
    pub fn message(&self) -> (r: &'static str)
        ensures
            r@ == message_spec(*self),
    {
        match self {
            MvError::InvalidPath => "path contains a NUL byte",
            MvError::RenameFailed => "rename failed and copying is disabled",
            MvError::CopyFailed => "copy failed",
        }
    }
}

} // verus!
