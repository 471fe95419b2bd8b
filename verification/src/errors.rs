//! The two error kinds the editor surfaces: a cancelled interactive
//! dialog, and a filesystem failure with its OS-level classification.

use vstd::prelude::*;

verus! {

/// Classification of a filesystem-level failure, as the operating system
/// reports it.
#[derive(Debug, Clone, Copy, PartialEq, Eq, Structural)]
pub enum IoErrorKind {
    NotFound,
    PermissionDenied,
    AlreadyExists,
    InvalidData,
    Other,
}

/// An error recorded on the document until the next content-changing
/// edit: either the user
/// closed a file-picker dialog, or an open/save failed in the filesystem.
#[derive(Debug, Clone, Copy, PartialEq, Eq, Structural)]
pub enum EditorError {
    DialogClosed,
    IoFailed(IoErrorKind),
}

/// The description `describe` returns for each failure kind.
pub open spec fn kind_text(k: IoErrorKind) -> Seq<char> {
    match k {
        IoErrorKind::NotFound => "file not found"@,
        IoErrorKind::PermissionDenied => "permission denied"@,
        IoErrorKind::AlreadyExists => "file already exists"@,
        IoErrorKind::InvalidData => "file is not valid text"@,
        IoErrorKind::Other => "input/output error"@,
    }
}

impl IoErrorKind {
    /// A short human-readable description of the failure.
    pub fn describe(&self) -> (r: &'static str)
        ensures
            r@ == kind_text(*self),
    {
        match self {
            IoErrorKind::NotFound => "file not found",
            IoErrorKind::PermissionDenied => "permission denied",
            IoErrorKind::AlreadyExists => "file already exists",
            IoErrorKind::InvalidData => "file is not valid text",
            IoErrorKind::Other => "input/output error",
        }
    }
}

} // verus!
