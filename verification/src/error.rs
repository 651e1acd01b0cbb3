//! Error types shared by the read-only and the write-only filesystem.

use vstd::prelude::*;
use crate::bytes::copy_bytes;

verus! {

/// The rough category of an I/O failure, mirroring the error kinds the
/// filesystem distinguishes when reporting storage problems.
#[derive(Clone, Copy, PartialEq, Eq, Structural, Debug)]
pub enum IoKind {
    /// An argument (an offset, a seek target) was out of range.
    InvalidInput,
    /// Fewer bytes were available than a strict read demanded.
    UnexpectedEof,
    /// Stored data contradicts itself.
    InvalidData,
    /// Any other storage failure.
    OtherIo,
}

/// An archive-level error: opening, parsing or writing the container failed,
/// or an entry uses a shape this filesystem refuses.
#[derive(Debug)]
pub enum Error {
    /// An underlying storage read or write failed.
    Io { kind: IoKind, message: String },
    /// The archive bytes are not a well-formed container.
    InvalidArchive { message: String },
    /// The archive is well formed but uses something unsupported,
    /// such as a path shape this filesystem rejects.
    Unsupported { message: &'static str },
    /// The named entry is not in the archive.
    FileNotFound,
    /// Any other failure of the archive library.
    Other { message: String },
}

/// A filesystem-operation error, the categories the path-addressable
/// interface reports to its callers.
#[derive(Debug)]
pub enum VfsError {
    /// The path names nothing in the filesystem.
    FileNotFound { path: Vec<u8> },
    /// The caller-supplied path is malformed.
    InvalidPath { path: Vec<u8> },
    /// The operation is not available on this filesystem.
    NotSupported,
    /// An underlying archive or storage failure.
    IoError(Error),
    /// Any other failure.
    Other { message: String },
}

/// The ghost image of an archive-level error, with messages as character
/// sequences.
pub enum ErrorView {
    Io { kind: IoKind, message: Seq<char> },
    InvalidArchive { message: Seq<char> },
    Unsupported { message: Seq<char> },
    FileNotFound,
    Other { message: Seq<char> },
}

impl View for Error {
    type V = ErrorView;

    open spec fn view(&self) -> ErrorView {
        match *self {
            Error::Io { kind, message } => ErrorView::Io { kind, message: message@ },
            Error::InvalidArchive { message } => ErrorView::InvalidArchive { message: message@ },
            Error::Unsupported { message } => ErrorView::Unsupported { message: message@ },
            Error::FileNotFound => ErrorView::FileNotFound,
            Error::Other { message } => ErrorView::Other { message: message@ },
        }
    }
}

impl Error {
    /// Return an error carrying the same category and message.
    pub fn duplicate(&self) -> (r: Error)
        ensures
            r@ == self@,
    {
        match self {
            Error::Io { kind, message } => Error::Io { kind: *kind, message: message.clone() },
            Error::InvalidArchive { message } => Error::InvalidArchive {
                message: message.clone(),
            },
            Error::Unsupported { message } => Error::Unsupported { message: *message },
            Error::FileNotFound => Error::FileNotFound,
            Error::Other { message } => Error::Other { message: message.clone() },
        }
    }

    /// Build the error used for unsupported archive shapes.
    pub fn unsupported(s: &'static str) -> (r: Error)
        ensures
            r == (Error::Unsupported { message: s }),
    {
        Error::Unsupported { message: s }
    }
}

/// How an archive-level error surfaces through the filesystem interface:
/// a missing entry keeps the queried path, archive and storage failures
/// stay I/O errors, and anything else is passed on as an opaque message.
pub open spec fn zip2vfs_post(path: Seq<u8>, e: Error, r: VfsError) -> bool {
    match e {
        Error::FileNotFound => match r {
            VfsError::FileNotFound { path: p } => p@ == path,
            _ => false,
        },
        Error::Other { message } => r == (VfsError::Other { message }),
        _ => r == VfsError::IoError(e),
    }
}

/// Translate an archive-level error into a filesystem-operation error,
/// attaching the path the caller asked about where one is reported.
pub fn zip2vfs(path: &Vec<u8>, e: Error) -> (r: VfsError)
    ensures
        zip2vfs_post(path@, e, r),
{
    match e {
        Error::FileNotFound => VfsError::FileNotFound { path: copy_bytes(path) },
        Error::Other { message } => VfsError::Other { message },
        other => VfsError::IoError(other),
    }
}

} // verus!
