//! The unified error kind of the client, and the mapping of protocol
//! status codes to portable I/O error categories.

use vstd::prelude::*;

use crate::message::status::{Status, StatusCode, StatusV};
use crate::wire::{WireFormatError, WireFormatErrorV};

verus! {

/// Portable I/O error category, used where an error must cross an
/// I/O-style boundary.
#[derive(Debug, Clone, Copy, PartialEq, Eq, Hash, Structural)]
pub enum IoErrorKind {
    NotFound,
    PermissionDenied,
    ConnectionReset,
    BrokenPipe,
    WouldBlock,
    InvalidData,
    TimedOut,
    WriteZero,
    Interrupted,
    UnexpectedEof,
    OutOfMemory,
    Unsupported,
    Other,
}

/// Error of a client operation.
#[derive(Debug, Clone, PartialEq, Eq)]
pub enum Error {
    /// The server returned a non-successful status; it is surfaced
    /// verbatim.
    Sftp(Status),
    /// The codec failed to encode or decode a message.
    WireFormat(WireFormatError),
    /// The underlying stream failed.
    Transport(IoErrorKind, String),
    /// A local I/O failure not otherwise categorized.
    Io(IoErrorKind, String),
}

/// Spec-level image of an [`Error`].
pub enum ErrorV {
    Sftp(StatusV),
    WireFormat(WireFormatErrorV),
    Transport(IoErrorKind, Seq<char>),
    Io(IoErrorKind, Seq<char>),
}

impl View for Error {
    type V = ErrorV;

    open spec fn view(&self) -> ErrorV {
        match self {
            Error::Sftp(s) => ErrorV::Sftp(s@),
            Error::WireFormat(e) => ErrorV::WireFormat(e@),
            Error::Transport(k, m) => ErrorV::Transport(*k, m@),
            Error::Io(k, m) => ErrorV::Io(*k, m@),
        }
    }
}

/// The portable category a status code maps to when it must cross an
/// I/O boundary.
pub open spec fn status_code_io_kind(c: StatusCode) -> IoErrorKind {
    match c {
        StatusCode::Okay => IoErrorKind::Other,
        StatusCode::Eof => IoErrorKind::UnexpectedEof,
        StatusCode::NoSuchFile => IoErrorKind::NotFound,
        StatusCode::PermissionDenied => IoErrorKind::PermissionDenied,
        StatusCode::Failure => IoErrorKind::Other,
        StatusCode::BadMessage => IoErrorKind::InvalidData,
        StatusCode::NoConnection => IoErrorKind::Other,
        StatusCode::ConnectionLost => IoErrorKind::Other,
        StatusCode::OpUnsupported => IoErrorKind::Unsupported,
    }
}

impl StatusCode {
    /// The portable category of this code; see [`status_code_io_kind`].
    pub fn io_kind(self) -> (r: IoErrorKind)
        ensures
            r == status_code_io_kind(self),
    {
        match self {
            StatusCode::Okay => IoErrorKind::Other,
            StatusCode::Eof => IoErrorKind::UnexpectedEof,
            StatusCode::NoSuchFile => IoErrorKind::NotFound,
            StatusCode::PermissionDenied => IoErrorKind::PermissionDenied,
            StatusCode::Failure => IoErrorKind::Other,
            StatusCode::BadMessage => IoErrorKind::InvalidData,
            StatusCode::NoConnection => IoErrorKind::Other,
            StatusCode::ConnectionLost => IoErrorKind::Other,
            StatusCode::OpUnsupported => IoErrorKind::Unsupported,
        }
    }
}

/// The portable category of an error.
pub open spec fn error_io_kind(e: ErrorV) -> IoErrorKind {
    match e {
        ErrorV::Sftp(s) => status_code_io_kind(s.code),
        ErrorV::WireFormat(_) => IoErrorKind::Other,
        ErrorV::Transport(k, _) => k,
        ErrorV::Io(k, _) => k,
    }
}

impl Error {
    /// The portable category of this error: a protocol status maps by
    /// its code, a codec failure is uncategorized, and transport and
    /// local failures keep their category.
    pub fn io_kind(&self) -> (r: IoErrorKind)
        ensures
            r == error_io_kind(self@),
    {
        match self {
            Error::Sftp(s) => s.code.io_kind(),
            Error::WireFormat(_) => IoErrorKind::Other,
            Error::Transport(k, _) => *k,
            Error::Io(k, _) => *k,
        }
    }

    /// The error a decode failure on an inbound frame turns into.
    pub fn from_decode_error(e: crate::message::frame::DecodeError) -> (r: Error)
        ensures
            r@ == ErrorV::WireFormat(e.inner@),
    {
        Error::WireFormat(e.inner)
    }

    /// The error a wire codec failure turns into.
    pub fn from_wire_error(e: WireFormatError) -> (r: Error)
        ensures
            r@ == ErrorV::WireFormat(e@),
    {
        Error::WireFormat(e)
    }

    /// True when the error is a server status with the end-of-file
    /// code, which some operations treat as clean termination rather
    /// than failure.
    pub fn is_eof_status(&self) -> (r: bool)
        ensures
            r == (self@ matches ErrorV::Sftp(s) && s.code is Eof),
    {
        match self {
            Error::Sftp(s) => matches!(s.code, StatusCode::Eof),
            _ => false,
        }
    }
}

} // verus!
