//! Client-side implementation of the SSH File Transfer Protocol, version 3.
//!
//! The crate is organised around a verified protocol engine:
//! a bit-exact wire codec, the typed message catalogue with its
//! flag-driven attribute encoding, the status and error model, and the
//! pure state machines behind the request multiplexer and the file and
//! directory cursors.

pub mod client;
pub mod message;
pub mod wire;

pub use client::Error;
pub use message::{
    Attrs, Close, Data, DecodeError, Extended, ExtendedReply, FSetStat, FStat, Handle, Init,
    LStat, Message, MkDir, Name, NameEntry, Open, OpenDir, Owner, Path, PFlags, Read, ReadDir,
    ReadLink, RealPath, Remove, Rename, RmDir, SetStat, Stat, Status, StatusCode, Symlink, Time,
    Version, Write,
};
pub use wire::WireFormatError;

use vstd::prelude::*;

verus! {

/// Protocol revision implemented by this crate.
pub const SFTP_VERSION: u32 = 3;

} // verus!
