//! The framed message codec: every message on the wire is
//! `len:u32 || type:u8 || payload`, where `len` covers the type byte
//! and the payload and excludes itself.
//!
//! For every message but the two handshake messages the payload starts
//! with the 32-bit request id.  The handshake messages carry the
//! protocol version in that position instead, so the id returned for
//! them is the version.

use vstd::prelude::*;

use crate::message::attrs::{dec_attrs, enc_attrs, Attrs};
use crate::message::name::{dec_name, enc_name, name_wf, Name, NameEntryV};
use crate::message::path::{dec_path, enc_path, path_wf};
use crate::message::requests::{
    bytes_wf, dec_extended, dec_extended_reply, dec_handle_attrs, dec_open, dec_path_attrs,
    dec_read, dec_two_paths, dec_write, enc_extended, enc_extended_reply, enc_handle_attrs,
    enc_open, enc_path_attrs, enc_read, enc_two_paths, enc_write, Close, Data, Extended,
    ExtendedReply, FSetStat, FStat, Handle, LStat, MkDir, Open, OpenDir, Read, ReadDir, ReadLink,
    RealPath, Remove, Rename, RmDir, SetStat, Stat, Symlink, Write,
};
use crate::message::status::{dec_status, enc_status, status_wf, Status, StatusV};
use crate::message::version::{
    dec_extensions, enc_extensions, enc_version_body, extensions_view, extensions_wf,
    ExtensionsV, Init, Version,
};
use crate::wire::{
    dec_bytes, dec_u32, dec_u8, enc_bytes, enc_u32, enc_u8, get_u32, get_u8, put_u32, put_u8,
    WireFormatError, WireFormatErrorV, MAX_BYTES_LEN,
};

verus! {

/// Message number of the client's greeting.
pub const MSG_INIT: u8 = 1;

/// Message number of the server's version answer.
pub const MSG_VERSION: u8 = 2;

/// Message number of an open request.
pub const MSG_OPEN: u8 = 3;

/// Message number of a close request.
pub const MSG_CLOSE: u8 = 4;

/// Message number of a read request.
pub const MSG_READ: u8 = 5;

/// Message number of a write request.
pub const MSG_WRITE: u8 = 6;

/// Message number of a follow-links stat request.
pub const MSG_LSTAT: u8 = 7;

/// Message number of a stat-by-handle request.
pub const MSG_FSTAT: u8 = 8;

/// Message number of a set-attributes-by-path request.
pub const MSG_SETSTAT: u8 = 9;

/// Message number of a set-attributes-by-handle request.
pub const MSG_FSETSTAT: u8 = 10;

/// Message number of a directory open request.
pub const MSG_OPENDIR: u8 = 11;

/// Message number of a directory listing request.
pub const MSG_READDIR: u8 = 12;

/// Message number of a file removal request.
pub const MSG_REMOVE: u8 = 13;

/// Message number of a directory creation request.
pub const MSG_MKDIR: u8 = 14;

/// Message number of a directory removal request.
pub const MSG_RMDIR: u8 = 15;

/// Message number of a path canonicalization request.
pub const MSG_REALPATH: u8 = 16;

/// Message number of a no-follow stat request.
pub const MSG_STAT: u8 = 17;

/// Message number of a rename request.
pub const MSG_RENAME: u8 = 18;

/// Message number of a link-reading request.
pub const MSG_READLINK: u8 = 19;

/// Message number of a link-creating request.
pub const MSG_SYMLINK: u8 = 20;

/// Message number of a status reply.
pub const MSG_STATUS: u8 = 101;

/// Message number of a handle reply.
pub const MSG_HANDLE: u8 = 102;

/// Message number of a data reply.
pub const MSG_DATA: u8 = 103;

/// Message number of a listing reply.
pub const MSG_NAME: u8 = 104;

/// Message number of an attributes reply.
pub const MSG_ATTRS: u8 = 105;

/// Message number of a vendor-specific request.
pub const MSG_EXTENDED: u8 = 200;

/// Message number of a vendor-specific reply.
pub const MSG_EXTENDED_REPLY: u8 = 201;

/// A message of the catalogue: every request the client can send and
/// every reply the server can return.
#[derive(Debug, Clone, PartialEq, Eq, Hash)]
pub enum Message {
    Init(Init),
    Version(Version),
    Open(Open),
    Close(Close),
    Read(Read),
    Write(Write),
    LStat(LStat),
    FStat(FStat),
    SetStat(SetStat),
    FSetStat(FSetStat),
    OpenDir(OpenDir),
    ReadDir(ReadDir),
    Remove(Remove),
    MkDir(MkDir),
    RmDir(RmDir),
    RealPath(RealPath),
    Stat(Stat),
    Rename(Rename),
    ReadLink(ReadLink),
    Symlink(Symlink),
    Status(Status),
    Handle(Handle),
    Data(Data),
    Name(Name),
    Attrs(Attrs),
    Extended(Extended),
    ExtendedReply(ExtendedReply),
}

/// Spec-level image of a [`Message`]: every byte and text string as a
/// sequence.
pub enum MessageV {
    Init(u32, ExtensionsV),
    Version(u32, ExtensionsV),
    Open(Seq<char>, u32, Attrs),
    Close(Seq<u8>),
    Read(Seq<u8>, u64, u32),
    Write(Seq<u8>, u64, Seq<u8>),
    LStat(Seq<char>),
    FStat(Seq<u8>),
    SetStat(Seq<char>, Attrs),
    FSetStat(Seq<u8>, Attrs),
    OpenDir(Seq<char>),
    ReadDir(Seq<u8>),
    Remove(Seq<char>),
    MkDir(Seq<char>, Attrs),
    RmDir(Seq<char>),
    RealPath(Seq<char>),
    Stat(Seq<char>),
    Rename(Seq<char>, Seq<char>),
    ReadLink(Seq<char>),
    Symlink(Seq<char>, Seq<char>),
    Status(StatusV),
    Handle(Seq<u8>),
    Data(Seq<u8>),
    Name(Seq<NameEntryV>),
    Attrs(Attrs),
    Extended(Seq<u8>, Seq<u8>),
    ExtendedReply(Seq<u8>),
}

impl View for Message {
    type V = MessageV;

    open spec fn view(&self) -> MessageV {
        match self {
            Message::Init(m) => MessageV::Init(m.version, extensions_view(m.extensions)),
            Message::Version(m) => MessageV::Version(m.version, extensions_view(m.extensions)),
            Message::Open(m) => MessageV::Open(m.filename@, m.pflags, m.attrs),
            Message::Close(m) => MessageV::Close(m@),
            Message::Read(m) => MessageV::Read(m.handle@, m.offset, m.length),
            Message::Write(m) => MessageV::Write(m.handle@, m.offset, m.data@),
            Message::LStat(m) => MessageV::LStat(m@),
            Message::FStat(m) => MessageV::FStat(m@),
            Message::SetStat(m) => MessageV::SetStat(m.path@, m.attrs),
            Message::FSetStat(m) => MessageV::FSetStat(m.handle@, m.attrs),
            Message::OpenDir(m) => MessageV::OpenDir(m@),
            Message::ReadDir(m) => MessageV::ReadDir(m@),
            Message::Remove(m) => MessageV::Remove(m@),
            Message::MkDir(m) => MessageV::MkDir(m.path@, m.attrs),
            Message::RmDir(m) => MessageV::RmDir(m@),
            Message::RealPath(m) => MessageV::RealPath(m@),
            Message::Stat(m) => MessageV::Stat(m@),
            Message::Rename(m) => MessageV::Rename(m.old_path@, m.new_path@),
            Message::ReadLink(m) => MessageV::ReadLink(m@),
            Message::Symlink(m) => MessageV::Symlink(m.link_path@, m.target_path@),
            Message::Status(m) => MessageV::Status(m@),
            Message::Handle(m) => MessageV::Handle(m@),
            Message::Data(m) => MessageV::Data(m@),
            Message::Name(m) => MessageV::Name(m@),
            Message::Attrs(m) => MessageV::Attrs(*m),
            Message::Extended(m) => MessageV::Extended(m.request@, m.data@),
            Message::ExtendedReply(m) => MessageV::ExtendedReply(m@),
        }
    }
}

/// The message number a message is tagged with on the wire.
pub open spec fn msg_type(m: MessageV) -> u8 {
    match m {
        MessageV::Init(..) => MSG_INIT,
        MessageV::Version(..) => MSG_VERSION,
        MessageV::Open(..) => MSG_OPEN,
        MessageV::Close(..) => MSG_CLOSE,
        MessageV::Read(..) => MSG_READ,
        MessageV::Write(..) => MSG_WRITE,
        MessageV::LStat(..) => MSG_LSTAT,
        MessageV::FStat(..) => MSG_FSTAT,
        MessageV::SetStat(..) => MSG_SETSTAT,
        MessageV::FSetStat(..) => MSG_FSETSTAT,
        MessageV::OpenDir(..) => MSG_OPENDIR,
        MessageV::ReadDir(..) => MSG_READDIR,
        MessageV::Remove(..) => MSG_REMOVE,
        MessageV::MkDir(..) => MSG_MKDIR,
        MessageV::RmDir(..) => MSG_RMDIR,
        MessageV::RealPath(..) => MSG_REALPATH,
        MessageV::Stat(..) => MSG_STAT,
        MessageV::Rename(..) => MSG_RENAME,
        MessageV::ReadLink(..) => MSG_READLINK,
        MessageV::Symlink(..) => MSG_SYMLINK,
        MessageV::Status(..) => MSG_STATUS,
        MessageV::Handle(..) => MSG_HANDLE,
        MessageV::Data(..) => MSG_DATA,
        MessageV::Name(..) => MSG_NAME,
        MessageV::Attrs(..) => MSG_ATTRS,
        MessageV::Extended(..) => MSG_EXTENDED,
        MessageV::ExtendedReply(..) => MSG_EXTENDED_REPLY,
    }
}

/// A message fits on the wire when every byte and text string in it
/// carries a 32-bit length.
pub open spec fn msg_wf(m: MessageV) -> bool {
    match m {
        MessageV::Init(_, e) => extensions_wf(e),
        MessageV::Version(_, e) => extensions_wf(e),
        MessageV::Open(f, _, _) => path_wf(f),
        MessageV::Close(h) => bytes_wf(h),
        MessageV::Read(h, _, _) => bytes_wf(h),
        MessageV::Write(h, _, d) => bytes_wf(h) && bytes_wf(d),
        MessageV::LStat(p) => path_wf(p),
        MessageV::FStat(h) => bytes_wf(h),
        MessageV::SetStat(p, _) => path_wf(p),
        MessageV::FSetStat(h, _) => bytes_wf(h),
        MessageV::OpenDir(p) => path_wf(p),
        MessageV::ReadDir(h) => bytes_wf(h),
        MessageV::Remove(p) => path_wf(p),
        MessageV::MkDir(p, _) => path_wf(p),
        MessageV::RmDir(p) => path_wf(p),
        MessageV::RealPath(p) => path_wf(p),
        MessageV::Stat(p) => path_wf(p),
        MessageV::Rename(a, b) => path_wf(a) && path_wf(b),
        MessageV::ReadLink(p) => path_wf(p),
        MessageV::Symlink(a, b) => path_wf(a) && path_wf(b),
        MessageV::Status(s) => status_wf(s),
        MessageV::Handle(h) => bytes_wf(h),
        MessageV::Data(d) => bytes_wf(d),
        MessageV::Name(s) => name_wf(s),
        MessageV::Attrs(_) => true,
        MessageV::Extended(r, _) => bytes_wf(r),
        MessageV::ExtendedReply(_) => true,
    }
}

/// Encoding of a message body: what follows the request id on the
/// wire.  The handshake messages keep their whole payload here and are
/// handled separately by [`enc_msg`].
pub open spec fn enc_msg_body(m: MessageV) -> Seq<u8>
    recommends
        msg_wf(m),
{
    match m {
        MessageV::Init(_, e) => enc_extensions(e),
        MessageV::Version(_, e) => enc_extensions(e),
        MessageV::Open(f, p, a) => enc_open(f, p, a),
        MessageV::Close(h) => enc_bytes(h),
        MessageV::Read(h, o, l) => enc_read(h, o, l),
        MessageV::Write(h, o, d) => enc_write(h, o, d),
        MessageV::LStat(p) => enc_path(p),
        MessageV::FStat(h) => enc_bytes(h),
        MessageV::SetStat(p, a) => enc_path_attrs(p, a),
        MessageV::FSetStat(h, a) => enc_handle_attrs(h, a),
        MessageV::OpenDir(p) => enc_path(p),
        MessageV::ReadDir(h) => enc_bytes(h),
        MessageV::Remove(p) => enc_path(p),
        MessageV::MkDir(p, a) => enc_path_attrs(p, a),
        MessageV::RmDir(p) => enc_path(p),
        MessageV::RealPath(p) => enc_path(p),
        MessageV::Stat(p) => enc_path(p),
        MessageV::Rename(a, b) => enc_two_paths(a, b),
        MessageV::ReadLink(p) => enc_path(p),
        MessageV::Symlink(a, b) => enc_two_paths(a, b),
        MessageV::Status(s) => enc_status(s),
        MessageV::Handle(h) => enc_bytes(h),
        MessageV::Data(d) => enc_bytes(d),
        MessageV::Name(s) => enc_name(s),
        MessageV::Attrs(a) => enc_attrs(a),
        MessageV::Extended(r, d) => enc_extended(r, d),
        MessageV::ExtendedReply(d) => enc_extended_reply(d),
    }
}

/// The value standing in the id slot of an encoded frame: the request
/// id, except for the handshake messages, which carry their protocol
/// version there.
pub open spec fn frame_id(id: u32, m: MessageV) -> u32 {
    match m {
        MessageV::Init(v, _) => v,
        MessageV::Version(v, _) => v,
        _ => id,
    }
}

/// Encoding of a whole frame payload: the message number, the id slot,
/// the body.
pub open spec fn enc_msg(id: u32, m: MessageV) -> Seq<u8>
    recommends
        msg_wf(m),
{
    enc_u8(msg_type(m)) + enc_u32(frame_id(id, m)) + enc_msg_body(m)
}

/// Spec-level decoder of a frame payload: the message number, the id
/// slot, then the body by number.  An unknown number is an unknown
/// discriminator.  Bytes after a fixed-shape body are ignored, as the
/// frame length alone delimits a message; the bodies that run to the
/// end of the frame consume everything.
pub open spec fn dec_msg(b: Seq<u8>) -> Result<(u32, MessageV), WireFormatErrorV> {
    match dec_u8(b) {
        Ok((t, r0)) => match dec_u32(r0) {
            Ok((id, r1)) => {
                if t == MSG_INIT {
                    match dec_extensions(r1) {
                        Ok((e, _)) => Ok((id, MessageV::Init(id, e))),
                        Err(err) => Err(err),
                    }
                } else if t == MSG_VERSION {
                    match dec_extensions(r1) {
                        Ok((e, _)) => Ok((id, MessageV::Version(id, e))),
                        Err(err) => Err(err),
                    }
                } else if t == MSG_OPEN {
                    match dec_open(r1) {
                        Ok(((f, p, a), _)) => Ok((id, MessageV::Open(f, p, a))),
                        Err(err) => Err(err),
                    }
                } else if t == MSG_CLOSE {
                    match dec_bytes(r1) {
                        Ok((h, _)) => Ok((id, MessageV::Close(h))),
                        Err(err) => Err(err),
                    }
                } else if t == MSG_READ {
                    match dec_read(r1) {
                        Ok(((h, o, l), _)) => Ok((id, MessageV::Read(h, o, l))),
                        Err(err) => Err(err),
                    }
                } else if t == MSG_WRITE {
                    match dec_write(r1) {
                        Ok(((h, o, d), _)) => Ok((id, MessageV::Write(h, o, d))),
                        Err(err) => Err(err),
                    }
                } else if t == MSG_LSTAT {
                    match dec_path(r1) {
                        Ok((p, _)) => Ok((id, MessageV::LStat(p))),
                        Err(err) => Err(err),
                    }
                } else if t == MSG_FSTAT {
                    match dec_bytes(r1) {
                        Ok((h, _)) => Ok((id, MessageV::FStat(h))),
                        Err(err) => Err(err),
                    }
                } else if t == MSG_SETSTAT {
                    match dec_path_attrs(r1) {
                        Ok(((p, a), _)) => Ok((id, MessageV::SetStat(p, a))),
                        Err(err) => Err(err),
                    }
                } else if t == MSG_FSETSTAT {
                    match dec_handle_attrs(r1) {
                        Ok(((h, a), _)) => Ok((id, MessageV::FSetStat(h, a))),
                        Err(err) => Err(err),
                    }
                } else if t == MSG_OPENDIR {
                    match dec_path(r1) {
                        Ok((p, _)) => Ok((id, MessageV::OpenDir(p))),
                        Err(err) => Err(err),
                    }
                } else if t == MSG_READDIR {
                    match dec_bytes(r1) {
                        Ok((h, _)) => Ok((id, MessageV::ReadDir(h))),
                        Err(err) => Err(err),
                    }
                } else if t == MSG_REMOVE {
                    match dec_path(r1) {
                        Ok((p, _)) => Ok((id, MessageV::Remove(p))),
                        Err(err) => Err(err),
                    }
                } else if t == MSG_MKDIR {
                    match dec_path_attrs(r1) {
                        Ok(((p, a), _)) => Ok((id, MessageV::MkDir(p, a))),
                        Err(err) => Err(err),
                    }
                } else if t == MSG_RMDIR {
                    match dec_path(r1) {
                        Ok((p, _)) => Ok((id, MessageV::RmDir(p))),
                        Err(err) => Err(err),
                    }
                } else if t == MSG_REALPATH {
                    match dec_path(r1) {
                        Ok((p, _)) => Ok((id, MessageV::RealPath(p))),
                        Err(err) => Err(err),
                    }
                } else if t == MSG_STAT {
                    match dec_path(r1) {
                        Ok((p, _)) => Ok((id, MessageV::Stat(p))),
                        Err(err) => Err(err),
                    }
                } else if t == MSG_RENAME {
                    match dec_two_paths(r1) {
                        Ok(((a, b2), _)) => Ok((id, MessageV::Rename(a, b2))),
                        Err(err) => Err(err),
                    }
                } else if t == MSG_READLINK {
                    match dec_path(r1) {
                        Ok((p, _)) => Ok((id, MessageV::ReadLink(p))),
                        Err(err) => Err(err),
                    }
                } else if t == MSG_SYMLINK {
                    match dec_two_paths(r1) {
                        Ok(((a, b2), _)) => Ok((id, MessageV::Symlink(a, b2))),
                        Err(err) => Err(err),
                    }
                } else if t == MSG_STATUS {
                    match dec_status(r1) {
                        Ok((s, _)) => Ok((id, MessageV::Status(s))),
                        Err(err) => Err(err),
                    }
                } else if t == MSG_HANDLE {
                    match dec_bytes(r1) {
                        Ok((h, _)) => Ok((id, MessageV::Handle(h))),
                        Err(err) => Err(err),
                    }
                } else if t == MSG_DATA {
                    match dec_bytes(r1) {
                        Ok((d, _)) => Ok((id, MessageV::Data(d))),
                        Err(err) => Err(err),
                    }
                } else if t == MSG_NAME {
                    match dec_name(r1) {
                        Ok((s, _)) => Ok((id, MessageV::Name(s))),
                        Err(err) => Err(err),
                    }
                } else if t == MSG_ATTRS {
                    match dec_attrs(r1) {
                        Ok((a, _)) => Ok((id, MessageV::Attrs(a))),
                        Err(err) => Err(err),
                    }
                } else if t == MSG_EXTENDED {
                    match dec_extended(r1) {
                        Ok(((r, d), _)) => Ok((id, MessageV::Extended(r, d))),
                        Err(err) => Err(err),
                    }
                } else if t == MSG_EXTENDED_REPLY {
                    match dec_extended_reply(r1) {
                        Ok((d, _)) => Ok((id, MessageV::ExtendedReply(d))),
                        Err(err) => Err(err),
                    }
                } else {
                    Err(WireFormatErrorV::Unsupported)
                }
            },
            Err(err) => Err(err),
        },
        Err(err) => Err(err),
    }
}

/// Encoding of a whole frame: the payload length, then the payload.
pub open spec fn enc_frame(id: u32, m: MessageV) -> Seq<u8>
    recommends
        msg_wf(m),
        enc_msg(id, m).len() <= MAX_BYTES_LEN,
{
    enc_bytes(enc_msg(id, m))
}

/// Spec-level decoder of a whole frame: read exactly the announced
/// number of bytes, then decode the payload; bytes after the frame
/// belong to the next frame and are returned.
pub open spec fn dec_frame(b: Seq<u8>) -> Result<((u32, MessageV), Seq<u8>), WireFormatErrorV> {
    match dec_bytes(b) {
        Ok((payload, rest)) => match dec_msg(payload) {
            Ok(im) => Ok((im, rest)),
            Err(err) => Err(err),
        },
        Err(err) => Err(err),
    }
}


/// Error while decoding a frame payload, carrying the request id from
/// the frame when its bytes were present, so the failure can be routed
/// to the waiter that issued the request.
#[derive(Debug, Clone, PartialEq, Eq)]
pub struct DecodeError {
    /// The codec failure itself
    pub inner: WireFormatError,
    /// The id read from the frame's id slot, when the frame was long
    /// enough to hold one
    pub id: Option<u32>,
}

/// The id that a decode failure on the given frame payload reports:
/// the four bytes after the message number, when they are present.
pub open spec fn err_frame_id(b: Seq<u8>) -> Option<u32> {
    if b.len() >= 5 {
        Some(crate::wire::be_u32(b[1], b[2], b[3], b[4]))
    } else {
        None
    }
}

/// Checks that every name/value pair of an extension map fits on the
/// wire.
fn check_extensions_wf(e: &crate::message::version::Extensions) -> (b: bool)
    ensures
        b == extensions_wf(extensions_view(*e)),
{
    let ghost all = extensions_view(*e);
    let count = e.len();
    for i in 0..count
        invariant
            count == e@.len(),
            all == extensions_view(*e),
            forall|j: int|
                0 <= j < i ==> (#[trigger] all[j]).0.len() <= MAX_BYTES_LEN && all[j].1.len()
                    <= MAX_BYTES_LEN,
    {
        proof {
            assert(all[i as int] == (e@[i as int].0@, e@[i as int].1@));
        }
        if e[i].0.len() > MAX_BYTES_LEN || e[i].1.len() > MAX_BYTES_LEN {
            return false;
        }
    }
    true
}

/// Checks that every row of a listing batch fits on the wire.
fn check_name_wf(n: &Name) -> (b: bool)
    ensures
        b == name_wf(n@),
{
    let ghost all = n@;
    let count = n.0.len();
    if count > MAX_BYTES_LEN {
        return false;
    }
    for i in 0..count
        invariant
            count == n.0@.len(),
            all == n@,
            all.len() <= MAX_BYTES_LEN,
            forall|j: int|
                0 <= j < i ==> crate::message::name::name_entry_wf(#[trigger] all[j]),
    {
        proof {
            assert(all[i as int] == n.0@[i as int]@);
        }
        if n.0[i].filename.0.as_str().as_bytes().len() > MAX_BYTES_LEN || n.0[i].long_name.len()
            > MAX_BYTES_LEN {
            return false;
        }
        proof {
            assert(crate::message::name::name_entry_wf(all[i as int]));
        }
    }
    true
}

impl Message {
    /// Checks that every byte and text string in the message fits on
    /// the wire.
    pub fn check_wf(&self) -> (b: bool)
        ensures
            b == msg_wf(self@),
    {
        match self {
            Message::Init(m) => check_extensions_wf(&m.extensions),
            Message::Version(m) => check_extensions_wf(&m.extensions),
            Message::Open(m) => m.filename.0.as_str().as_bytes().len() <= MAX_BYTES_LEN,
            Message::Close(m) => m.handle.0.len() <= MAX_BYTES_LEN,
            Message::Read(m) => m.handle.0.len() <= MAX_BYTES_LEN,
            Message::Write(m) => m.handle.0.len() <= MAX_BYTES_LEN && m.data.0.len()
                <= MAX_BYTES_LEN,
            Message::LStat(m) => m.path.0.as_str().as_bytes().len() <= MAX_BYTES_LEN,
            Message::FStat(m) => m.handle.0.len() <= MAX_BYTES_LEN,
            Message::SetStat(m) => m.path.0.as_str().as_bytes().len() <= MAX_BYTES_LEN,
            Message::FSetStat(m) => m.handle.0.len() <= MAX_BYTES_LEN,
            Message::OpenDir(m) => m.path.0.as_str().as_bytes().len() <= MAX_BYTES_LEN,
            Message::ReadDir(m) => m.handle.0.len() <= MAX_BYTES_LEN,
            Message::Remove(m) => m.path.0.as_str().as_bytes().len() <= MAX_BYTES_LEN,
            Message::MkDir(m) => m.path.0.as_str().as_bytes().len() <= MAX_BYTES_LEN,
            Message::RmDir(m) => m.path.0.as_str().as_bytes().len() <= MAX_BYTES_LEN,
            Message::RealPath(m) => m.path.0.as_str().as_bytes().len() <= MAX_BYTES_LEN,
            Message::Stat(m) => m.path.0.as_str().as_bytes().len() <= MAX_BYTES_LEN,
            Message::Rename(m) => m.old_path.0.as_str().as_bytes().len() <= MAX_BYTES_LEN
                && m.new_path.0.as_str().as_bytes().len() <= MAX_BYTES_LEN,
            Message::ReadLink(m) => m.path.0.as_str().as_bytes().len() <= MAX_BYTES_LEN,
            Message::Symlink(m) => m.link_path.0.as_str().as_bytes().len() <= MAX_BYTES_LEN
                && m.target_path.0.as_str().as_bytes().len() <= MAX_BYTES_LEN,
            Message::Status(m) => m.error.len() <= MAX_BYTES_LEN && m.language.len()
                <= MAX_BYTES_LEN,
            Message::Handle(m) => m.0.len() <= MAX_BYTES_LEN,
            Message::Data(m) => m.0.len() <= MAX_BYTES_LEN,
            Message::Name(m) => check_name_wf(m),
            Message::Attrs(_) => true,
            Message::Extended(m) => m.request.len() <= MAX_BYTES_LEN,
            Message::ExtendedReply(_) => true,
        }
    }

    /// Appends the frame payload (message number, id slot, body) to
    /// `buf`.
    fn encode_payload(&self, id: u32, buf: &mut Vec<u8>)
        requires
            msg_wf(self@),
        ensures
            final(buf)@ == old(buf)@ + enc_msg(id, self@),
    {
        put_u8(buf, self.type_num());
        let ghost after_type = buf@;
        match self {
            Message::Init(m) => {
                m.encode(buf);
                proof {
                    vstd::seq_lib::lemma_concat_associative(
                        enc_u8(msg_type(self@)),
                        enc_u32(m.version),
                        enc_extensions(extensions_view(m.extensions)),
                    );
                    vstd::seq_lib::lemma_concat_associative(
                        old(buf)@,
                        enc_u8(msg_type(self@)),
                        enc_version_body(m.version, extensions_view(m.extensions)),
                    );
                    vstd::seq_lib::lemma_concat_associative(
                        old(buf)@,
                        enc_u8(msg_type(self@)) + enc_u32(m.version),
                        enc_extensions(extensions_view(m.extensions)),
                    );
                }
            },
            Message::Version(m) => {
                m.encode(buf);
                proof {
                    vstd::seq_lib::lemma_concat_associative(
                        enc_u8(msg_type(self@)),
                        enc_u32(m.version),
                        enc_extensions(extensions_view(m.extensions)),
                    );
                    vstd::seq_lib::lemma_concat_associative(
                        old(buf)@,
                        enc_u8(msg_type(self@)),
                        enc_version_body(m.version, extensions_view(m.extensions)),
                    );
                    vstd::seq_lib::lemma_concat_associative(
                        old(buf)@,
                        enc_u8(msg_type(self@)) + enc_u32(m.version),
                        enc_extensions(extensions_view(m.extensions)),
                    );
                }
            },
            _ => {
                put_u32(buf, id);
                let ghost after_id = buf@;
                proof {
                    vstd::seq_lib::lemma_concat_associative(
                        old(buf)@,
                        enc_u8(msg_type(self@)),
                        enc_u32(id),
                    );
                }
                match self {
                    Message::Init(_) => {},
                    Message::Version(_) => {},
                    Message::Open(m) => m.encode(buf),
                    Message::Close(m) => m.encode(buf),
                    Message::Read(m) => m.encode(buf),
                    Message::Write(m) => m.encode(buf),
                    Message::LStat(m) => m.encode(buf),
                    Message::FStat(m) => m.encode(buf),
                    Message::SetStat(m) => m.encode(buf),
                    Message::FSetStat(m) => m.encode(buf),
                    Message::OpenDir(m) => m.encode(buf),
                    Message::ReadDir(m) => m.encode(buf),
                    Message::Remove(m) => m.encode(buf),
                    Message::MkDir(m) => m.encode(buf),
                    Message::RmDir(m) => m.encode(buf),
                    Message::RealPath(m) => m.encode(buf),
                    Message::Stat(m) => m.encode(buf),
                    Message::Rename(m) => m.encode(buf),
                    Message::ReadLink(m) => m.encode(buf),
                    Message::Symlink(m) => m.encode(buf),
                    Message::Status(m) => m.encode(buf),
                    Message::Handle(m) => m.encode(buf),
                    Message::Data(m) => m.encode(buf),
                    Message::Name(m) => m.encode(buf),
                    Message::Attrs(m) => m.encode(buf),
                    Message::Extended(m) => m.encode(buf),
                    Message::ExtendedReply(m) => m.encode(buf),
                }
                proof {
                    vstd::seq_lib::lemma_concat_associative(
                        old(buf)@,
                        enc_u8(msg_type(self@)) + enc_u32(id),
                        enc_msg_body(self@),
                    );
                }
            },
        }
    }

    /// The message number the message is tagged with on the wire.
    pub fn type_num(&self) -> (t: u8)
        ensures
            t == msg_type(self@),
    {
        match self {
            Message::Init(_) => MSG_INIT,
            Message::Version(_) => MSG_VERSION,
            Message::Open(_) => MSG_OPEN,
            Message::Close(_) => MSG_CLOSE,
            Message::Read(_) => MSG_READ,
            Message::Write(_) => MSG_WRITE,
            Message::LStat(_) => MSG_LSTAT,
            Message::FStat(_) => MSG_FSTAT,
            Message::SetStat(_) => MSG_SETSTAT,
            Message::FSetStat(_) => MSG_FSETSTAT,
            Message::OpenDir(_) => MSG_OPENDIR,
            Message::ReadDir(_) => MSG_READDIR,
            Message::Remove(_) => MSG_REMOVE,
            Message::MkDir(_) => MSG_MKDIR,
            Message::RmDir(_) => MSG_RMDIR,
            Message::RealPath(_) => MSG_REALPATH,
            Message::Stat(_) => MSG_STAT,
            Message::Rename(_) => MSG_RENAME,
            Message::ReadLink(_) => MSG_READLINK,
            Message::Symlink(_) => MSG_SYMLINK,
            Message::Status(_) => MSG_STATUS,
            Message::Handle(_) => MSG_HANDLE,
            Message::Data(_) => MSG_DATA,
            Message::Name(_) => MSG_NAME,
            Message::Attrs(_) => MSG_ATTRS,
            Message::Extended(_) => MSG_EXTENDED,
            Message::ExtendedReply(_) => MSG_EXTENDED_REPLY,
        }
    }

    /// Encodes the message as a whole frame with the given request id.
    /// Fails exactly when a string in the message, or the frame
    /// payload itself, is too long for its 32-bit length field.
    pub fn encode(&self, id: u32) -> (r: Result<Vec<u8>, WireFormatError>)
        ensures
            match r {
                Ok(v) => {
                    &&& msg_wf(self@)
                    &&& enc_msg(id, self@).len() <= MAX_BYTES_LEN
                    &&& v@ == enc_frame(id, self@)
                },
                Err(e) => {
                    &&& !(msg_wf(self@) && enc_msg(id, self@).len() <= MAX_BYTES_LEN)
                    &&& e matches WireFormatError::Custom(msg) && msg@ == "message too large"@
                },
            },
    {
        if !self.check_wf() {
            return Err(WireFormatError::Custom(String::from_str("message too large")));
        }
        let mut payload: Vec<u8> = Vec::new();
        self.encode_payload(id, &mut payload);
        proof {
            assert(payload@ =~= enc_msg(id, self@));
        }
        if payload.len() > MAX_BYTES_LEN {
            return Err(WireFormatError::Custom(String::from_str("message too large")));
        }
        let mut out: Vec<u8> = Vec::new();
        put_u32(&mut out, payload.len() as u32);
        out.extend_from_slice(payload.as_slice());
        proof {
            assert(out@ =~= enc_bytes(enc_msg(id, self@)));
        }
        Ok(out)
    }

    /// Decodes one frame payload: the message number, the id slot, the
    /// body.  On failure the reported id is the id slot's bytes when
    /// the payload was long enough to hold them.
    #[verifier::spinoff_prover]
    #[verifier::rlimit(100)]
    pub fn decode_raw(buf: &[u8]) -> (r: Result<(u32, Message), DecodeError>)
        ensures
            match r {
                Ok((id, m)) => dec_msg(buf@) == Ok::<_, WireFormatErrorV>((id, m@)),
                Err(e) => {
                    &&& dec_msg(buf@) matches Err(err) && err == e.inner@
                    &&& e.id == err_frame_id(buf@)
                },
            },
    {
        let (t, p0) = match get_u8(buf, 0) {
            Ok(ok) => ok,
            Err(e) => {
                proof {
                    assert(buf@.skip(0) =~= buf@);
                }
                return Err(DecodeError { inner: e, id: None });
            },
        };
        let (id, p1) = match get_u32(buf, p0) {
            Ok(ok) => ok,
            Err(e) => {
                proof {
                    assert(buf@.skip(0) =~= buf@);
                }
                return Err(DecodeError { inner: e, id: None });
            },
        };
        proof {
            assert(buf@.skip(0) =~= buf@);
            assert(buf@.skip(1)[0] == buf@[1]);
            assert(buf@.skip(1)[1] == buf@[2]);
            assert(buf@.skip(1)[2] == buf@[3]);
            assert(buf@.skip(1)[3] == buf@[4]);
            assert(err_frame_id(buf@) == Some(id));
        }
        if t == MSG_INIT {
            match crate::message::version::get_extensions(buf, p1) {
                Ok(extensions) => Ok((id, Message::Init(Init { version: id, extensions }))),
                Err(e) => Err(DecodeError { inner: e, id: Some(id) }),
            }
        } else if t == MSG_VERSION {
            match crate::message::version::get_extensions(buf, p1) {
                Ok(extensions) => Ok((id, Message::Version(Version { version: id, extensions }))),
                Err(e) => Err(DecodeError { inner: e, id: Some(id) }),
            }
        } else if t == MSG_OPEN {
            match Open::decode(buf, p1) {
                Ok((m, _)) => Ok((id, Message::Open(m))),
                Err(e) => Err(DecodeError { inner: e, id: Some(id) }),
            }
        } else if t == MSG_CLOSE {
            match Close::decode(buf, p1) {
                Ok((m, _)) => Ok((id, Message::Close(m))),
                Err(e) => Err(DecodeError { inner: e, id: Some(id) }),
            }
        } else if t == MSG_READ {
            match Read::decode(buf, p1) {
                Ok((m, _)) => Ok((id, Message::Read(m))),
                Err(e) => Err(DecodeError { inner: e, id: Some(id) }),
            }
        } else if t == MSG_WRITE {
            match Write::decode(buf, p1) {
                Ok((m, _)) => Ok((id, Message::Write(m))),
                Err(e) => Err(DecodeError { inner: e, id: Some(id) }),
            }
        } else if t == MSG_LSTAT {
            match LStat::decode(buf, p1) {
                Ok((m, _)) => Ok((id, Message::LStat(m))),
                Err(e) => Err(DecodeError { inner: e, id: Some(id) }),
            }
        } else if t == MSG_FSTAT {
            match FStat::decode(buf, p1) {
                Ok((m, _)) => Ok((id, Message::FStat(m))),
                Err(e) => Err(DecodeError { inner: e, id: Some(id) }),
            }
        } else if t == MSG_SETSTAT {
            match SetStat::decode(buf, p1) {
                Ok((m, _)) => Ok((id, Message::SetStat(m))),
                Err(e) => Err(DecodeError { inner: e, id: Some(id) }),
            }
        } else if t == MSG_FSETSTAT {
            match FSetStat::decode(buf, p1) {
                Ok((m, _)) => Ok((id, Message::FSetStat(m))),
                Err(e) => Err(DecodeError { inner: e, id: Some(id) }),
            }
        } else if t == MSG_OPENDIR {
            match OpenDir::decode(buf, p1) {
                Ok((m, _)) => Ok((id, Message::OpenDir(m))),
                Err(e) => Err(DecodeError { inner: e, id: Some(id) }),
            }
        } else if t == MSG_READDIR {
            match ReadDir::decode(buf, p1) {
                Ok((m, _)) => Ok((id, Message::ReadDir(m))),
                Err(e) => Err(DecodeError { inner: e, id: Some(id) }),
            }
        } else if t == MSG_REMOVE {
            match Remove::decode(buf, p1) {
                Ok((m, _)) => Ok((id, Message::Remove(m))),
                Err(e) => Err(DecodeError { inner: e, id: Some(id) }),
            }
        } else if t == MSG_MKDIR {
            match MkDir::decode(buf, p1) {
                Ok((m, _)) => Ok((id, Message::MkDir(m))),
                Err(e) => Err(DecodeError { inner: e, id: Some(id) }),
            }
        } else if t == MSG_RMDIR {
            match RmDir::decode(buf, p1) {
                Ok((m, _)) => Ok((id, Message::RmDir(m))),
                Err(e) => Err(DecodeError { inner: e, id: Some(id) }),
            }
        } else if t == MSG_REALPATH {
            match RealPath::decode(buf, p1) {
                Ok((m, _)) => Ok((id, Message::RealPath(m))),
                Err(e) => Err(DecodeError { inner: e, id: Some(id) }),
            }
        } else if t == MSG_STAT {
            match Stat::decode(buf, p1) {
                Ok((m, _)) => Ok((id, Message::Stat(m))),
                Err(e) => Err(DecodeError { inner: e, id: Some(id) }),
            }
        } else if t == MSG_RENAME {
            match Rename::decode(buf, p1) {
                Ok((m, _)) => Ok((id, Message::Rename(m))),
                Err(e) => Err(DecodeError { inner: e, id: Some(id) }),
            }
        } else if t == MSG_READLINK {
            match ReadLink::decode(buf, p1) {
                Ok((m, _)) => Ok((id, Message::ReadLink(m))),
                Err(e) => Err(DecodeError { inner: e, id: Some(id) }),
            }
        } else if t == MSG_SYMLINK {
            match Symlink::decode(buf, p1) {
                Ok((m, _)) => Ok((id, Message::Symlink(m))),
                Err(e) => Err(DecodeError { inner: e, id: Some(id) }),
            }
        } else if t == MSG_STATUS {
            match Status::decode(buf, p1) {
                Ok((m, _)) => Ok((id, Message::Status(m))),
                Err(e) => Err(DecodeError { inner: e, id: Some(id) }),
            }
        } else if t == MSG_HANDLE {
            match Handle::decode(buf, p1) {
                Ok((m, _)) => Ok((id, Message::Handle(m))),
                Err(e) => Err(DecodeError { inner: e, id: Some(id) }),
            }
        } else if t == MSG_DATA {
            match Data::decode(buf, p1) {
                Ok((m, _)) => Ok((id, Message::Data(m))),
                Err(e) => Err(DecodeError { inner: e, id: Some(id) }),
            }
        } else if t == MSG_NAME {
            match Name::decode(buf, p1) {
                Ok((m, _)) => Ok((id, Message::Name(m))),
                Err(e) => Err(DecodeError { inner: e, id: Some(id) }),
            }
        } else if t == MSG_ATTRS {
            match Attrs::decode(buf, p1) {
                Ok((m, _)) => Ok((id, Message::Attrs(m))),
                Err(e) => Err(DecodeError { inner: e, id: Some(id) }),
            }
        } else if t == MSG_EXTENDED {
            match Extended::decode(buf, p1) {
                Ok((m, _)) => Ok((id, Message::Extended(m))),
                Err(e) => Err(DecodeError { inner: e, id: Some(id) }),
            }
        } else if t == MSG_EXTENDED_REPLY {
            let (m, _) = ExtendedReply::decode(buf, p1);
            Ok((id, Message::ExtendedReply(m)))
        } else {
            Err(DecodeError { inner: WireFormatError::Unsupported, id: Some(id) })
        }
    }
}


/// Codec round trip for every message of the catalogue: decoding an
/// encoded frame payload yields the message back, under the id that
/// stood in the id slot.
#[verifier::spinoff_prover]
#[verifier::rlimit(100)]
pub proof fn lemma_dec_enc_msg(id: u32, m: MessageV)
    requires
        msg_wf(m),
    ensures
        dec_msg(enc_msg(id, m)) == Ok::<_, WireFormatErrorV>((frame_id(id, m), m)),
{
    let t = msg_type(m);
    let fid = frame_id(id, m);
    let body = enc_msg_body(m);
    let b = enc_msg(id, m);
    vstd::seq_lib::lemma_concat_associative(enc_u8(t), enc_u32(fid), body);
    crate::wire::lemma_dec_enc_u8(t, enc_u32(fid) + body);
    crate::wire::lemma_dec_enc_u32(fid, body);
    assert(dec_u8(b) == Ok::<_, WireFormatErrorV>((t, enc_u32(fid) + body)));
    assert(dec_u32(enc_u32(fid) + body) == Ok::<_, WireFormatErrorV>((fid, body)));
    let empty = Seq::<u8>::empty();
    match m {
        MessageV::Init(v, e) => {
            crate::message::version::lemma_dec_enc_extensions(e);
        },
        MessageV::Version(v, e) => {
            crate::message::version::lemma_dec_enc_extensions(e);
        },
        MessageV::Open(f, p, a) => {
            assert(enc_open(f, p, a) + empty =~= body);
            crate::message::requests::lemma_dec_enc_open(f, p, a, empty);
        },
        MessageV::Close(h) => {
            assert(enc_bytes(h) + empty =~= body);
            crate::wire::lemma_dec_enc_bytes(h, empty);
        },
        MessageV::Read(h, o, l) => {
            assert(enc_read(h, o, l) + empty =~= body);
            crate::message::requests::lemma_dec_enc_read(h, o, l, empty);
        },
        MessageV::Write(h, o, d) => {
            assert(enc_write(h, o, d) + empty =~= body);
            crate::message::requests::lemma_dec_enc_write(h, o, d, empty);
        },
        MessageV::LStat(p) => {
            assert(enc_path(p) + empty =~= body);
            crate::message::path::lemma_dec_enc_path(p, empty);
        },
        MessageV::FStat(h) => {
            assert(enc_bytes(h) + empty =~= body);
            crate::wire::lemma_dec_enc_bytes(h, empty);
        },
        MessageV::SetStat(p, a) => {
            assert(enc_path_attrs(p, a) + empty =~= body);
            crate::message::requests::lemma_dec_enc_path_attrs(p, a, empty);
        },
        MessageV::FSetStat(h, a) => {
            assert(enc_handle_attrs(h, a) + empty =~= body);
            crate::message::requests::lemma_dec_enc_handle_attrs(h, a, empty);
        },
        MessageV::OpenDir(p) => {
            assert(enc_path(p) + empty =~= body);
            crate::message::path::lemma_dec_enc_path(p, empty);
        },
        MessageV::ReadDir(h) => {
            assert(enc_bytes(h) + empty =~= body);
            crate::wire::lemma_dec_enc_bytes(h, empty);
        },
        MessageV::Remove(p) => {
            assert(enc_path(p) + empty =~= body);
            crate::message::path::lemma_dec_enc_path(p, empty);
        },
        MessageV::MkDir(p, a) => {
            assert(enc_path_attrs(p, a) + empty =~= body);
            crate::message::requests::lemma_dec_enc_path_attrs(p, a, empty);
        },
        MessageV::RmDir(p) => {
            assert(enc_path(p) + empty =~= body);
            crate::message::path::lemma_dec_enc_path(p, empty);
        },
        MessageV::RealPath(p) => {
            assert(enc_path(p) + empty =~= body);
            crate::message::path::lemma_dec_enc_path(p, empty);
        },
        MessageV::Stat(p) => {
            assert(enc_path(p) + empty =~= body);
            crate::message::path::lemma_dec_enc_path(p, empty);
        },
        MessageV::Rename(p, q) => {
            assert(enc_two_paths(p, q) + empty =~= body);
            crate::message::requests::lemma_dec_enc_two_paths(p, q, empty);
        },
        MessageV::ReadLink(p) => {
            assert(enc_path(p) + empty =~= body);
            crate::message::path::lemma_dec_enc_path(p, empty);
        },
        MessageV::Symlink(p, q) => {
            assert(enc_two_paths(p, q) + empty =~= body);
            crate::message::requests::lemma_dec_enc_two_paths(p, q, empty);
        },
        MessageV::Status(st) => {
            assert(enc_status(st) + empty =~= body);
            crate::message::status::lemma_dec_enc_status(st, empty);
        },
        MessageV::Handle(h) => {
            assert(enc_bytes(h) + empty =~= body);
            crate::wire::lemma_dec_enc_bytes(h, empty);
        },
        MessageV::Data(d) => {
            assert(enc_bytes(d) + empty =~= body);
            crate::wire::lemma_dec_enc_bytes(d, empty);
        },
        MessageV::Name(n) => {
            assert(enc_name(n) + empty =~= body);
            crate::message::name::lemma_dec_enc_name(n, empty);
        },
        MessageV::Attrs(a) => {
            assert(enc_attrs(a) + empty =~= body);
            crate::message::attrs::lemma_dec_enc_attrs(a, empty);
        },
        MessageV::Extended(r, d) => {
            crate::message::requests::lemma_dec_enc_extended(r, d);
        },
        MessageV::ExtendedReply(d) => {
        },
    }
}

/// Codec round trip at the frame level: decoding an encoded frame
/// yields the message back and leaves the following frames untouched.
pub proof fn lemma_dec_enc_frame(id: u32, m: MessageV, rest: Seq<u8>)
    requires
        msg_wf(m),
        enc_msg(id, m).len() <= MAX_BYTES_LEN,
    ensures
        dec_frame(enc_frame(id, m) + rest) == Ok::<_, WireFormatErrorV>((
            (frame_id(id, m), m),
            rest,
        )),
{
    crate::wire::lemma_dec_enc_bytes(enc_msg(id, m), rest);
    lemma_dec_enc_msg(id, m);
}

/// Frame truncation: cutting an encoded frame anywhere short of its
/// end leaves something whose decoding fails for want of data.
pub proof fn lemma_frame_truncation(id: u32, m: MessageV, i: int)
    requires
        msg_wf(m),
        enc_msg(id, m).len() <= MAX_BYTES_LEN,
        0 <= i < enc_frame(id, m).len(),
    ensures
        dec_frame(enc_frame(id, m).take(i)) == Err::<((u32, MessageV), Seq<u8>), _>(
            WireFormatErrorV::NotEnoughData,
        ),
{
    let payload = enc_msg(id, m);
    let len = payload.len() as u32;
    let frame = enc_frame(id, m);
    let cut = frame.take(i);
    assert(frame == enc_u32(len) + payload);
    if i < 4 {
        assert(cut.len() < 4);
    } else {
        assert(cut[0] == frame[0] && cut[1] == frame[1] && cut[2] == frame[2] && cut[3]
            == frame[3]);
        crate::wire::lemma_dec_enc_u32(len, payload);
        assert(dec_u32(frame) == Ok::<_, WireFormatErrorV>((len, payload)));
        assert(crate::wire::be_u32(frame[0], frame[1], frame[2], frame[3]) == len);
        assert(dec_u32(cut) == Ok::<_, WireFormatErrorV>((len, cut.skip(4))));
        assert(cut.skip(4).len() == i - 4 < len);
    }
}

} // verus!
