//! The fixed-shape request and reply records of the catalogue.
//!
//! Each record is a struct over paths, handles, integers and attribute
//! records; its wire form is the concatenation of its fields.  The
//! shapes shared by several records (two paths, a path and attributes,
//! and so on) have one spec-level codec each, and every record's
//! executable codec is proved against the spec codec of its shape.

use vstd::prelude::*;

use crate::message::attrs::{dec_attrs, enc_attrs, Attrs};
use crate::message::path::{dec_path, enc_path, path_wf, Path};
use crate::wire::{
    dec_bytes, dec_u32, dec_u64, enc_bytes, enc_u32, enc_u64, get_bytes, get_u32, get_u64,
    put_bytes, put_u32, put_u64, DecResult, WireFormatError, WireFormatErrorV, MAX_BYTES_LEN,
};

verus! {

/// Open the file for reading.
pub const PFLAGS_READ: u32 = 0x00000001;

/// Open the file for writing.
pub const PFLAGS_WRITE: u32 = 0x00000002;

/// Force all writes to append data at the end of the file.
pub const PFLAGS_APPEND: u32 = 0x00000004;

/// Create a new file when one does not already exist.
pub const PFLAGS_CREATE: u32 = 0x00000008;

/// Truncate an existing file to zero length; requires `PFLAGS_CREATE`.
pub const PFLAGS_TRUNCATE: u32 = 0x00000010;

/// Fail when the named file already exists; requires `PFLAGS_CREATE`.
pub const PFLAGS_EXCLUDE: u32 = 0x00000020;

/// Open-mode bitfield built from the `PFLAGS_*` bits.
pub type PFlags = u32;

/// Opaque byte string minted by the server identifying an open file or
/// directory.  Clients must not interpret it.
#[derive(Debug, Default, Clone, PartialEq, Eq, Hash)]
pub struct Handle(pub Vec<u8>);

impl View for Handle {
    type V = Seq<u8>;

    open spec fn view(&self) -> Seq<u8> {
        self.0@
    }
}

/// Arbitrary byte string carrying the data of a read or a write.
#[derive(Debug, Default, Clone, PartialEq, Eq, Hash)]
pub struct Data(pub Vec<u8>);

impl View for Data {
    type V = Seq<u8>;

    open spec fn view(&self) -> Seq<u8> {
        self.0@
    }
}

/// A byte string fits on the wire when it carries a 32-bit length.
pub open spec fn bytes_wf(b: Seq<u8>) -> bool {
    b.len() <= MAX_BYTES_LEN
}

impl Handle {
    /// A copy of the handle naming the same remote object.
    pub fn duplicate(&self) -> (r: Handle)
        ensures
            r@ == self@,
    {
        Handle(self.0.clone())
    }

    /// Appends the wire encoding of the handle to `buf`.
    pub fn encode(&self, buf: &mut Vec<u8>)
        requires
            bytes_wf(self@),
        ensures
            final(buf)@ == old(buf)@ + enc_bytes(self@),
    {
        put_bytes(buf, self.0.as_slice());
    }

    /// Decodes a handle starting at `pos`.
    pub fn decode(buf: &[u8], pos: usize) -> (r: Result<(Handle, usize), WireFormatError>)
        requires
            pos <= buf@.len(),
        ensures
            match r {
                Ok((v, end)) => {
                    &&& pos <= end <= buf@.len()
                    &&& dec_bytes(buf@.skip(pos as int)) == Ok::<_, WireFormatErrorV>((
                        v@,
                        buf@.skip(end as int),
                    ))
                },
                Err(e) => dec_bytes(buf@.skip(pos as int)) == Err::<(Seq<u8>, Seq<u8>), _>(e@),
            },
    {
        match get_bytes(buf, pos) {
            Ok((b, end)) => Ok((Handle(b), end)),
            Err(e) => Err(e),
        }
    }
}

impl Data {
    /// Appends the wire encoding of the data string to `buf`.
    pub fn encode(&self, buf: &mut Vec<u8>)
        requires
            bytes_wf(self@),
        ensures
            final(buf)@ == old(buf)@ + enc_bytes(self@),
    {
        put_bytes(buf, self.0.as_slice());
    }

    /// Decodes a data string starting at `pos`.
    pub fn decode(buf: &[u8], pos: usize) -> (r: Result<(Data, usize), WireFormatError>)
        requires
            pos <= buf@.len(),
        ensures
            match r {
                Ok((v, end)) => {
                    &&& pos <= end <= buf@.len()
                    &&& dec_bytes(buf@.skip(pos as int)) == Ok::<_, WireFormatErrorV>((
                        v@,
                        buf@.skip(end as int),
                    ))
                },
                Err(e) => dec_bytes(buf@.skip(pos as int)) == Err::<(Seq<u8>, Seq<u8>), _>(e@),
            },
    {
        match get_bytes(buf, pos) {
            Ok((b, end)) => Ok((Data(b), end)),
            Err(e) => Err(e),
        }
    }
}

/*
 * Shared shapes
 */

/// Encoding of two consecutive paths.
pub open spec fn enc_two_paths(a: Seq<char>, b: Seq<char>) -> Seq<u8> {
    enc_path(a) + enc_path(b)
}

/// Spec-level decoder of two consecutive paths.
pub open spec fn dec_two_paths(b: Seq<u8>) -> DecResult<(Seq<char>, Seq<char>)> {
    match dec_path(b) {
        Ok((first, r1)) => match dec_path(r1) {
            Ok((second, r2)) => Ok(((first, second), r2)),
            Err(e) => Err(e),
        },
        Err(e) => Err(e),
    }
}

/// Encoding of a path followed by an attribute record.
pub open spec fn enc_path_attrs(p: Seq<char>, a: Attrs) -> Seq<u8> {
    enc_path(p) + enc_attrs(a)
}

/// Spec-level decoder of a path followed by an attribute record.
pub open spec fn dec_path_attrs(b: Seq<u8>) -> DecResult<(Seq<char>, Attrs)> {
    match dec_path(b) {
        Ok((p, r1)) => match dec_attrs(r1) {
            Ok((a, r2)) => Ok(((p, a), r2)),
            Err(e) => Err(e),
        },
        Err(e) => Err(e),
    }
}

/// Encoding of a handle followed by an attribute record.
pub open spec fn enc_handle_attrs(h: Seq<u8>, a: Attrs) -> Seq<u8> {
    enc_bytes(h) + enc_attrs(a)
}

/// Spec-level decoder of a handle followed by an attribute record.
pub open spec fn dec_handle_attrs(b: Seq<u8>) -> DecResult<(Seq<u8>, Attrs)> {
    match dec_bytes(b) {
        Ok((h, r1)) => match dec_attrs(r1) {
            Ok((a, r2)) => Ok(((h, a), r2)),
            Err(e) => Err(e),
        },
        Err(e) => Err(e),
    }
}

/// Encoding of an open request: path, open-mode bits, attributes.
pub open spec fn enc_open(filename: Seq<char>, pflags: u32, attrs: Attrs) -> Seq<u8> {
    enc_path(filename) + enc_u32(pflags) + enc_attrs(attrs)
}

/// Spec-level decoder of an open request.
pub open spec fn dec_open(b: Seq<u8>) -> DecResult<(Seq<char>, u32, Attrs)> {
    match dec_path(b) {
        Ok((filename, r1)) => match dec_u32(r1) {
            Ok((pflags, r2)) => match dec_attrs(r2) {
                Ok((attrs, r3)) => Ok(((filename, pflags, attrs), r3)),
                Err(e) => Err(e),
            },
            Err(e) => Err(e),
        },
        Err(e) => Err(e),
    }
}

/// Encoding of a read request: handle, offset, length.
pub open spec fn enc_read(handle: Seq<u8>, offset: u64, length: u32) -> Seq<u8> {
    enc_bytes(handle) + enc_u64(offset) + enc_u32(length)
}

/// Spec-level decoder of a read request.
pub open spec fn dec_read(b: Seq<u8>) -> DecResult<(Seq<u8>, u64, u32)> {
    match dec_bytes(b) {
        Ok((handle, r1)) => match dec_u64(r1) {
            Ok((offset, r2)) => match dec_u32(r2) {
                Ok((length, r3)) => Ok(((handle, offset, length), r3)),
                Err(e) => Err(e),
            },
            Err(e) => Err(e),
        },
        Err(e) => Err(e),
    }
}

/// Encoding of a write request: handle, offset, data.
pub open spec fn enc_write(handle: Seq<u8>, offset: u64, data: Seq<u8>) -> Seq<u8> {
    enc_bytes(handle) + enc_u64(offset) + enc_bytes(data)
}

/// Spec-level decoder of a write request.
pub open spec fn dec_write(b: Seq<u8>) -> DecResult<(Seq<u8>, u64, Seq<u8>)> {
    match dec_bytes(b) {
        Ok((handle, r1)) => match dec_u64(r1) {
            Ok((offset, r2)) => match dec_bytes(r2) {
                Ok((data, r3)) => Ok(((handle, offset, data), r3)),
                Err(e) => Err(e),
            },
            Err(e) => Err(e),
        },
        Err(e) => Err(e),
    }
}

/// Encoding of an extended request: name as a byte string, then the
/// vendor data running to the end of the frame.
pub open spec fn enc_extended(request: Seq<u8>, data: Seq<u8>) -> Seq<u8> {
    enc_bytes(request) + data
}

/// Spec-level decoder of an extended request: the vendor data is
/// everything after the name, so nothing is left over.
pub open spec fn dec_extended(b: Seq<u8>) -> DecResult<(Seq<u8>, Seq<u8>)> {
    match dec_bytes(b) {
        Ok((request, r1)) => Ok(((request, r1), Seq::<u8>::empty())),
        Err(e) => Err(e),
    }
}

/*
 * Round trips of the shared shapes
 */

/// Decoding two encoded paths yields them back and leaves the rest.
pub proof fn lemma_dec_enc_two_paths(a: Seq<char>, b: Seq<char>, rest: Seq<u8>)
    requires
        path_wf(a),
        path_wf(b),
    ensures
        dec_two_paths(enc_two_paths(a, b) + rest) == Ok::<_, WireFormatErrorV>(((a, b), rest)),
{
    vstd::seq_lib::lemma_concat_associative(enc_path(a), enc_path(b), rest);
    crate::message::path::lemma_dec_enc_path(a, enc_path(b) + rest);
    crate::message::path::lemma_dec_enc_path(b, rest);
}

/// Decoding an encoded path-and-attributes pair yields it back.
pub proof fn lemma_dec_enc_path_attrs(p: Seq<char>, a: Attrs, rest: Seq<u8>)
    requires
        path_wf(p),
    ensures
        dec_path_attrs(enc_path_attrs(p, a) + rest) == Ok::<_, WireFormatErrorV>(((p, a), rest)),
{
    vstd::seq_lib::lemma_concat_associative(enc_path(p), enc_attrs(a), rest);
    crate::message::path::lemma_dec_enc_path(p, enc_attrs(a) + rest);
    crate::message::attrs::lemma_dec_enc_attrs(a, rest);
}

/// Decoding an encoded handle-and-attributes pair yields it back.
pub proof fn lemma_dec_enc_handle_attrs(h: Seq<u8>, a: Attrs, rest: Seq<u8>)
    requires
        bytes_wf(h),
    ensures
        dec_handle_attrs(enc_handle_attrs(h, a) + rest) == Ok::<_, WireFormatErrorV>((
            (h, a),
            rest,
        )),
{
    vstd::seq_lib::lemma_concat_associative(enc_bytes(h), enc_attrs(a), rest);
    crate::wire::lemma_dec_enc_bytes(h, enc_attrs(a) + rest);
    crate::message::attrs::lemma_dec_enc_attrs(a, rest);
}

/// Decoding an encoded open request yields it back.
pub proof fn lemma_dec_enc_open(filename: Seq<char>, pflags: u32, attrs: Attrs, rest: Seq<u8>)
    requires
        path_wf(filename),
    ensures
        dec_open(enc_open(filename, pflags, attrs) + rest) == Ok::<_, WireFormatErrorV>((
            (filename, pflags, attrs),
            rest,
        )),
{
    let ep = enc_path(filename);
    let ef = enc_u32(pflags);
    let ea = enc_attrs(attrs);
    vstd::seq_lib::lemma_concat_associative(ep + ef, ea, rest);
    vstd::seq_lib::lemma_concat_associative(ep, ef, ea + rest);
    vstd::seq_lib::lemma_concat_associative(ef, ea, rest);
    crate::message::path::lemma_dec_enc_path(filename, ef + (ea + rest));
    crate::wire::lemma_dec_enc_u32(pflags, ea + rest);
    crate::message::attrs::lemma_dec_enc_attrs(attrs, rest);
}

/// Decoding an encoded read request yields it back.
pub proof fn lemma_dec_enc_read(handle: Seq<u8>, offset: u64, length: u32, rest: Seq<u8>)
    requires
        bytes_wf(handle),
    ensures
        dec_read(enc_read(handle, offset, length) + rest) == Ok::<_, WireFormatErrorV>((
            (handle, offset, length),
            rest,
        )),
{
    let eh = enc_bytes(handle);
    let eo = enc_u64(offset);
    let el = enc_u32(length);
    vstd::seq_lib::lemma_concat_associative(eh + eo, el, rest);
    vstd::seq_lib::lemma_concat_associative(eh, eo, el + rest);
    vstd::seq_lib::lemma_concat_associative(eo, el, rest);
    crate::wire::lemma_dec_enc_bytes(handle, eo + (el + rest));
    crate::wire::lemma_dec_enc_u64(offset, el + rest);
    crate::wire::lemma_dec_enc_u32(length, rest);
}

/// Decoding an encoded write request yields it back.
pub proof fn lemma_dec_enc_write(handle: Seq<u8>, offset: u64, data: Seq<u8>, rest: Seq<u8>)
    requires
        bytes_wf(handle),
        bytes_wf(data),
    ensures
        dec_write(enc_write(handle, offset, data) + rest) == Ok::<_, WireFormatErrorV>((
            (handle, offset, data),
            rest,
        )),
{
    let eh = enc_bytes(handle);
    let eo = enc_u64(offset);
    let ed = enc_bytes(data);
    vstd::seq_lib::lemma_concat_associative(eh + eo, ed, rest);
    vstd::seq_lib::lemma_concat_associative(eh, eo, ed + rest);
    vstd::seq_lib::lemma_concat_associative(eo, ed, rest);
    crate::wire::lemma_dec_enc_bytes(handle, eo + (ed + rest));
    crate::wire::lemma_dec_enc_u64(offset, ed + rest);
    crate::wire::lemma_dec_enc_bytes(data, rest);
}

/// Decoding an encoded extended request yields it back; the vendor data
/// runs to the end of the frame, so nothing is left over.
pub proof fn lemma_dec_enc_extended(request: Seq<u8>, data: Seq<u8>)
    requires
        bytes_wf(request),
    ensures
        dec_extended(enc_extended(request, data)) == Ok::<_, WireFormatErrorV>((
            (request, data),
            Seq::<u8>::empty(),
        )),
{
    crate::wire::lemma_dec_enc_bytes(request, data);
}


/// Requests the attributes of a file, directory, or symbolic link, following symbolic links.
#[derive(Debug, Default, Clone, PartialEq, Eq, Hash)]
pub struct LStat {
    /// Path the request names
    pub path: Path,
}

impl View for LStat {
    type V = Seq<char>;

    open spec fn view(&self) -> Seq<char> {
        self.path@
    }
}

impl LStat {
    /// Appends the wire encoding of the request to `buf`.
    pub fn encode(&self, buf: &mut Vec<u8>)
        requires
            path_wf(self@),
        ensures
            final(buf)@ == old(buf)@ + enc_path(self@),
    {
        self.path.encode(buf);
    }

    /// Decodes the request starting at `pos`.
    pub fn decode(buf: &[u8], pos: usize) -> (r: Result<(LStat, usize), WireFormatError>)
        requires
            pos <= buf@.len(),
        ensures
            match r {
                Ok((v, end)) => {
                    &&& pos <= end <= buf@.len()
                    &&& dec_path(buf@.skip(pos as int)) == Ok::<_, WireFormatErrorV>((
                        v@,
                        buf@.skip(end as int),
                    ))
                },
                Err(e) => dec_path(buf@.skip(pos as int)) == Err::<(Seq<char>, Seq<u8>), _>(e@),
            },
    {
        match Path::decode(buf, pos) {
            Ok((path, end)) => Ok((LStat { path }, end)),
            Err(e) => Err(e),
        }
    }
}

/// Opens a directory for listing.
#[derive(Debug, Default, Clone, PartialEq, Eq, Hash)]
pub struct OpenDir {
    /// Path the request names
    pub path: Path,
}

impl View for OpenDir {
    type V = Seq<char>;

    open spec fn view(&self) -> Seq<char> {
        self.path@
    }
}

impl OpenDir {
    /// Appends the wire encoding of the request to `buf`.
    pub fn encode(&self, buf: &mut Vec<u8>)
        requires
            path_wf(self@),
        ensures
            final(buf)@ == old(buf)@ + enc_path(self@),
    {
        self.path.encode(buf);
    }

    /// Decodes the request starting at `pos`.
    pub fn decode(buf: &[u8], pos: usize) -> (r: Result<(OpenDir, usize), WireFormatError>)
        requires
            pos <= buf@.len(),
        ensures
            match r {
                Ok((v, end)) => {
                    &&& pos <= end <= buf@.len()
                    &&& dec_path(buf@.skip(pos as int)) == Ok::<_, WireFormatErrorV>((
                        v@,
                        buf@.skip(end as int),
                    ))
                },
                Err(e) => dec_path(buf@.skip(pos as int)) == Err::<(Seq<char>, Seq<u8>), _>(e@),
            },
    {
        match Path::decode(buf, pos) {
            Ok((path, end)) => Ok((OpenDir { path }, end)),
            Err(e) => Err(e),
        }
    }
}

/// Removes a file.
#[derive(Debug, Default, Clone, PartialEq, Eq, Hash)]
pub struct Remove {
    /// Path the request names
    pub path: Path,
}

impl View for Remove {
    type V = Seq<char>;

    open spec fn view(&self) -> Seq<char> {
        self.path@
    }
}

impl Remove {
    /// Appends the wire encoding of the request to `buf`.
    pub fn encode(&self, buf: &mut Vec<u8>)
        requires
            path_wf(self@),
        ensures
            final(buf)@ == old(buf)@ + enc_path(self@),
    {
        self.path.encode(buf);
    }

    /// Decodes the request starting at `pos`.
    pub fn decode(buf: &[u8], pos: usize) -> (r: Result<(Remove, usize), WireFormatError>)
        requires
            pos <= buf@.len(),
        ensures
            match r {
                Ok((v, end)) => {
                    &&& pos <= end <= buf@.len()
                    &&& dec_path(buf@.skip(pos as int)) == Ok::<_, WireFormatErrorV>((
                        v@,
                        buf@.skip(end as int),
                    ))
                },
                Err(e) => dec_path(buf@.skip(pos as int)) == Err::<(Seq<char>, Seq<u8>), _>(e@),
            },
    {
        match Path::decode(buf, pos) {
            Ok((path, end)) => Ok((Remove { path }, end)),
            Err(e) => Err(e),
        }
    }
}

/// Removes a directory.
#[derive(Debug, Default, Clone, PartialEq, Eq, Hash)]
pub struct RmDir {
    /// Path the request names
    pub path: Path,
}

impl View for RmDir {
    type V = Seq<char>;

    open spec fn view(&self) -> Seq<char> {
        self.path@
    }
}

impl RmDir {
    /// Appends the wire encoding of the request to `buf`.
    pub fn encode(&self, buf: &mut Vec<u8>)
        requires
            path_wf(self@),
        ensures
            final(buf)@ == old(buf)@ + enc_path(self@),
    {
        self.path.encode(buf);
    }

    /// Decodes the request starting at `pos`.
    pub fn decode(buf: &[u8], pos: usize) -> (r: Result<(RmDir, usize), WireFormatError>)
        requires
            pos <= buf@.len(),
        ensures
            match r {
                Ok((v, end)) => {
                    &&& pos <= end <= buf@.len()
                    &&& dec_path(buf@.skip(pos as int)) == Ok::<_, WireFormatErrorV>((
                        v@,
                        buf@.skip(end as int),
                    ))
                },
                Err(e) => dec_path(buf@.skip(pos as int)) == Err::<(Seq<char>, Seq<u8>), _>(e@),
            },
    {
        match Path::decode(buf, pos) {
            Ok((path, end)) => Ok((RmDir { path }, end)),
            Err(e) => Err(e),
        }
    }
}

/// Canonicalizes a path.
#[derive(Debug, Default, Clone, PartialEq, Eq, Hash)]
pub struct RealPath {
    /// Path the request names
    pub path: Path,
}

impl View for RealPath {
    type V = Seq<char>;

    open spec fn view(&self) -> Seq<char> {
        self.path@
    }
}

impl RealPath {
    /// Appends the wire encoding of the request to `buf`.
    pub fn encode(&self, buf: &mut Vec<u8>)
        requires
            path_wf(self@),
        ensures
            final(buf)@ == old(buf)@ + enc_path(self@),
    {
        self.path.encode(buf);
    }

    /// Decodes the request starting at `pos`.
    pub fn decode(buf: &[u8], pos: usize) -> (r: Result<(RealPath, usize), WireFormatError>)
        requires
            pos <= buf@.len(),
        ensures
            match r {
                Ok((v, end)) => {
                    &&& pos <= end <= buf@.len()
                    &&& dec_path(buf@.skip(pos as int)) == Ok::<_, WireFormatErrorV>((
                        v@,
                        buf@.skip(end as int),
                    ))
                },
                Err(e) => dec_path(buf@.skip(pos as int)) == Err::<(Seq<char>, Seq<u8>), _>(e@),
            },
    {
        match Path::decode(buf, pos) {
            Ok((path, end)) => Ok((RealPath { path }, end)),
            Err(e) => Err(e),
        }
    }
}

/// Requests the attributes of a file or directory, not following symbolic links.
#[derive(Debug, Default, Clone, PartialEq, Eq, Hash)]
pub struct Stat {
    /// Path the request names
    pub path: Path,
}

impl View for Stat {
    type V = Seq<char>;

    open spec fn view(&self) -> Seq<char> {
        self.path@
    }
}

impl Stat {
    /// Appends the wire encoding of the request to `buf`.
    pub fn encode(&self, buf: &mut Vec<u8>)
        requires
            path_wf(self@),
        ensures
            final(buf)@ == old(buf)@ + enc_path(self@),
    {
        self.path.encode(buf);
    }

    /// Decodes the request starting at `pos`.
    pub fn decode(buf: &[u8], pos: usize) -> (r: Result<(Stat, usize), WireFormatError>)
        requires
            pos <= buf@.len(),
        ensures
            match r {
                Ok((v, end)) => {
                    &&& pos <= end <= buf@.len()
                    &&& dec_path(buf@.skip(pos as int)) == Ok::<_, WireFormatErrorV>((
                        v@,
                        buf@.skip(end as int),
                    ))
                },
                Err(e) => dec_path(buf@.skip(pos as int)) == Err::<(Seq<char>, Seq<u8>), _>(e@),
            },
    {
        match Path::decode(buf, pos) {
            Ok((path, end)) => Ok((Stat { path }, end)),
            Err(e) => Err(e),
        }
    }
}

/// Reads the target of a symbolic link.
#[derive(Debug, Default, Clone, PartialEq, Eq, Hash)]
pub struct ReadLink {
    /// Path the request names
    pub path: Path,
}

impl View for ReadLink {
    type V = Seq<char>;

    open spec fn view(&self) -> Seq<char> {
        self.path@
    }
}

impl ReadLink {
    /// Appends the wire encoding of the request to `buf`.
    pub fn encode(&self, buf: &mut Vec<u8>)
        requires
            path_wf(self@),
        ensures
            final(buf)@ == old(buf)@ + enc_path(self@),
    {
        self.path.encode(buf);
    }

    /// Decodes the request starting at `pos`.
    pub fn decode(buf: &[u8], pos: usize) -> (r: Result<(ReadLink, usize), WireFormatError>)
        requires
            pos <= buf@.len(),
        ensures
            match r {
                Ok((v, end)) => {
                    &&& pos <= end <= buf@.len()
                    &&& dec_path(buf@.skip(pos as int)) == Ok::<_, WireFormatErrorV>((
                        v@,
                        buf@.skip(end as int),
                    ))
                },
                Err(e) => dec_path(buf@.skip(pos as int)) == Err::<(Seq<char>, Seq<u8>), _>(e@),
            },
    {
        match Path::decode(buf, pos) {
            Ok((path, end)) => Ok((ReadLink { path }, end)),
            Err(e) => Err(e),
        }
    }
}

/// Closes an open file or directory.
#[derive(Debug, Default, Clone, PartialEq, Eq, Hash)]
pub struct Close {
    /// Handle the request names
    pub handle: Handle,
}

impl View for Close {
    type V = Seq<u8>;

    open spec fn view(&self) -> Seq<u8> {
        self.handle@
    }
}

impl Close {
    /// Appends the wire encoding of the request to `buf`.
    pub fn encode(&self, buf: &mut Vec<u8>)
        requires
            bytes_wf(self@),
        ensures
            final(buf)@ == old(buf)@ + enc_bytes(self@),
    {
        self.handle.encode(buf);
    }

    /// Decodes the request starting at `pos`.
    pub fn decode(buf: &[u8], pos: usize) -> (r: Result<(Close, usize), WireFormatError>)
        requires
            pos <= buf@.len(),
        ensures
            match r {
                Ok((v, end)) => {
                    &&& pos <= end <= buf@.len()
                    &&& dec_bytes(buf@.skip(pos as int)) == Ok::<_, WireFormatErrorV>((
                        v@,
                        buf@.skip(end as int),
                    ))
                },
                Err(e) => dec_bytes(buf@.skip(pos as int)) == Err::<(Seq<u8>, Seq<u8>), _>(e@),
            },
    {
        match Handle::decode(buf, pos) {
            Ok((handle, end)) => Ok((Close { handle }, end)),
            Err(e) => Err(e),
        }
    }
}

/// Requests the attributes of an open file or directory.
#[derive(Debug, Default, Clone, PartialEq, Eq, Hash)]
pub struct FStat {
    /// Handle the request names
    pub handle: Handle,
}

impl View for FStat {
    type V = Seq<u8>;

    open spec fn view(&self) -> Seq<u8> {
        self.handle@
    }
}

impl FStat {
    /// Appends the wire encoding of the request to `buf`.
    pub fn encode(&self, buf: &mut Vec<u8>)
        requires
            bytes_wf(self@),
        ensures
            final(buf)@ == old(buf)@ + enc_bytes(self@),
    {
        self.handle.encode(buf);
    }

    /// Decodes the request starting at `pos`.
    pub fn decode(buf: &[u8], pos: usize) -> (r: Result<(FStat, usize), WireFormatError>)
        requires
            pos <= buf@.len(),
        ensures
            match r {
                Ok((v, end)) => {
                    &&& pos <= end <= buf@.len()
                    &&& dec_bytes(buf@.skip(pos as int)) == Ok::<_, WireFormatErrorV>((
                        v@,
                        buf@.skip(end as int),
                    ))
                },
                Err(e) => dec_bytes(buf@.skip(pos as int)) == Err::<(Seq<u8>, Seq<u8>), _>(e@),
            },
    {
        match Handle::decode(buf, pos) {
            Ok((handle, end)) => Ok((FStat { handle }, end)),
            Err(e) => Err(e),
        }
    }
}

/// Requests one batch of entries from an open directory.
#[derive(Debug, Default, Clone, PartialEq, Eq, Hash)]
pub struct ReadDir {
    /// Handle the request names
    pub handle: Handle,
}

impl View for ReadDir {
    type V = Seq<u8>;

    open spec fn view(&self) -> Seq<u8> {
        self.handle@
    }
}

impl ReadDir {
    /// Appends the wire encoding of the request to `buf`.
    pub fn encode(&self, buf: &mut Vec<u8>)
        requires
            bytes_wf(self@),
        ensures
            final(buf)@ == old(buf)@ + enc_bytes(self@),
    {
        self.handle.encode(buf);
    }

    /// Decodes the request starting at `pos`.
    pub fn decode(buf: &[u8], pos: usize) -> (r: Result<(ReadDir, usize), WireFormatError>)
        requires
            pos <= buf@.len(),
        ensures
            match r {
                Ok((v, end)) => {
                    &&& pos <= end <= buf@.len()
                    &&& dec_bytes(buf@.skip(pos as int)) == Ok::<_, WireFormatErrorV>((
                        v@,
                        buf@.skip(end as int),
                    ))
                },
                Err(e) => dec_bytes(buf@.skip(pos as int)) == Err::<(Seq<u8>, Seq<u8>), _>(e@),
            },
    {
        match Handle::decode(buf, pos) {
            Ok((handle, end)) => Ok((ReadDir { handle }, end)),
            Err(e) => Err(e),
        }
    }
}

/// Renames or moves a file or directory.
#[derive(Debug, Default, Clone, PartialEq, Eq, Hash)]
pub struct Rename {
    /// Current path of the file or directory to rename
    pub old_path: Path,
    /// New path where the file or directory will be moved to
    pub new_path: Path,
}

impl View for Rename {
    type V = (Seq<char>, Seq<char>);

    open spec fn view(&self) -> (Seq<char>, Seq<char>) {
        (self.old_path@, self.new_path@)
    }
}

impl Rename {
    /// Appends the wire encoding of the request to `buf`.
    pub fn encode(&self, buf: &mut Vec<u8>)
        requires
            path_wf(self.old_path@),
            path_wf(self.new_path@),
        ensures
            final(buf)@ == old(buf)@ + enc_two_paths(self.old_path@, self.new_path@),
    {
        self.old_path.encode(buf);
        self.new_path.encode(buf);
        proof {
            vstd::seq_lib::lemma_concat_associative(
                old(buf)@,
                enc_path(self.old_path@),
                enc_path(self.new_path@),
            );
        }
    }

    /// Decodes the request starting at `pos`.
    pub fn decode(buf: &[u8], pos: usize) -> (r: Result<(Rename, usize), WireFormatError>)
        requires
            pos <= buf@.len(),
        ensures
            match r {
                Ok((v, end)) => {
                    &&& pos <= end <= buf@.len()
                    &&& dec_two_paths(buf@.skip(pos as int)) == Ok::<_, WireFormatErrorV>((
                        v@,
                        buf@.skip(end as int),
                    ))
                },
                Err(e) => dec_two_paths(buf@.skip(pos as int)) == Err::<
                    ((Seq<char>, Seq<char>), Seq<u8>),
                    _,
                >(e@),
            },
    {
        let (first, p1) = match Path::decode(buf, pos) {
            Ok(ok) => ok,
            Err(e) => {
                return Err(e);
            },
        };
        match Path::decode(buf, p1) {
            Ok((second, end)) => Ok((Rename { old_path: first, new_path: second }, end)),
            Err(e) => Err(e),
        }
    }
}

/// Creates a symbolic link.
#[derive(Debug, Default, Clone, PartialEq, Eq, Hash)]
pub struct Symlink {
    /// Path name of the symbolic link to be created
    pub link_path: Path,
    /// Target of the symbolic link
    pub target_path: Path,
}

impl View for Symlink {
    type V = (Seq<char>, Seq<char>);

    open spec fn view(&self) -> (Seq<char>, Seq<char>) {
        (self.link_path@, self.target_path@)
    }
}

impl Symlink {
    /// Appends the wire encoding of the request to `buf`.
    pub fn encode(&self, buf: &mut Vec<u8>)
        requires
            path_wf(self.link_path@),
            path_wf(self.target_path@),
        ensures
            final(buf)@ == old(buf)@ + enc_two_paths(self.link_path@, self.target_path@),
    {
        self.link_path.encode(buf);
        self.target_path.encode(buf);
        proof {
            vstd::seq_lib::lemma_concat_associative(
                old(buf)@,
                enc_path(self.link_path@),
                enc_path(self.target_path@),
            );
        }
    }

    /// Decodes the request starting at `pos`.
    pub fn decode(buf: &[u8], pos: usize) -> (r: Result<(Symlink, usize), WireFormatError>)
        requires
            pos <= buf@.len(),
        ensures
            match r {
                Ok((v, end)) => {
                    &&& pos <= end <= buf@.len()
                    &&& dec_two_paths(buf@.skip(pos as int)) == Ok::<_, WireFormatErrorV>((
                        v@,
                        buf@.skip(end as int),
                    ))
                },
                Err(e) => dec_two_paths(buf@.skip(pos as int)) == Err::<
                    ((Seq<char>, Seq<char>), Seq<u8>),
                    _,
                >(e@),
            },
    {
        let (first, p1) = match Path::decode(buf, pos) {
            Ok(ok) => ok,
            Err(e) => {
                return Err(e);
            },
        };
        match Path::decode(buf, p1) {
            Ok((second, end)) => Ok((Symlink { link_path: first, target_path: second }, end)),
            Err(e) => Err(e),
        }
    }
}

/// Changes the attributes of a file or directory named by path.
#[derive(Debug, Default, Clone, PartialEq, Eq, Hash)]
pub struct SetStat {
    /// Path the request names
    pub path: Path,
    /// Attributes carried by the request
    pub attrs: Attrs,
}

impl View for SetStat {
    type V = (Seq<char>, Attrs);

    open spec fn view(&self) -> (Seq<char>, Attrs) {
        (self.path@, self.attrs)
    }
}

impl SetStat {
    /// Appends the wire encoding of the request to `buf`.
    pub fn encode(&self, buf: &mut Vec<u8>)
        requires
            path_wf(self.path@),
        ensures
            final(buf)@ == old(buf)@ + enc_path_attrs(self.path@, self.attrs),
    {
        self.path.encode(buf);
        self.attrs.encode(buf);
        proof {
            vstd::seq_lib::lemma_concat_associative(
                old(buf)@,
                enc_path(self.path@),
                enc_attrs(self.attrs),
            );
        }
    }

    /// Decodes the request starting at `pos`.
    pub fn decode(buf: &[u8], pos: usize) -> (r: Result<(SetStat, usize), WireFormatError>)
        requires
            pos <= buf@.len(),
        ensures
            match r {
                Ok((v, end)) => {
                    &&& pos <= end <= buf@.len()
                    &&& dec_path_attrs(buf@.skip(pos as int)) == Ok::<_, WireFormatErrorV>((
                        v@,
                        buf@.skip(end as int),
                    ))
                },
                Err(e) => dec_path_attrs(buf@.skip(pos as int)) == Err::<
                    ((Seq<char>, Attrs), Seq<u8>),
                    _,
                >(e@),
            },
    {
        let (path, p1) = match Path::decode(buf, pos) {
            Ok(ok) => ok,
            Err(e) => {
                return Err(e);
            },
        };
        match Attrs::decode(buf, p1) {
            Ok((attrs, end)) => Ok((SetStat { path, attrs }, end)),
            Err(e) => Err(e),
        }
    }
}

/// Creates a directory with default attributes.
#[derive(Debug, Default, Clone, PartialEq, Eq, Hash)]
pub struct MkDir {
    /// Path the request names
    pub path: Path,
    /// Attributes carried by the request
    pub attrs: Attrs,
}

impl View for MkDir {
    type V = (Seq<char>, Attrs);

    open spec fn view(&self) -> (Seq<char>, Attrs) {
        (self.path@, self.attrs)
    }
}

impl MkDir {
    /// Appends the wire encoding of the request to `buf`.
    pub fn encode(&self, buf: &mut Vec<u8>)
        requires
            path_wf(self.path@),
        ensures
            final(buf)@ == old(buf)@ + enc_path_attrs(self.path@, self.attrs),
    {
        self.path.encode(buf);
        self.attrs.encode(buf);
        proof {
            vstd::seq_lib::lemma_concat_associative(
                old(buf)@,
                enc_path(self.path@),
                enc_attrs(self.attrs),
            );
        }
    }

    /// Decodes the request starting at `pos`.
    pub fn decode(buf: &[u8], pos: usize) -> (r: Result<(MkDir, usize), WireFormatError>)
        requires
            pos <= buf@.len(),
        ensures
            match r {
                Ok((v, end)) => {
                    &&& pos <= end <= buf@.len()
                    &&& dec_path_attrs(buf@.skip(pos as int)) == Ok::<_, WireFormatErrorV>((
                        v@,
                        buf@.skip(end as int),
                    ))
                },
                Err(e) => dec_path_attrs(buf@.skip(pos as int)) == Err::<
                    ((Seq<char>, Attrs), Seq<u8>),
                    _,
                >(e@),
            },
    {
        let (path, p1) = match Path::decode(buf, pos) {
            Ok(ok) => ok,
            Err(e) => {
                return Err(e);
            },
        };
        match Attrs::decode(buf, p1) {
            Ok((attrs, end)) => Ok((MkDir { path, attrs }, end)),
            Err(e) => Err(e),
        }
    }
}


/// Changes the attributes of an open file or directory.
#[derive(Debug, Default, Clone, PartialEq, Eq, Hash)]
pub struct FSetStat {
    /// Handle of the file or directory to change the attributes
    pub handle: Handle,
    /// New attributes to apply
    pub attrs: Attrs,
}

impl View for FSetStat {
    type V = (Seq<u8>, Attrs);

    open spec fn view(&self) -> (Seq<u8>, Attrs) {
        (self.handle@, self.attrs)
    }
}

impl FSetStat {
    /// Appends the wire encoding of the request to `buf`.
    pub fn encode(&self, buf: &mut Vec<u8>)
        requires
            bytes_wf(self.handle@),
        ensures
            final(buf)@ == old(buf)@ + enc_handle_attrs(self.handle@, self.attrs),
    {
        self.handle.encode(buf);
        self.attrs.encode(buf);
        proof {
            vstd::seq_lib::lemma_concat_associative(
                old(buf)@,
                enc_bytes(self.handle@),
                enc_attrs(self.attrs),
            );
        }
    }

    /// Decodes the request starting at `pos`.
    pub fn decode(buf: &[u8], pos: usize) -> (r: Result<(FSetStat, usize), WireFormatError>)
        requires
            pos <= buf@.len(),
        ensures
            match r {
                Ok((v, end)) => {
                    &&& pos <= end <= buf@.len()
                    &&& dec_handle_attrs(buf@.skip(pos as int)) == Ok::<_, WireFormatErrorV>((
                        v@,
                        buf@.skip(end as int),
                    ))
                },
                Err(e) => dec_handle_attrs(buf@.skip(pos as int)) == Err::<
                    ((Seq<u8>, Attrs), Seq<u8>),
                    _,
                >(e@),
            },
    {
        let (handle, p1) = match Handle::decode(buf, pos) {
            Ok(ok) => ok,
            Err(e) => {
                return Err(e);
            },
        };
        match Attrs::decode(buf, p1) {
            Ok((attrs, end)) => Ok((FSetStat { handle, attrs }, end)),
            Err(e) => Err(e),
        }
    }
}

/// Opens a file on the server.
#[derive(Debug, Default, Clone, PartialEq, Eq, Hash)]
pub struct Open {
    /// Path of the file to open
    pub filename: Path,
    /// Flags for the file opening, built from the `PFLAGS_*` bits
    pub pflags: PFlags,
    /// Default file attributes to use upon file creation
    pub attrs: Attrs,
}

impl View for Open {
    type V = (Seq<char>, u32, Attrs);

    open spec fn view(&self) -> (Seq<char>, u32, Attrs) {
        (self.filename@, self.pflags, self.attrs)
    }
}

impl Open {
    /// Appends the wire encoding of the request to `buf`.
    pub fn encode(&self, buf: &mut Vec<u8>)
        requires
            path_wf(self.filename@),
        ensures
            final(buf)@ == old(buf)@ + enc_open(self.filename@, self.pflags, self.attrs),
    {
        self.filename.encode(buf);
        put_u32(buf, self.pflags);
        self.attrs.encode(buf);
        proof {
            let ep = enc_path(self.filename@);
            let ef = enc_u32(self.pflags);
            let ea = enc_attrs(self.attrs);
            vstd::seq_lib::lemma_concat_associative(old(buf)@, ep, ef);
            vstd::seq_lib::lemma_concat_associative(old(buf)@, ep + ef, ea);
        }
    }

    /// Decodes the request starting at `pos`.
    pub fn decode(buf: &[u8], pos: usize) -> (r: Result<(Open, usize), WireFormatError>)
        requires
            pos <= buf@.len(),
        ensures
            match r {
                Ok((v, end)) => {
                    &&& pos <= end <= buf@.len()
                    &&& dec_open(buf@.skip(pos as int)) == Ok::<_, WireFormatErrorV>((
                        v@,
                        buf@.skip(end as int),
                    ))
                },
                Err(e) => dec_open(buf@.skip(pos as int)) == Err::<
                    ((Seq<char>, u32, Attrs), Seq<u8>),
                    _,
                >(e@),
            },
    {
        let (filename, p1) = match Path::decode(buf, pos) {
            Ok(ok) => ok,
            Err(e) => {
                return Err(e);
            },
        };
        let (pflags, p2) = match get_u32(buf, p1) {
            Ok(ok) => ok,
            Err(e) => {
                return Err(e);
            },
        };
        match Attrs::decode(buf, p2) {
            Ok((attrs, end)) => Ok((Open { filename, pflags, attrs }, end)),
            Err(e) => Err(e),
        }
    }
}

/// Reads a range of bytes from an open file.
#[derive(Debug, Default, Clone, PartialEq, Eq, Hash)]
pub struct Read {
    /// Handle of the file to read from
    pub handle: Handle,
    /// Byte offset where the read should start
    pub offset: u64,
    /// Number of bytes to read
    pub length: u32,
}

impl View for Read {
    type V = (Seq<u8>, u64, u32);

    open spec fn view(&self) -> (Seq<u8>, u64, u32) {
        (self.handle@, self.offset, self.length)
    }
}

impl Read {
    /// Appends the wire encoding of the request to `buf`.
    pub fn encode(&self, buf: &mut Vec<u8>)
        requires
            bytes_wf(self.handle@),
        ensures
            final(buf)@ == old(buf)@ + enc_read(self.handle@, self.offset, self.length),
    {
        self.handle.encode(buf);
        put_u64(buf, self.offset);
        put_u32(buf, self.length);
        proof {
            let eh = enc_bytes(self.handle@);
            let eo = enc_u64(self.offset);
            let el = enc_u32(self.length);
            vstd::seq_lib::lemma_concat_associative(old(buf)@, eh, eo);
            vstd::seq_lib::lemma_concat_associative(old(buf)@, eh + eo, el);
        }
    }

    /// Decodes the request starting at `pos`.
    pub fn decode(buf: &[u8], pos: usize) -> (r: Result<(Read, usize), WireFormatError>)
        requires
            pos <= buf@.len(),
        ensures
            match r {
                Ok((v, end)) => {
                    &&& pos <= end <= buf@.len()
                    &&& dec_read(buf@.skip(pos as int)) == Ok::<_, WireFormatErrorV>((
                        v@,
                        buf@.skip(end as int),
                    ))
                },
                Err(e) => dec_read(buf@.skip(pos as int)) == Err::<
                    ((Seq<u8>, u64, u32), Seq<u8>),
                    _,
                >(e@),
            },
    {
        let (handle, p1) = match Handle::decode(buf, pos) {
            Ok(ok) => ok,
            Err(e) => {
                return Err(e);
            },
        };
        let (offset, p2) = match get_u64(buf, p1) {
            Ok(ok) => ok,
            Err(e) => {
                return Err(e);
            },
        };
        match get_u32(buf, p2) {
            Ok((length, end)) => Ok((Read { handle, offset, length }, end)),
            Err(e) => Err(e),
        }
    }
}

/// Writes a range of bytes to an open file.
#[derive(Debug, Default, Clone, PartialEq, Eq, Hash)]
pub struct Write {
    /// Handle of the file to write to
    pub handle: Handle,
    /// Byte offset where the write should start
    pub offset: u64,
    /// Bytes to be written to the file
    pub data: Data,
}

impl View for Write {
    type V = (Seq<u8>, u64, Seq<u8>);

    open spec fn view(&self) -> (Seq<u8>, u64, Seq<u8>) {
        (self.handle@, self.offset, self.data@)
    }
}

impl Write {
    /// Appends the wire encoding of the request to `buf`.
    pub fn encode(&self, buf: &mut Vec<u8>)
        requires
            bytes_wf(self.handle@),
            bytes_wf(self.data@),
        ensures
            final(buf)@ == old(buf)@ + enc_write(self.handle@, self.offset, self.data@),
    {
        self.handle.encode(buf);
        put_u64(buf, self.offset);
        self.data.encode(buf);
        proof {
            let eh = enc_bytes(self.handle@);
            let eo = enc_u64(self.offset);
            let ed = enc_bytes(self.data@);
            vstd::seq_lib::lemma_concat_associative(old(buf)@, eh, eo);
            vstd::seq_lib::lemma_concat_associative(old(buf)@, eh + eo, ed);
        }
    }

    /// Decodes the request starting at `pos`.
    pub fn decode(buf: &[u8], pos: usize) -> (r: Result<(Write, usize), WireFormatError>)
        requires
            pos <= buf@.len(),
        ensures
            match r {
                Ok((v, end)) => {
                    &&& pos <= end <= buf@.len()
                    &&& dec_write(buf@.skip(pos as int)) == Ok::<_, WireFormatErrorV>((
                        v@,
                        buf@.skip(end as int),
                    ))
                },
                Err(e) => dec_write(buf@.skip(pos as int)) == Err::<
                    ((Seq<u8>, u64, Seq<u8>), Seq<u8>),
                    _,
                >(e@),
            },
    {
        let (handle, p1) = match Handle::decode(buf, pos) {
            Ok(ok) => ok,
            Err(e) => {
                return Err(e);
            },
        };
        let (offset, p2) = match get_u64(buf, p1) {
            Ok(ok) => ok,
            Err(e) => {
                return Err(e);
            },
        };
        match Data::decode(buf, p2) {
            Ok((data, end)) => Ok((Write { handle, offset, data }, end)),
            Err(e) => Err(e),
        }
    }
}

/// Vendor-specific extended request: a name of the format
/// `name@domain`, then data the extension alone interprets, running to
/// the end of the frame.
#[derive(Debug, Default, Clone, PartialEq, Eq, Hash)]
pub struct Extended {
    /// Extended-request name
    pub request: Vec<u8>,
    /// Specific data needed by the extension to interpret the request
    pub data: Vec<u8>,
}

impl View for Extended {
    type V = (Seq<u8>, Seq<u8>);

    open spec fn view(&self) -> (Seq<u8>, Seq<u8>) {
        (self.request@, self.data@)
    }
}

impl Extended {
    /// Appends the wire encoding of the request to `buf`.
    pub fn encode(&self, buf: &mut Vec<u8>)
        requires
            bytes_wf(self.request@),
        ensures
            final(buf)@ == old(buf)@ + enc_extended(self.request@, self.data@),
    {
        put_bytes(buf, self.request.as_slice());
        buf.extend_from_slice(self.data.as_slice());
        proof {
            vstd::seq_lib::lemma_concat_associative(
                old(buf)@,
                enc_bytes(self.request@),
                self.data@,
            );
        }
    }

    /// Decodes the request from everything at and after `pos`: the
    /// vendor data runs to the end of the input.
    pub fn decode(buf: &[u8], pos: usize) -> (r: Result<(Extended, usize), WireFormatError>)
        requires
            pos <= buf@.len(),
        ensures
            match r {
                Ok((v, end)) => {
                    &&& end == buf@.len()
                    &&& dec_extended(buf@.skip(pos as int)) == Ok::<_, WireFormatErrorV>((
                        v@,
                        Seq::<u8>::empty(),
                    ))
                },
                Err(e) => dec_extended(buf@.skip(pos as int)) == Err::<
                    ((Seq<u8>, Seq<u8>), Seq<u8>),
                    _,
                >(e@),
            },
    {
        let (request, p1) = match get_bytes(buf, pos) {
            Ok(ok) => ok,
            Err(e) => {
                return Err(e);
            },
        };
        let data = vstd::slice::slice_to_vec(vstd::slice::slice_subrange(buf, p1, buf.len()));
        proof {
            assert(buf@.skip(p1 as int) =~= buf@.subrange(p1 as int, buf@.len() as int));
        }
        Ok((Extended { request, data }, buf.len()))
    }
}

/// Reply to a vendor-specific extended request: data the extension
/// alone interprets, running to the end of the frame.
#[derive(Debug, Default, Clone, PartialEq, Eq, Hash)]
pub struct ExtendedReply {
    /// Specific data needed by the extension to interpret the reply
    pub data: Vec<u8>,
}

impl View for ExtendedReply {
    type V = Seq<u8>;

    open spec fn view(&self) -> Seq<u8> {
        self.data@
    }
}

/// Encoding of an extended reply: the raw vendor data.
pub open spec fn enc_extended_reply(data: Seq<u8>) -> Seq<u8> {
    data
}

/// Spec-level decoder of an extended reply: it takes everything.
pub open spec fn dec_extended_reply(b: Seq<u8>) -> DecResult<Seq<u8>> {
    Ok((b, Seq::<u8>::empty()))
}

impl ExtendedReply {
    /// Appends the wire encoding of the reply to `buf`.
    pub fn encode(&self, buf: &mut Vec<u8>)
        ensures
            final(buf)@ == old(buf)@ + enc_extended_reply(self.data@),
    {
        buf.extend_from_slice(self.data.as_slice());
    }

    /// Decodes the reply from everything at and after `pos`.
    pub fn decode(buf: &[u8], pos: usize) -> (r: (ExtendedReply, usize))
        requires
            pos <= buf@.len(),
        ensures
            r.1 == buf@.len(),
            dec_extended_reply(buf@.skip(pos as int)) == Ok::<_, WireFormatErrorV>((
                r.0@,
                Seq::<u8>::empty(),
            )),
    {
        let data = vstd::slice::slice_to_vec(vstd::slice::slice_subrange(buf, pos, buf.len()));
        proof {
            assert(buf@.skip(pos as int) =~= buf@.subrange(pos as int, buf@.len() as int));
        }
        (ExtendedReply { data }, buf.len())
    }
}

} // verus!
