//! Attributes of a file or a directory, with their sparse flag-driven
//! encoding.
//!
//! The wire form is a 32-bit flag mask followed by the present fields
//! in a fixed order: `flags || [size] || [uid, gid] || [perms] ||
//! [atime, mtime]`.  The mask holds exactly one bit per present field;
//! a mask with any other bit set is rejected when decoding.

use vstd::prelude::*;

use crate::wire::{
    dec_u32, dec_u64, enc_u32, enc_u64, get_u32, get_u64, put_u32, put_u64, DecResult,
    WireFormatError, WireFormatErrorV,
};

verus! {

/// Flag bit naming the `size` field.
pub const ATTR_FLAG_SIZE: u32 = 0x00000001;

/// Flag bit naming the `owner` field.
pub const ATTR_FLAG_OWNER: u32 = 0x00000002;

/// Flag bit naming the `perms` field.
pub const ATTR_FLAG_PERMS: u32 = 0x00000004;

/// Flag bit naming the `time` field.
pub const ATTR_FLAG_TIME: u32 = 0x00000008;

/// Owner information of the file: Unix-like user and group ids.
#[derive(Debug, Clone, Copy, PartialEq, Eq, Hash, Structural)]
pub struct Owner {
    /// Unix-like ID of the user
    pub uid: u32,
    /// Unix-like ID of the group
    pub gid: u32,
}

/// Access and modification time of the file, as seconds from
/// Jan 1, 1970 in UTC.
#[derive(Debug, Clone, Copy, PartialEq, Eq, Hash, Structural)]
pub struct Time {
    /// Access time
    pub atime: u32,
    /// Modification time
    pub mtime: u32,
}

/// Attributes of a file or a directory.
///
/// The same encoding is used both when returning file attributes from
/// the server and when sending file attributes to the server.  Each
/// field may be present or absent independently; the wire form prefixes
/// a bitmask naming the present fields.
#[derive(Debug, Clone, Copy, PartialEq, Eq, Hash, Structural)]
pub struct Attrs {
    /// Size of the file (optional)
    pub size: Option<u64>,
    /// Owner of the file (optional)
    pub owner: Option<Owner>,
    /// Permissions of the file (optional)
    pub perms: Option<u32>,
    /// Access and Modification time of the file (optional)
    pub time: Option<Time>,
}

impl Attrs {
    /// Attributes with every field absent.
    pub fn new() -> (r: Self)
        ensures
            r == (Attrs { size: None, owner: None, perms: None, time: None }),
    {
        Attrs { size: None, owner: None, perms: None, time: None }
    }
}

impl Default for Attrs {
    /// Same as [`Attrs::new`]: every field absent.
    fn default() -> (r: Self)
        ensures
            r == (Attrs { size: None, owner: None, perms: None, time: None }),
    {
        Attrs { size: None, owner: None, perms: None, time: None }
    }
}

/// The flag mask the encoder writes: one bit for each present field.
/// The four flag bits are distinct powers of two, so the mask is their
/// sum.
pub open spec fn attr_flags(a: Attrs) -> u32 {
    ((if a.size is Some {
        ATTR_FLAG_SIZE
    } else {
        0
    }) + (if a.owner is Some {
        ATTR_FLAG_OWNER
    } else {
        0
    }) + (if a.perms is Some {
        ATTR_FLAG_PERMS
    } else {
        0
    }) + (if a.time is Some {
        ATTR_FLAG_TIME
    } else {
        0
    })) as u32
}

/// Encoding of the optional `size` field.
pub open spec fn enc_attr_size(o: Option<u64>) -> Seq<u8> {
    match o {
        Some(x) => enc_u64(x),
        None => Seq::empty(),
    }
}

/// Encoding of the optional `owner` field.
pub open spec fn enc_attr_owner(o: Option<Owner>) -> Seq<u8> {
    match o {
        Some(x) => enc_u32(x.uid) + enc_u32(x.gid),
        None => Seq::empty(),
    }
}

/// Encoding of the optional `perms` field.
pub open spec fn enc_attr_perms(o: Option<u32>) -> Seq<u8> {
    match o {
        Some(x) => enc_u32(x),
        None => Seq::empty(),
    }
}

/// Encoding of the optional `time` field.
pub open spec fn enc_attr_time(o: Option<Time>) -> Seq<u8> {
    match o {
        Some(x) => enc_u32(x.atime) + enc_u32(x.mtime),
        None => Seq::empty(),
    }
}

/// Encoding of an attribute record: the flag mask, then the present
/// fields in order.
pub open spec fn enc_attrs(a: Attrs) -> Seq<u8> {
    enc_u32(attr_flags(a)) + enc_attr_size(a.size) + enc_attr_owner(a.owner) + enc_attr_perms(
        a.perms,
    ) + enc_attr_time(a.time)
}

/// True of a flag mask whose bit for the given power of two is set.
pub open spec fn flag_set(flags: u32, bit: u32) -> bool {
    (flags / bit) % 2 == 1
}

/// Spec-level decoder of the optional `size` field.
pub open spec fn dec_attr_size(present: bool, b: Seq<u8>) -> DecResult<Option<u64>> {
    if present {
        match dec_u64(b) {
            Ok((x, rest)) => Ok((Some(x), rest)),
            Err(e) => Err(e),
        }
    } else {
        Ok((None, b))
    }
}

/// Spec-level decoder of the optional `owner` field.
pub open spec fn dec_attr_owner(present: bool, b: Seq<u8>) -> DecResult<Option<Owner>> {
    if present {
        match dec_u32(b) {
            Ok((uid, r1)) => match dec_u32(r1) {
                Ok((gid, r2)) => Ok((Some(Owner { uid, gid }), r2)),
                Err(e) => Err(e),
            },
            Err(e) => Err(e),
        }
    } else {
        Ok((None, b))
    }
}

/// Spec-level decoder of the optional `perms` field.
pub open spec fn dec_attr_perms(present: bool, b: Seq<u8>) -> DecResult<Option<u32>> {
    if present {
        match dec_u32(b) {
            Ok((x, rest)) => Ok((Some(x), rest)),
            Err(e) => Err(e),
        }
    } else {
        Ok((None, b))
    }
}

/// Spec-level decoder of the optional `time` field.
pub open spec fn dec_attr_time(present: bool, b: Seq<u8>) -> DecResult<Option<Time>> {
    if present {
        match dec_u32(b) {
            Ok((atime, r1)) => match dec_u32(r1) {
                Ok((mtime, r2)) => Ok((Some(Time { atime, mtime }), r2)),
                Err(e) => Err(e),
            },
            Err(e) => Err(e),
        }
    } else {
        Ok((None, b))
    }
}

/// Spec-level decoder of the four optional fields, each read when the
/// matching flag names it.
pub open spec fn dec_attr_fields(
    with_size: bool,
    with_owner: bool,
    with_perms: bool,
    with_time: bool,
    b: Seq<u8>,
) -> DecResult<Attrs> {
    match dec_attr_size(with_size, b) {
        Ok((size, r1)) => match dec_attr_owner(with_owner, r1) {
            Ok((owner, r2)) => match dec_attr_perms(with_perms, r2) {
                Ok((perms, r3)) => match dec_attr_time(with_time, r3) {
                    Ok((time, r4)) => Ok((Attrs { size, owner, perms, time }, r4)),
                    Err(e) => Err(e),
                },
                Err(e) => Err(e),
            },
            Err(e) => Err(e),
        },
        Err(e) => Err(e),
    }
}

/// Spec-level decoder of an attribute record.  A mask with a bit
/// outside the four known flags fails; otherwise the fields named by
/// the mask are read in order.
pub open spec fn dec_attrs(b: Seq<u8>) -> DecResult<Attrs> {
    match dec_u32(b) {
        Ok((flags, r0)) => {
            if flags >= 16 {
                Err(WireFormatErrorV::Custom("invalid attr"@))
            } else {
                dec_attr_fields(
                    flag_set(flags, ATTR_FLAG_SIZE),
                    flag_set(flags, ATTR_FLAG_OWNER),
                    flag_set(flags, ATTR_FLAG_PERMS),
                    flag_set(flags, ATTR_FLAG_TIME),
                    r0,
                )
            }
        },
        Err(e) => Err(e),
    }
}

impl Attrs {
    /// Appends the wire encoding of the record to `buf`.
    pub fn encode(&self, buf: &mut Vec<u8>)
        ensures
            final(buf)@ == old(buf)@ + enc_attrs(*self),
    {
        let mut flags: u32 = 0;
        if self.size.is_some() {
            flags = flags + ATTR_FLAG_SIZE;
        }
        if self.owner.is_some() {
            flags = flags + ATTR_FLAG_OWNER;
        }
        if self.perms.is_some() {
            flags = flags + ATTR_FLAG_PERMS;
        }
        if self.time.is_some() {
            flags = flags + ATTR_FLAG_TIME;
        }
        put_u32(buf, flags);
        if let Some(size) = self.size {
            put_u64(buf, size);
        }
        if let Some(owner) = self.owner {
            put_u32(buf, owner.uid);
            put_u32(buf, owner.gid);
        }
        if let Some(perms) = self.perms {
            put_u32(buf, perms);
        }
        if let Some(time) = self.time {
            put_u32(buf, time.atime);
            put_u32(buf, time.mtime);
        }
        proof {
            assert(buf@ =~= old(buf)@ + enc_attrs(*self));
        }
    }

    /// Decodes an attribute record starting at `pos`, returning the
    /// record and the position one past its encoding.
    pub fn decode(buf: &[u8], pos: usize) -> (r: Result<(Attrs, usize), WireFormatError>)
        requires
            pos <= buf@.len(),
        ensures
            match r {
                Ok((a, end)) => {
                    &&& pos <= end <= buf@.len()
                    &&& dec_attrs(buf@.skip(pos as int)) == Ok::<_, WireFormatErrorV>((
                        a,
                        buf@.skip(end as int),
                    ))
                },
                Err(e) => dec_attrs(buf@.skip(pos as int)) == Err::<(Attrs, Seq<u8>), _>(e@),
            },
    {
        let (flags, p0) = match get_u32(buf, pos) {
            Ok(ok) => ok,
            Err(e) => {
                return Err(e);
            },
        };
        if flags >= 16 {
            return Err(WireFormatError::Custom(String::from_str("invalid attr")));
        }
        let (size, p1) = if (flags / ATTR_FLAG_SIZE) % 2 == 1 {
            match get_u64(buf, p0) {
                Ok((x, p)) => (Some(x), p),
                Err(e) => {
                    return Err(e);
                },
            }
        } else {
            (None, p0)
        };
        let (owner, p2) = if (flags / ATTR_FLAG_OWNER) % 2 == 1 {
            let (uid, pa) = match get_u32(buf, p1) {
                Ok(ok) => ok,
                Err(e) => {
                    return Err(e);
                },
            };
            let (gid, pb) = match get_u32(buf, pa) {
                Ok(ok) => ok,
                Err(e) => {
                    return Err(e);
                },
            };
            (Some(Owner { uid, gid }), pb)
        } else {
            (None, p1)
        };
        let (perms, p3) = if (flags / ATTR_FLAG_PERMS) % 2 == 1 {
            match get_u32(buf, p2) {
                Ok((x, p)) => (Some(x), p),
                Err(e) => {
                    return Err(e);
                },
            }
        } else {
            (None, p2)
        };
        let (time, p4) = if (flags / ATTR_FLAG_TIME) % 2 == 1 {
            let (atime, pa) = match get_u32(buf, p3) {
                Ok(ok) => ok,
                Err(e) => {
                    return Err(e);
                },
            };
            let (mtime, pb) = match get_u32(buf, pa) {
                Ok(ok) => ok,
                Err(e) => {
                    return Err(e);
                },
            };
            (Some(Time { atime, mtime }), pb)
        } else {
            (None, p3)
        };
        Ok((Attrs { size, owner, perms, time }, p4))
    }
}

/// The flag mask written by the encoder names exactly the fields that
/// are present: decoding the first four bytes of an encoded record
/// gives the mask, and each flag bit is set if and only if the matching
/// field is present.
pub proof fn lemma_attrs_flags_exact(a: Attrs)
    ensures
        dec_u32(enc_attrs(a)) matches Ok((flags, _)) && flags == attr_flags(a),
        flag_set(attr_flags(a), ATTR_FLAG_SIZE) <==> a.size is Some,
        flag_set(attr_flags(a), ATTR_FLAG_OWNER) <==> a.owner is Some,
        flag_set(attr_flags(a), ATTR_FLAG_PERMS) <==> a.perms is Some,
        flag_set(attr_flags(a), ATTR_FLAG_TIME) <==> a.time is Some,
{
    let tail = enc_attr_size(a.size) + enc_attr_owner(a.owner) + enc_attr_perms(a.perms)
        + enc_attr_time(a.time);
    assert(enc_attrs(a) =~= enc_u32(attr_flags(a)) + tail);
    crate::wire::lemma_dec_enc_u32(attr_flags(a), tail);
}

/// A flag mask with any bit outside the four known flags set is
/// rejected: decoding fails with the codec's `invalid attr` error.
pub proof fn lemma_attrs_unknown_flags_rejected(b: Seq<u8>)
    requires
        dec_u32(b) matches Ok((flags, _)) && flags >= 16,
    ensures
        dec_attrs(b) == Err::<(Attrs, Seq<u8>), _>(WireFormatErrorV::Custom("invalid attr"@)),
{
}

/// Codec round trip for attribute records: decoding an encoded record
/// yields the record back and leaves the rest of the input untouched.
/// The four flag bits of an encoder-written mask, read back by
/// [`flag_set`], name exactly the present fields.
proof fn lemma_attr_flags_bits(a: Attrs)
    ensures
        attr_flags(a) < 16,
        flag_set(attr_flags(a), ATTR_FLAG_SIZE) <==> a.size is Some,
        flag_set(attr_flags(a), ATTR_FLAG_OWNER) <==> a.owner is Some,
        flag_set(attr_flags(a), ATTR_FLAG_PERMS) <==> a.perms is Some,
        flag_set(attr_flags(a), ATTR_FLAG_TIME) <==> a.time is Some,
{
}

/// Round trip of one optional field: decoding what the field encoder
/// wrote yields the field back.
proof fn lemma_dec_enc_attr_size(o: Option<u64>, rest: Seq<u8>)
    ensures
        dec_attr_size(o is Some, enc_attr_size(o) + rest) == Ok::<_, WireFormatErrorV>((o, rest)),
{
    if let Some(x) = o {
        crate::wire::lemma_dec_enc_u64(x, rest);
    } else {
        assert(enc_attr_size(o) + rest =~= rest);
    }
}

/// Round trip of one optional field: decoding what the field encoder
/// wrote yields the field back.
proof fn lemma_dec_enc_attr_owner(o: Option<Owner>, rest: Seq<u8>)
    ensures
        dec_attr_owner(o is Some, enc_attr_owner(o) + rest) == Ok::<_, WireFormatErrorV>((
            o,
            rest,
        )),
{
    if let Some(x) = o {
        assert(enc_attr_owner(o) + rest =~= enc_u32(x.uid) + (enc_u32(x.gid) + rest));
        crate::wire::lemma_dec_enc_u32(x.uid, enc_u32(x.gid) + rest);
        crate::wire::lemma_dec_enc_u32(x.gid, rest);
        assert((Owner { uid: x.uid, gid: x.gid }) == x);
    } else {
        assert(enc_attr_owner(o) + rest =~= rest);
    }
}

/// Round trip of one optional field: decoding what the field encoder
/// wrote yields the field back.
proof fn lemma_dec_enc_attr_perms(o: Option<u32>, rest: Seq<u8>)
    ensures
        dec_attr_perms(o is Some, enc_attr_perms(o) + rest) == Ok::<_, WireFormatErrorV>((
            o,
            rest,
        )),
{
    if let Some(x) = o {
        crate::wire::lemma_dec_enc_u32(x, rest);
    } else {
        assert(enc_attr_perms(o) + rest =~= rest);
    }
}

/// Round trip of one optional field: decoding what the field encoder
/// wrote yields the field back.
proof fn lemma_dec_enc_attr_time(o: Option<Time>, rest: Seq<u8>)
    ensures
        dec_attr_time(o is Some, enc_attr_time(o) + rest) == Ok::<_, WireFormatErrorV>((o, rest)),
{
    if let Some(x) = o {
        assert(enc_attr_time(o) + rest =~= enc_u32(x.atime) + (enc_u32(x.mtime) + rest));
        crate::wire::lemma_dec_enc_u32(x.atime, enc_u32(x.mtime) + rest);
        crate::wire::lemma_dec_enc_u32(x.mtime, rest);
        assert((Time { atime: x.atime, mtime: x.mtime }) == x);
    } else {
        assert(enc_attr_time(o) + rest =~= rest);
    }
}

/// Round trip of the four optional fields read in order.
proof fn lemma_dec_enc_attr_fields(a: Attrs, rest: Seq<u8>)
    ensures
        dec_attr_fields(
            a.size is Some,
            a.owner is Some,
            a.perms is Some,
            a.time is Some,
            enc_attr_size(a.size) + enc_attr_owner(a.owner) + enc_attr_perms(a.perms)
                + enc_attr_time(a.time) + rest,
        ) == Ok::<_, WireFormatErrorV>((a, rest)),
{
    let es = enc_attr_size(a.size);
    let eo = enc_attr_owner(a.owner);
    let ep = enc_attr_perms(a.perms);
    let et = enc_attr_time(a.time);
    let t0 = es + eo + ep + et + rest;
    let t1 = eo + ep + et + rest;
    let t2 = ep + et + rest;
    let t3 = et + rest;
    vstd::seq_lib::lemma_concat_associative(es + eo + ep, et, rest);
    vstd::seq_lib::lemma_concat_associative(es + eo, ep, et + rest);
    vstd::seq_lib::lemma_concat_associative(es, eo, ep + (et + rest));
    vstd::seq_lib::lemma_concat_associative(eo, ep, et + rest);
    vstd::seq_lib::lemma_concat_associative(eo + ep, et, rest);
    vstd::seq_lib::lemma_concat_associative(ep, et, rest);
    assert(t0 == es + t1);
    assert(t1 == eo + t2);
    assert(t2 == ep + t3);
    lemma_dec_enc_attr_size(a.size, t1);
    lemma_dec_enc_attr_owner(a.owner, t2);
    lemma_dec_enc_attr_perms(a.perms, t3);
    lemma_dec_enc_attr_time(a.time, rest);
    assert(dec_attr_size(a.size is Some, t0) == Ok::<_, WireFormatErrorV>((a.size, t1)));
    assert(dec_attr_owner(a.owner is Some, t1) == Ok::<_, WireFormatErrorV>((a.owner, t2)));
    assert(dec_attr_perms(a.perms is Some, t2) == Ok::<_, WireFormatErrorV>((a.perms, t3)));
    assert(dec_attr_time(a.time is Some, t3) == Ok::<_, WireFormatErrorV>((a.time, rest)));
    assert((Attrs { size: a.size, owner: a.owner, perms: a.perms, time: a.time }) == a);
}

/// Codec round trip for attribute records: decoding an encoded record
/// yields the record back and leaves the rest of the input untouched.
pub proof fn lemma_dec_enc_attrs(a: Attrs, rest: Seq<u8>)
    ensures
        dec_attrs(enc_attrs(a) + rest) == Ok::<_, WireFormatErrorV>((a, rest)),
{
    let flags = attr_flags(a);
    lemma_attr_flags_bits(a);
    let t0 = enc_attr_size(a.size) + enc_attr_owner(a.owner) + enc_attr_perms(a.perms)
        + enc_attr_time(a.time) + rest;
    assert(enc_attrs(a) + rest =~= enc_u32(flags) + t0);
    crate::wire::lemma_dec_enc_u32(flags, t0);
    lemma_dec_enc_attr_fields(a, rest);
}

} // verus!
