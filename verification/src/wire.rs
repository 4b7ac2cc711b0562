//! Primitives of the wire grammar: big-endian integers and
//! 32-bit-length-prefixed byte and text strings.
//!
//! Every primitive comes in three parts: a spec-level encoder
//! (`enc_*`) mapping a value to the byte sequence it puts on the wire,
//! a spec-level decoder (`dec_*`) mapping a byte sequence to the value
//! and the unconsumed tail, and the executable reader and writer proved
//! against them.  The decoders are total functions, so laws such as
//! `dec_*(enc_*(v) + rest) == Ok((v, rest))` are stated and proved once
//! at the spec level and reused by every message codec.

use vstd::prelude::*;
use vstd::utf8::{decode_utf8, encode_utf8, valid_utf8};

verus! {

/// Error while encoding or decoding a message.
#[derive(Debug, Clone, PartialEq, Eq, Hash)]
pub enum WireFormatError {
    /// The message was too small for the data it appears to be
    NotEnoughData,
    /// Unsupported character set
    Unsupported,
    /// Invalid character found
    InvalidChar,
    /// Custom error
    Custom(String),
}

/// Spec-level image of [`WireFormatError`]: the custom message is kept
/// as a character sequence.
pub enum WireFormatErrorV {
    NotEnoughData,
    Unsupported,
    InvalidChar,
    Custom(Seq<char>),
}

impl View for WireFormatError {
    type V = WireFormatErrorV;

    open spec fn view(&self) -> WireFormatErrorV {
        match self {
            WireFormatError::NotEnoughData => WireFormatErrorV::NotEnoughData,
            WireFormatError::Unsupported => WireFormatErrorV::Unsupported,
            WireFormatError::InvalidChar => WireFormatErrorV::InvalidChar,
            WireFormatError::Custom(m) => WireFormatErrorV::Custom(m@),
        }
    }
}

/// Result of a spec-level decoder: the decoded value and the unconsumed
/// tail of the input, or the error the executable decoder reports.
pub type DecResult<T> = Result<(T, Seq<u8>), WireFormatErrorV>;

/// Byte strings carry their length in a 32-bit prefix, so only values
/// shorter than `2^32` bytes can be put on the wire.
pub const MAX_BYTES_LEN: usize = 0xffff_ffff;

/*
 * Fixed-width big-endian integers
 */

/// The one-byte encoding of a `u8`.
pub open spec fn enc_u8(x: u8) -> Seq<u8> {
    seq![x]
}

/// The four-byte big-endian encoding of a `u32`.
pub open spec fn enc_u32(x: u32) -> Seq<u8> {
    seq![(x >> 24) as u8, (x >> 16) as u8, (x >> 8) as u8, x as u8]
}

/// The eight-byte big-endian encoding of a `u64`.
pub open spec fn enc_u64(x: u64) -> Seq<u8> {
    seq![
        (x >> 56) as u8,
        (x >> 48) as u8,
        (x >> 40) as u8,
        (x >> 32) as u8,
        (x >> 24) as u8,
        (x >> 16) as u8,
        (x >> 8) as u8,
        x as u8,
    ]
}

/// The `u32` denoted by four bytes in big-endian order.
pub open spec fn be_u32(b0: u8, b1: u8, b2: u8, b3: u8) -> u32 {
    ((b0 as u32) << 24) | ((b1 as u32) << 16) | ((b2 as u32) << 8) | (b3 as u32)
}

/// The `u64` denoted by eight bytes in big-endian order.
pub open spec fn be_u64(b0: u8, b1: u8, b2: u8, b3: u8, b4: u8, b5: u8, b6: u8, b7: u8) -> u64 {
    ((b0 as u64) << 56) | ((b1 as u64) << 48) | ((b2 as u64) << 40) | ((b3 as u64) << 32)
        | ((b4 as u64) << 24) | ((b5 as u64) << 16) | ((b6 as u64) << 8) | (b7 as u64)
}

pub open spec fn dec_u8(b: Seq<u8>) -> DecResult<u8> {
    if b.len() < 1 {
        Err(WireFormatErrorV::NotEnoughData)
    } else {
        Ok((b[0], b.skip(1)))
    }
}

pub open spec fn dec_u32(b: Seq<u8>) -> DecResult<u32> {
    if b.len() < 4 {
        Err(WireFormatErrorV::NotEnoughData)
    } else {
        Ok((be_u32(b[0], b[1], b[2], b[3]), b.skip(4)))
    }
}

pub open spec fn dec_u64(b: Seq<u8>) -> DecResult<u64> {
    if b.len() < 8 {
        Err(WireFormatErrorV::NotEnoughData)
    } else {
        Ok((be_u64(b[0], b[1], b[2], b[3], b[4], b[5], b[6], b[7]), b.skip(8)))
    }
}

/*
 * Length-prefixed byte strings and text strings
 */

/// Encoding of a byte string: 32-bit length, then the bytes themselves.
pub open spec fn enc_bytes(b: Seq<u8>) -> Seq<u8>
    recommends
        b.len() <= MAX_BYTES_LEN,
{
    enc_u32(b.len() as u32) + b
}

/// Encoding of a text string: its UTF-8 bytes as a byte string.
pub open spec fn enc_str(s: Seq<char>) -> Seq<u8>
    recommends
        encode_utf8(s).len() <= MAX_BYTES_LEN,
{
    enc_bytes(encode_utf8(s))
}

pub open spec fn dec_bytes(b: Seq<u8>) -> DecResult<Seq<u8>> {
    match dec_u32(b) {
        Ok((len, rest)) => {
            if rest.len() < len {
                Err(WireFormatErrorV::NotEnoughData)
            } else {
                Ok((rest.take(len as int), rest.skip(len as int)))
            }
        },
        Err(e) => Err(e),
    }
}

pub open spec fn dec_str(b: Seq<u8>) -> DecResult<Seq<char>> {
    match dec_bytes(b) {
        Ok((payload, rest)) => {
            if valid_utf8(payload) {
                Ok((decode_utf8(payload), rest))
            } else {
                Err(WireFormatErrorV::InvalidChar)
            }
        },
        Err(e) => Err(e),
    }
}

/*
 * Round-trip laws of the primitives
 */

/// Decoding a one-byte encoding yields the value back and leaves the rest.
pub proof fn lemma_dec_enc_u8(x: u8, rest: Seq<u8>)
    ensures
        dec_u8(enc_u8(x) + rest) == Ok::<_, WireFormatErrorV>((x, rest)),
{
    assert((enc_u8(x) + rest).skip(1) =~= rest);
}

/// Decoding a big-endian `u32` encoding yields the value back and leaves the rest.
pub proof fn lemma_dec_enc_u32(x: u32, rest: Seq<u8>)
    ensures
        dec_u32(enc_u32(x) + rest) == Ok::<_, WireFormatErrorV>((x, rest)),
{
    let b = enc_u32(x) + rest;
    assert(be_u32((x >> 24) as u8, (x >> 16) as u8, (x >> 8) as u8, x as u8) == x)
        by (bit_vector);
    assert(b.skip(4) =~= rest);
}

/// Decoding a big-endian `u64` encoding yields the value back and leaves the rest.
pub proof fn lemma_dec_enc_u64(x: u64, rest: Seq<u8>)
    ensures
        dec_u64(enc_u64(x) + rest) == Ok::<_, WireFormatErrorV>((x, rest)),
{
    let b = enc_u64(x) + rest;
    assert(be_u64(
        (x >> 56) as u8,
        (x >> 48) as u8,
        (x >> 40) as u8,
        (x >> 32) as u8,
        (x >> 24) as u8,
        (x >> 16) as u8,
        (x >> 8) as u8,
        x as u8,
    ) == x) by (bit_vector);
    assert(b.skip(8) =~= rest);
}

/// Decoding an encoded byte string yields the bytes back and leaves the rest.
pub proof fn lemma_dec_enc_bytes(s: Seq<u8>, rest: Seq<u8>)
    requires
        s.len() <= MAX_BYTES_LEN,
    ensures
        dec_bytes(enc_bytes(s) + rest) == Ok::<_, WireFormatErrorV>((s, rest)),
{
    let b = enc_bytes(s) + rest;
    assert(b =~= enc_u32(s.len() as u32) + (s + rest));
    lemma_dec_enc_u32(s.len() as u32, s + rest);
    assert((s + rest).take(s.len() as int) =~= s);
    assert((s + rest).skip(s.len() as int) =~= rest);
}

/// Decoding an encoded text string yields the characters back and leaves the rest.
pub proof fn lemma_dec_enc_str(s: Seq<char>, rest: Seq<u8>)
    requires
        encode_utf8(s).len() <= MAX_BYTES_LEN,
    ensures
        dec_str(enc_str(s) + rest) == Ok::<_, WireFormatErrorV>((s, rest)),
{
    lemma_dec_enc_bytes(encode_utf8(s), rest);
    broadcast use vstd::utf8::encode_utf8_valid_utf8;
    broadcast use vstd::utf8::encode_utf8_decode_utf8;
}

/// Re-encoding the `u32` denoted by four bytes gives the same four
/// bytes back.
pub proof fn lemma_enc_be_u32(b0: u8, b1: u8, b2: u8, b3: u8)
    ensures
        enc_u32(be_u32(b0, b1, b2, b3)) == seq![b0, b1, b2, b3],
{
    let x = be_u32(b0, b1, b2, b3);
    assert((x >> 24) as u8 == b0 && (x >> 16) as u8 == b1 && (x >> 8) as u8 == b2 && x as u8
        == b3) by (bit_vector)
        requires
            x == ((b0 as u32) << 24) | ((b1 as u32) << 16) | ((b2 as u32) << 8) | (b3 as u32),
    ;
    assert(enc_u32(x) =~= seq![b0, b1, b2, b3]);
}

/*
 * Executable writers
 */

/// Appends the encoding of `x` to `buf`.
pub fn put_u8(buf: &mut Vec<u8>, x: u8)
    ensures
        final(buf)@ == old(buf)@ + enc_u8(x),
{
    buf.push(x);
    proof {
        assert(buf@ =~= old(buf)@ + enc_u8(x));
    }
}

/// Appends the big-endian encoding of `x` to `buf`.
pub fn put_u32(buf: &mut Vec<u8>, x: u32)
    ensures
        final(buf)@ == old(buf)@ + enc_u32(x),
{
    buf.push((x >> 24) as u8);
    buf.push((x >> 16) as u8);
    buf.push((x >> 8) as u8);
    buf.push(x as u8);
    proof {
        assert(buf@ =~= old(buf)@ + enc_u32(x));
    }
}

/// Appends the big-endian encoding of `x` to `buf`.
pub fn put_u64(buf: &mut Vec<u8>, x: u64)
    ensures
        final(buf)@ == old(buf)@ + enc_u64(x),
{
    buf.push((x >> 56) as u8);
    buf.push((x >> 48) as u8);
    buf.push((x >> 40) as u8);
    buf.push((x >> 32) as u8);
    buf.push((x >> 24) as u8);
    buf.push((x >> 16) as u8);
    buf.push((x >> 8) as u8);
    buf.push(x as u8);
    proof {
        assert(buf@ =~= old(buf)@ + enc_u64(x));
    }
}

/// Appends the length-prefixed encoding of `b` to `buf`.
pub fn put_bytes(buf: &mut Vec<u8>, b: &[u8])
    requires
        b@.len() <= MAX_BYTES_LEN,
    ensures
        final(buf)@ == old(buf)@ + enc_bytes(b@),
{
    put_u32(buf, b.len() as u32);
    buf.extend_from_slice(b);
    proof {
        assert(buf@ =~= old(buf)@ + enc_bytes(b@));
    }
}

/// Appends the length-prefixed UTF-8 encoding of `s` to `buf`.
pub fn put_str(buf: &mut Vec<u8>, s: &str)
    requires
        encode_utf8(s@).len() <= MAX_BYTES_LEN,
    ensures
        final(buf)@ == old(buf)@ + enc_str(s@),
{
    let bytes = s.as_bytes();
    put_bytes(buf, bytes);
}

/*
 * Executable readers
 *
 * Each reader takes the input buffer and the current position, and
 * returns the decoded value with the position one past its encoding.
 * The result is exactly what the spec-level decoder says of the bytes
 * from the current position on.
 */

/// Reads one byte.
pub fn get_u8(buf: &[u8], pos: usize) -> (r: Result<(u8, usize), WireFormatError>)
    requires
        pos <= buf@.len(),
    ensures
        match r {
            Ok((x, end)) => {
                &&& end == pos + 1 <= buf@.len()
                &&& dec_u8(buf@.skip(pos as int)) == Ok::<_, WireFormatErrorV>((
                    x,
                    buf@.skip(end as int),
                ))
            },
            Err(e) => dec_u8(buf@.skip(pos as int)) == Err::<(u8, Seq<u8>), _>(e@),
        },
{
    if pos < buf.len() {
        let x = buf[pos];
        proof {
            assert(buf@.skip(pos as int).skip(1) =~= buf@.skip(pos + 1));
        }
        Ok((x, pos + 1))
    } else {
        Err(WireFormatError::NotEnoughData)
    }
}

/// Reads a big-endian `u32`.
pub fn get_u32(buf: &[u8], pos: usize) -> (r: Result<(u32, usize), WireFormatError>)
    requires
        pos <= buf@.len(),
    ensures
        match r {
            Ok((x, end)) => {
                &&& end == pos + 4 <= buf@.len()
                &&& dec_u32(buf@.skip(pos as int)) == Ok::<_, WireFormatErrorV>((
                    x,
                    buf@.skip(end as int),
                ))
            },
            Err(e) => dec_u32(buf@.skip(pos as int)) == Err::<(u32, Seq<u8>), _>(e@),
        },
{
    if buf.len() - pos >= 4 {
        let x = ((buf[pos] as u32) << 24) | ((buf[pos + 1] as u32) << 16)
            | ((buf[pos + 2] as u32) << 8) | (buf[pos + 3] as u32);
        proof {
            assert(buf@.skip(pos as int).skip(4) =~= buf@.skip(pos + 4));
        }
        Ok((x, pos + 4))
    } else {
        Err(WireFormatError::NotEnoughData)
    }
}

/// Reads a big-endian `u64`.
pub fn get_u64(buf: &[u8], pos: usize) -> (r: Result<(u64, usize), WireFormatError>)
    requires
        pos <= buf@.len(),
    ensures
        match r {
            Ok((x, end)) => {
                &&& end == pos + 8 <= buf@.len()
                &&& dec_u64(buf@.skip(pos as int)) == Ok::<_, WireFormatErrorV>((
                    x,
                    buf@.skip(end as int),
                ))
            },
            Err(e) => dec_u64(buf@.skip(pos as int)) == Err::<(u64, Seq<u8>), _>(e@),
        },
{
    if buf.len() - pos >= 8 {
        let x = ((buf[pos] as u64) << 56) | ((buf[pos + 1] as u64) << 48)
            | ((buf[pos + 2] as u64) << 40) | ((buf[pos + 3] as u64) << 32)
            | ((buf[pos + 4] as u64) << 24) | ((buf[pos + 5] as u64) << 16)
            | ((buf[pos + 6] as u64) << 8) | (buf[pos + 7] as u64);
        proof {
            assert(buf@.skip(pos as int).skip(8) =~= buf@.skip(pos + 8));
        }
        Ok((x, pos + 8))
    } else {
        Err(WireFormatError::NotEnoughData)
    }
}

/// Reads a length-prefixed byte string.
pub fn get_bytes(buf: &[u8], pos: usize) -> (r: Result<(Vec<u8>, usize), WireFormatError>)
    requires
        pos <= buf@.len(),
    ensures
        match r {
            Ok((b, end)) => {
                &&& pos <= end <= buf@.len()
                &&& dec_bytes(buf@.skip(pos as int)) == Ok::<_, WireFormatErrorV>((
                    b@,
                    buf@.skip(end as int),
                ))
            },
            Err(e) => dec_bytes(buf@.skip(pos as int)) == Err::<(Seq<u8>, Seq<u8>), _>(e@),
        },
{
    let (len, mid) = match get_u32(buf, pos) {
        Ok(ok) => ok,
        Err(e) => {
            return Err(e);
        },
    };
    if (buf.len() - mid) as u64 >= len as u64 {
        let end = mid + (len as usize);
        let b = vstd::slice::slice_to_vec(vstd::slice::slice_subrange(buf, mid, end));
        proof {
            assert(buf@.skip(mid as int).take(len as int) =~= buf@.subrange(
                mid as int,
                end as int,
            ));
            assert(buf@.skip(mid as int).skip(len as int) =~= buf@.skip(end as int));
        }
        Ok((b, end))
    } else {
        Err(WireFormatError::NotEnoughData)
    }
}

/// Relies on `String::from_utf8`: it succeeds exactly on valid UTF-8
/// input, and the returned string is the one whose UTF-8 encoding is
/// the input byte sequence.
#[verifier::external_body]
fn string_from_utf8(v: Vec<u8>) -> (r: Option<String>)
    ensures
        match r {
            Some(s) => valid_utf8(v@) && encode_utf8(s@) == v@,
            None => !valid_utf8(v@),
        },
{
    String::from_utf8(v).ok()
}

/// Reads a length-prefixed text string, decoding it as UTF-8.
pub fn get_str(buf: &[u8], pos: usize) -> (r: Result<(String, usize), WireFormatError>)
    requires
        pos <= buf@.len(),
    ensures
        match r {
            Ok((s, end)) => {
                &&& pos <= end <= buf@.len()
                &&& dec_str(buf@.skip(pos as int)) == Ok::<_, WireFormatErrorV>((
                    s@,
                    buf@.skip(end as int),
                ))
            },
            Err(e) => dec_str(buf@.skip(pos as int)) == Err::<(Seq<char>, Seq<u8>), _>(e@),
        },
{
    let (b, end) = match get_bytes(buf, pos) {
        Ok(ok) => ok,
        Err(e) => {
            return Err(e);
        },
    };
    let ghost payload = b@;
    match string_from_utf8(b) {
        Some(s) => {
            proof {
                vstd::utf8::encode_utf8_decode_utf8(s@);
            }
            Ok((s, end))
        },
        None => Err(WireFormatError::InvalidChar),
    }
}

} // verus!
