//! Status of an operation: the closed set of server status codes and
//! the status record carrying a code, an error message and a language
//! tag.

use vstd::prelude::*;
use vstd::utf8::encode_utf8;

use crate::wire::{
    dec_bytes, dec_u32, enc_bytes, enc_u32, get_bytes, get_u32, put_bytes, put_u32, DecResult,
    WireFormatError, WireFormatErrorV, MAX_BYTES_LEN,
};

verus! {

/// Status code of an operation.
///
/// `Okay` indicates that the operation has been successful.  All other
/// values indicate errors.
#[derive(Debug, Clone, Copy, PartialEq, Eq, Hash, Structural)]
pub enum StatusCode {
    /// Successful completion of the operation.
    Okay,
    /// End-of-file condition: no more data in a file, or no more
    /// entries in a directory listing.
    Eof,
    /// A reference was made to a file which should exist but does not.
    NoSuchFile,
    /// The authenticated user does not have sufficient permissions.
    PermissionDenied,
    /// A generic catch-all error.
    Failure,
    /// A badly formatted packet or protocol incompatibility.
    BadMessage,
    /// Pseudo-error: the client has no connection to the server.
    /// Generated locally, never returned by servers.
    NoConnection,
    /// Pseudo-error: the connection to the server has been lost.
    /// Generated locally, never returned by servers.
    ConnectionLost,
    /// The operation is not supported by the server.
    OpUnsupported,
}

/// The numeric value of a status code on the wire.
pub open spec fn status_code_num(c: StatusCode) -> u32 {
    match c {
        StatusCode::Okay => 0,
        StatusCode::Eof => 1,
        StatusCode::NoSuchFile => 2,
        StatusCode::PermissionDenied => 3,
        StatusCode::Failure => 4,
        StatusCode::BadMessage => 5,
        StatusCode::NoConnection => 6,
        StatusCode::ConnectionLost => 7,
        StatusCode::OpUnsupported => 8,
    }
}

/// The status code denoted by a numeric wire value at most 8.
pub open spec fn status_code_of(x: u32) -> StatusCode
    recommends
        x <= 8,
{
    if x == 0 {
        StatusCode::Okay
    } else if x == 1 {
        StatusCode::Eof
    } else if x == 2 {
        StatusCode::NoSuchFile
    } else if x == 3 {
        StatusCode::PermissionDenied
    } else if x == 4 {
        StatusCode::Failure
    } else if x == 5 {
        StatusCode::BadMessage
    } else if x == 6 {
        StatusCode::NoConnection
    } else if x == 7 {
        StatusCode::ConnectionLost
    } else {
        StatusCode::OpUnsupported
    }
}

/// Encoding of a status code: its numeric value, big-endian.
pub open spec fn enc_status_code(c: StatusCode) -> Seq<u8> {
    enc_u32(status_code_num(c))
}

/// Spec-level decoder of a status code.  A numeric value outside the
/// closed set is an unknown discriminator.
pub open spec fn dec_status_code(b: Seq<u8>) -> DecResult<StatusCode> {
    match dec_u32(b) {
        Ok((x, rest)) => {
            if x <= 8 {
                Ok((status_code_of(x), rest))
            } else {
                Err(WireFormatErrorV::Unsupported)
            }
        },
        Err(e) => Err(e),
    }
}

impl StatusCode {
    /// The numeric value of the code on the wire.
    pub fn to_u32(self) -> (r: u32)
        ensures
            r == status_code_num(self),
    {
        match self {
            StatusCode::Okay => 0,
            StatusCode::Eof => 1,
            StatusCode::NoSuchFile => 2,
            StatusCode::PermissionDenied => 3,
            StatusCode::Failure => 4,
            StatusCode::BadMessage => 5,
            StatusCode::NoConnection => 6,
            StatusCode::ConnectionLost => 7,
            StatusCode::OpUnsupported => 8,
        }
    }

    /// The code denoted by a numeric value, or the value itself when it
    /// lies outside the closed set.
    pub fn try_from(value: u32) -> (r: Result<StatusCode, u32>)
        ensures
            value <= 8 ==> r == Ok::<_, u32>(status_code_of(value)),
            value > 8 ==> r == Err::<StatusCode, _>(value),
    {
        if value == 0 {
            Ok(StatusCode::Okay)
        } else if value == 1 {
            Ok(StatusCode::Eof)
        } else if value == 2 {
            Ok(StatusCode::NoSuchFile)
        } else if value == 3 {
            Ok(StatusCode::PermissionDenied)
        } else if value == 4 {
            Ok(StatusCode::Failure)
        } else if value == 5 {
            Ok(StatusCode::BadMessage)
        } else if value == 6 {
            Ok(StatusCode::NoConnection)
        } else if value == 7 {
            Ok(StatusCode::ConnectionLost)
        } else if value == 8 {
            Ok(StatusCode::OpUnsupported)
        } else {
            Err(value)
        }
    }

    /// The human-readable label of the code, used as the default error
    /// message of a status built from the code alone.
    pub fn label(self) -> (r: String)
        ensures
            r@ == status_code_label(self),
    {
        match self {
            StatusCode::Okay => String::from_str("Ok"),
            StatusCode::Eof => String::from_str("Eof"),
            StatusCode::NoSuchFile => String::from_str("NoSuchFile"),
            StatusCode::PermissionDenied => String::from_str("PermissionDenied"),
            StatusCode::Failure => String::from_str("Failure"),
            StatusCode::BadMessage => String::from_str("BadMessage"),
            StatusCode::NoConnection => String::from_str("NoConnection"),
            StatusCode::ConnectionLost => String::from_str("ConnectionLost"),
            StatusCode::OpUnsupported => String::from_str("OpUnsupported"),
        }
    }
}

/// The human-readable label of a status code.
pub open spec fn status_code_label(c: StatusCode) -> Seq<char> {
    match c {
        StatusCode::Okay => "Ok"@,
        StatusCode::Eof => "Eof"@,
        StatusCode::NoSuchFile => "NoSuchFile"@,
        StatusCode::PermissionDenied => "PermissionDenied"@,
        StatusCode::Failure => "Failure"@,
        StatusCode::BadMessage => "BadMessage"@,
        StatusCode::NoConnection => "NoConnection"@,
        StatusCode::ConnectionLost => "ConnectionLost"@,
        StatusCode::OpUnsupported => "OpUnsupported"@,
    }
}

/// Round trip of a status code: decoding an encoded code yields the
/// code back and leaves the rest.
pub proof fn lemma_dec_enc_status_code(c: StatusCode, rest: Seq<u8>)
    ensures
        dec_status_code(enc_status_code(c) + rest) == Ok::<_, WireFormatErrorV>((c, rest)),
{
    crate::wire::lemma_dec_enc_u32(status_code_num(c), rest);
}

/// Status of an operation.
///
/// A status code `Okay` indicates that the operation has been
/// successful.  All other status codes indicate errors.  The error
/// message and language tag may be empty.
#[derive(Debug, Default, Clone, PartialEq, Eq, Hash)]
pub struct Status {
    /// Code of the status, see [`StatusCode`]
    pub code: StatusCode,
    /// Message of the error
    pub error: Vec<u8>,
    /// Language tag for the error message
    pub language: Vec<u8>,
}

impl Default for StatusCode {
    /// The successful code.
    fn default() -> (r: Self)
        ensures
            r == StatusCode::Okay,
    {
        StatusCode::Okay
    }
}

/// Spec-level image of a [`Status`].
pub struct StatusV {
    pub code: StatusCode,
    pub error: Seq<u8>,
    pub language: Seq<u8>,
}

impl View for Status {
    type V = StatusV;

    open spec fn view(&self) -> StatusV {
        StatusV { code: self.code, error: self.error@, language: self.language@ }
    }
}

/// A status fits on the wire when its byte strings carry 32-bit
/// lengths.
pub open spec fn status_wf(s: StatusV) -> bool {
    s.error.len() <= MAX_BYTES_LEN && s.language.len() <= MAX_BYTES_LEN
}

/// Encoding of a status: the code, the error message, the language tag.
pub open spec fn enc_status(s: StatusV) -> Seq<u8>
    recommends
        status_wf(s),
{
    enc_status_code(s.code) + enc_bytes(s.error) + enc_bytes(s.language)
}

/// Spec-level decoder of a status record.
pub open spec fn dec_status(b: Seq<u8>) -> DecResult<StatusV> {
    match dec_status_code(b) {
        Ok((code, r1)) => match dec_bytes(r1) {
            Ok((error, r2)) => match dec_bytes(r2) {
                Ok((language, r3)) => Ok((StatusV { code, error, language }, r3)),
                Err(e) => Err(e),
            },
            Err(e) => Err(e),
        },
        Err(e) => Err(e),
    }
}

impl Status {
    /// Appends the wire encoding of the status to `buf`.
    pub fn encode(&self, buf: &mut Vec<u8>)
        requires
            status_wf(self@),
        ensures
            final(buf)@ == old(buf)@ + enc_status(self@),
    {
        put_u32(buf, self.code.to_u32());
        put_bytes(buf, self.error.as_slice());
        put_bytes(buf, self.language.as_slice());
        proof {
            vstd::seq_lib::lemma_concat_associative(
                enc_status_code(self.code),
                enc_bytes(self.error@),
                enc_bytes(self.language@),
            );
        }
    }

    /// Decodes a status record starting at `pos`.
    pub fn decode(buf: &[u8], pos: usize) -> (r: Result<(Status, usize), WireFormatError>)
        requires
            pos <= buf@.len(),
        ensures
            match r {
                Ok((s, end)) => {
                    &&& pos <= end <= buf@.len()
                    &&& dec_status(buf@.skip(pos as int)) == Ok::<_, WireFormatErrorV>((
                        s@,
                        buf@.skip(end as int),
                    ))
                },
                Err(e) => dec_status(buf@.skip(pos as int)) == Err::<(StatusV, Seq<u8>), _>(e@),
            },
    {
        let (num, p1) = match get_u32(buf, pos) {
            Ok(ok) => ok,
            Err(e) => {
                return Err(e);
            },
        };
        let code = match StatusCode::try_from(num) {
            Ok(c) => c,
            Err(_) => {
                return Err(WireFormatError::Unsupported);
            },
        };
        let (error, p2) = match get_bytes(buf, p1) {
            Ok(ok) => ok,
            Err(e) => {
                return Err(e);
            },
        };
        let (language, p3) = match get_bytes(buf, p2) {
            Ok(ok) => ok,
            Err(e) => {
                return Err(e);
            },
        };
        Ok((Status { code, error, language }, p3))
    }

    /// True when the status reports success.
    pub fn is_ok(&self) -> (r: bool)
        ensures
            r == (self.code is Okay),
    {
        matches!(self.code, StatusCode::Okay)
    }

    /// True when the status reports an error.
    pub fn is_err(&self) -> (r: bool)
        ensures
            r == !(self.code is Okay),
    {
        !self.is_ok()
    }

    /// Turns the status into a result: the given value when the status
    /// reports success, the status itself otherwise.
    pub fn to_result<T>(self, value: T) -> (r: Result<T, Status>)
        ensures
            self.code is Okay ==> r == Ok::<T, Status>(value),
            !(self.code is Okay) ==> r == Err::<T, Status>(self),
    {
        if self.is_ok() {
            Ok(value)
        } else {
            Err(self)
        }
    }
}

impl StatusCode {
    /// Builds a status with this code.  When no message is supplied the
    /// code's own label stands in; the language tag is always `en`.
    pub fn to_status(self, msg: &str) -> (r: Status)
        ensures
            r.code == self,
            msg@.len() > 0 ==> r.error@ == encode_utf8(msg@),
            msg@.len() == 0 ==> r.error@ == encode_utf8(status_code_label(self)),
            r.language@ == encode_utf8("en"@),
    {
        let error = if msg.is_empty() {
            self.label().as_str().as_bytes_vec()
        } else {
            msg.as_bytes_vec()
        };
        Status { code: self, error, language: "en".as_bytes_vec() }
    }
}

/// Round trip of a status record: decoding an encoded status yields the
/// record back and leaves the rest.
pub proof fn lemma_dec_enc_status(s: StatusV, rest: Seq<u8>)
    requires
        status_wf(s),
    ensures
        dec_status(enc_status(s) + rest) == Ok::<_, WireFormatErrorV>((s, rest)),
{
    let ec = enc_status_code(s.code);
    let ee = enc_bytes(s.error);
    let el = enc_bytes(s.language);
    vstd::seq_lib::lemma_concat_associative(ec + ee, el, rest);
    vstd::seq_lib::lemma_concat_associative(ec, ee, el + rest);
    vstd::seq_lib::lemma_concat_associative(ee, el, rest);
    lemma_dec_enc_status_code(s.code, ee + (el + rest));
    crate::wire::lemma_dec_enc_bytes(s.error, el + rest);
    crate::wire::lemma_dec_enc_bytes(s.language, rest);
    assert((StatusV { code: s.code, error: s.error, language: s.language }) == s);
}

} // verus!
