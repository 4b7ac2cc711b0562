//! Path component on the remote server.

use vstd::prelude::*;
use vstd::utf8::encode_utf8;

use crate::wire::{
    dec_str, enc_str, get_str, put_str, DecResult, WireFormatError, WireFormatErrorV,
    MAX_BYTES_LEN,
};

verus! {

/// Path component on the remote server.
///
/// It can be a path relative to the current work directory on the
/// remote server, or it can be an absolute path.  The client applies
/// no normalization; interpretation is server-side.
#[derive(Debug, Default, Clone, PartialEq, Eq, Hash)]
pub struct Path(pub String);

impl View for Path {
    type V = Seq<char>;

    open spec fn view(&self) -> Seq<char> {
        self.0@
    }
}

/// A path fits on the wire when its UTF-8 form carries a 32-bit length.
pub open spec fn path_wf(s: Seq<char>) -> bool {
    encode_utf8(s).len() <= MAX_BYTES_LEN
}

/// Encoding of a path: a length-prefixed text string.
pub open spec fn enc_path(s: Seq<char>) -> Seq<u8>
    recommends
        path_wf(s),
{
    enc_str(s)
}

/// Spec-level decoder of a path.
pub open spec fn dec_path(b: Seq<u8>) -> DecResult<Seq<char>> {
    dec_str(b)
}

/// The concatenation of two paths, as the append operator computes it:
/// an empty side changes nothing, an absolute right side replaces the
/// left side, and otherwise exactly one separator stands between the
/// two parts.
pub open spec fn path_join(a: Seq<char>, b: Seq<char>) -> Seq<char> {
    if a.len() == 0 {
        b
    } else if b.len() == 0 {
        a
    } else if b[0] == '/' {
        b
    } else if a.last() == '/' {
        a + b
    } else {
        a + seq!['/'] + b
    }
}

impl Path {
    /// The path naming the given text.
    pub fn from(s: &str) -> (r: Path)
        ensures
            r@ == s@,
    {
        Path(String::from_str(s))
    }

    /// Appends another path component in place; see [`path_join`].
    pub fn div_assign(&mut self, rhs: &str)
        ensures
            final(self)@ == path_join(old(self)@, rhs@),
    {
        if self.0.as_str().is_empty() {
            self.0 = String::from_str(rhs);
        } else if rhs.is_empty() {
            // nothing to append
        } else if rhs.get_char(0) == '/' {
            self.0 = String::from_str(rhs);
        } else {
            let len = self.0.as_str().unicode_len();
            if self.0.as_str().get_char(len - 1) != '/' {
                self.0.append("/");
                proof {
                    reveal_strlit("/");
                    assert(self.0@ =~= old(self)@ + seq!['/']);
                }
            }
            self.0.append(rhs);
            proof {
                if old(self)@.last() != '/' {
                    assert(self.0@ =~= old(self)@ + seq!['/'] + rhs@);
                }
            }
        }
    }

    /// The concatenation of this path and another component; see
    /// [`path_join`].
    pub fn div(self, rhs: &str) -> (r: Path)
        ensures
            r@ == path_join(self@, rhs@),
    {
        let mut out = self;
        out.div_assign(rhs);
        out
    }

    /// Appends the wire encoding of the path to `buf`.
    pub fn encode(&self, buf: &mut Vec<u8>)
        requires
            path_wf(self@),
        ensures
            final(buf)@ == old(buf)@ + enc_path(self@),
    {
        put_str(buf, self.0.as_str());
    }

    /// Decodes a path starting at `pos`.
    pub fn decode(buf: &[u8], pos: usize) -> (r: Result<(Path, usize), WireFormatError>)
        requires
            pos <= buf@.len(),
        ensures
            match r {
                Ok((p, end)) => {
                    &&& pos <= end <= buf@.len()
                    &&& dec_path(buf@.skip(pos as int)) == Ok::<_, WireFormatErrorV>((
                        p@,
                        buf@.skip(end as int),
                    ))
                },
                Err(e) => dec_path(buf@.skip(pos as int)) == Err::<(Seq<char>, Seq<u8>), _>(e@),
            },
    {
        match get_str(buf, pos) {
            Ok((s, end)) => Ok((Path(s), end)),
            Err(e) => Err(e),
        }
    }
}

/// Round trip of a path: decoding an encoded path yields the path back
/// and leaves the rest.
pub proof fn lemma_dec_enc_path(s: Seq<char>, rest: Seq<u8>)
    requires
        path_wf(s),
    ensures
        dec_path(enc_path(s) + rest) == Ok::<_, WireFormatErrorV>((s, rest)),
{
    crate::wire::lemma_dec_enc_str(s, rest);
}

/// Joining with an empty component on either side changes nothing, and
/// an absolute right side replaces the left side entirely.
pub proof fn lemma_path_join_edges(a: Seq<char>, b: Seq<char>)
    ensures
        path_join(a, Seq::<char>::empty()) == a,
        path_join(Seq::<char>::empty(), b) == b,
        a.len() > 0 && b.len() > 0 && b[0] == '/' ==> path_join(a, b) == b,
{
}

} // verus!
