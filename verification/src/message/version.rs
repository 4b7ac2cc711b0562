//! The version handshake messages: the client's greeting and the
//! server's answer.  Both carry a protocol version and an extension
//! map encoded as name/value pairs repeated until the frame is
//! exhausted.

use vstd::prelude::*;

use crate::wire::{
    dec_bytes, dec_u32, enc_bytes, enc_u32, get_bytes, get_u32, put_bytes, put_u32, DecResult,
    WireFormatError, WireFormatErrorV, MAX_BYTES_LEN,
};

verus! {

/// The extension map of a handshake message: name/value pairs, kept in
/// the order they stand on the wire.
pub type Extensions = Vec<(Vec<u8>, Vec<u8>)>;

/// Spec-level image of an extension map.
pub type ExtensionsV = Seq<(Seq<u8>, Seq<u8>)>;

/// The view of an extension map.
pub open spec fn extensions_view(e: Extensions) -> ExtensionsV {
    e@.map_values(|p: (Vec<u8>, Vec<u8>)| (p.0@, p.1@))
}

/// An extension map fits on the wire when each name and value carries
/// a 32-bit length.
pub open spec fn extensions_wf(s: ExtensionsV) -> bool {
    forall|i: int|
        0 <= i < s.len() ==> (#[trigger] s[i]).0.len() <= MAX_BYTES_LEN && s[i].1.len()
            <= MAX_BYTES_LEN
}

/// Encoding of an extension map: each pair as two byte strings, in
/// order, with no count; the reader stops at the end of the frame.
pub open spec fn enc_extensions(s: ExtensionsV) -> Seq<u8>
    decreases s.len(),
{
    if s.len() == 0 {
        Seq::empty()
    } else {
        enc_bytes(s[0].0) + enc_bytes(s[0].1) + enc_extensions(s.drop_first())
    }
}

/// Spec-level decoder of an extension map: pairs until the input is
/// exhausted.
pub open spec fn dec_extensions(b: Seq<u8>) -> DecResult<ExtensionsV>
    decreases b.len(),
{
    if b.len() == 0 {
        Ok((Seq::empty(), Seq::empty()))
    } else {
        match dec_bytes(b) {
            Ok((name, r1)) => match dec_bytes(r1) {
                Ok((value, r2)) => match dec_extensions(r2) {
                    Ok((s, r3)) => Ok((seq![(name, value)] + s, r3)),
                    Err(err) => Err(err),
                },
                Err(err) => Err(err),
            },
            Err(err) => Err(err),
        }
    }
}

/// Encoding of a handshake message body: the version, then the
/// extension map running to the end of the frame.
pub open spec fn enc_version_body(version: u32, s: ExtensionsV) -> Seq<u8>
    recommends
        extensions_wf(s),
{
    enc_u32(version) + enc_extensions(s)
}

/// Spec-level decoder of a handshake message body; it consumes the
/// whole input.
pub open spec fn dec_version_body(b: Seq<u8>) -> DecResult<(u32, ExtensionsV)> {
    match dec_u32(b) {
        Ok((version, r0)) => match dec_extensions(r0) {
            Ok((s, r1)) => Ok(((version, s), r1)),
            Err(err) => Err(err),
        },
        Err(err) => Err(err),
    }
}

/// Appends the wire encoding of an extension map to `buf`.
fn put_extensions(buf: &mut Vec<u8>, e: &Extensions)
    requires
        extensions_wf(extensions_view(*e)),
    ensures
        final(buf)@ == old(buf)@ + enc_extensions(extensions_view(*e)),
{
    let ghost all = extensions_view(*e);
    let count = e.len();
    for i in 0..count
        invariant
            count == e@.len(),
            all == extensions_view(*e),
            extensions_wf(all),
            buf@ == old(buf)@ + enc_extensions(all.take(i as int)),
    {
        proof {
            assert(all[i as int] == (e@[i as int].0@, e@[i as int].1@));
        }
        put_bytes(buf, e[i].0.as_slice());
        put_bytes(buf, e[i].1.as_slice());
        proof {
            lemma_enc_extensions_push(all.take(i as int), all[i as int]);
            assert(all.take(i as int).push(all[i as int]) =~= all.take(i + 1));
            vstd::seq_lib::lemma_concat_associative(
                old(buf)@ + enc_extensions(all.take(i as int)),
                enc_bytes(all[i as int].0),
                enc_bytes(all[i as int].1),
            );
            vstd::seq_lib::lemma_concat_associative(
                old(buf)@,
                enc_extensions(all.take(i as int)),
                enc_bytes(all[i as int].0) + enc_bytes(all[i as int].1),
            );
            vstd::seq_lib::lemma_concat_associative(
                enc_extensions(all.take(i as int)),
                enc_bytes(all[i as int].0) + enc_bytes(all[i as int].1),
                Seq::<u8>::empty(),
            );
            assert((enc_bytes(all[i as int].0) + enc_bytes(all[i as int].1)) + Seq::<u8>::empty()
                =~= enc_bytes(all[i as int].0) + enc_bytes(all[i as int].1));
            assert(enc_extensions(all.take(i + 1)) == enc_extensions(all.take(i as int))
                + (enc_bytes(all[i as int].0) + enc_bytes(all[i as int].1)));
            assert(buf@ =~= old(buf)@ + enc_extensions(all.take(i + 1)));
        }
    }
    proof {
        assert(all.take(count as int) =~= all);
    }
}

/// Reads an extension map from everything at and after `pos`.
pub(crate) fn get_extensions(buf: &[u8], pos: usize) -> (r: Result<Extensions, WireFormatError>)
    requires
        pos <= buf@.len(),
    ensures
        match r {
            Ok(e) => dec_extensions(buf@.skip(pos as int)) == Ok::<_, WireFormatErrorV>((
                extensions_view(e),
                Seq::<u8>::empty(),
            )),
            Err(e) => dec_extensions(buf@.skip(pos as int)) == Err::<
                (ExtensionsV, Seq<u8>),
                _,
            >(e@),
        },
{
    let mut pairs: Extensions = Vec::new();
    let mut p = pos;
    loop
        invariant
            pos <= p <= buf@.len(),
            dec_extensions(buf@.skip(pos as int)) == (match dec_extensions(buf@.skip(p as int)) {
                Ok((s, r)) => Ok::<_, WireFormatErrorV>((extensions_view(pairs) + s, r)),
                Err(err) => Err::<(ExtensionsV, Seq<u8>), _>(err),
            }),
        ensures
            p == buf@.len(),
            dec_extensions(buf@.skip(pos as int)) == Ok::<_, WireFormatErrorV>((
                extensions_view(pairs),
                Seq::<u8>::empty(),
            )),
        decreases buf@.len() - p,
    {
        if p == buf.len() {
            proof {
                assert(buf@.skip(p as int) =~= Seq::<u8>::empty());
                assert(extensions_view(pairs) + Seq::<ExtensionsV>::empty().flatten()
                    =~= extensions_view(pairs));
                assert(extensions_view(pairs) + Seq::<(Seq<u8>, Seq<u8>)>::empty()
                    =~= extensions_view(pairs));
            }
            break ;
        }
        let ghost cur = buf@.skip(p as int);
        let (name, p1) = match get_bytes(buf, p) {
            Ok(ok) => ok,
            Err(e) => {
                return Err(e);
            },
        };
        let (value, p2) = match get_bytes(buf, p1) {
            Ok(ok) => ok,
            Err(e) => {
                return Err(e);
            },
        };
        proof {
            assert(cur.len() != 0);
            assert(dec_extensions(cur) == (match dec_extensions(buf@.skip(p2 as int)) {
                Ok((s, r)) => Ok::<_, WireFormatErrorV>((seq![(name@, value@)] + s, r)),
                Err(err) => Err::<(ExtensionsV, Seq<u8>), _>(err),
            }));
        }
        let ghost pairs_before = extensions_view(pairs);
        pairs.push((name, value));
        proof {
            assert(extensions_view(pairs) =~= pairs_before + seq![(name@, value@)]);
            if let Ok((s, r)) = dec_extensions(buf@.skip(p2 as int)) {
                vstd::seq_lib::lemma_concat_associative(pairs_before, seq![(name@, value@)], s);
            }
        }
        proof {
            assert(p2 > p);
        }
        p = p2;
    }
    Ok(pairs)
}

/// Appending one pair to an extension map appends its encoding.
pub proof fn lemma_enc_extensions_push(s: ExtensionsV, pair: (Seq<u8>, Seq<u8>))
    ensures
        enc_extensions(s.push(pair)) == enc_extensions(s) + (enc_bytes(pair.0) + enc_bytes(
            pair.1,
        )),
    decreases s.len(),
{
    if s.len() == 0 {
        assert(s.push(pair)[0] == pair);
        assert(s.push(pair).drop_first() =~= s);
        assert(enc_extensions(s.push(pair)) =~= enc_extensions(s) + (enc_bytes(pair.0)
            + enc_bytes(pair.1)));
    } else {
        assert(s.push(pair)[0] == s[0]);
        assert(s.push(pair).drop_first() =~= s.drop_first().push(pair));
        lemma_enc_extensions_push(s.drop_first(), pair);
        let e0 = enc_bytes(s[0].0) + enc_bytes(s[0].1);
        vstd::seq_lib::lemma_concat_associative(
            e0,
            enc_extensions(s.drop_first()),
            enc_bytes(pair.0) + enc_bytes(pair.1),
        );
        vstd::seq_lib::lemma_concat_associative(
            enc_bytes(s[0].0),
            enc_bytes(s[0].1),
            enc_extensions(s.drop_first()),
        );
        vstd::seq_lib::lemma_concat_associative(
            enc_bytes(s[0].0),
            enc_bytes(s[0].1),
            enc_extensions(s.drop_first().push(pair)),
        );
    }
}

/// Round trip of an extension map: decoding an encoded map yields the
/// map back, with nothing left over.
#[verifier::spinoff_prover]
#[verifier::rlimit(50)]
pub proof fn lemma_dec_enc_extensions(s: ExtensionsV)
    requires
        extensions_wf(s),
    ensures
        dec_extensions(enc_extensions(s)) == Ok::<_, WireFormatErrorV>((
            s,
            Seq::<u8>::empty(),
        )),
    decreases s.len(),
{
    if s.len() == 0 {
        assert(s =~= Seq::<(Seq<u8>, Seq<u8>)>::empty());
    } else {
        let tail = s.drop_first();
        let ek = enc_bytes(s[0].0);
        let ev = enc_bytes(s[0].1);
        let et = enc_extensions(tail);
        vstd::seq_lib::lemma_concat_associative(ek, ev, et);
        vstd::seq_lib::lemma_concat_associative(ev, et, Seq::<u8>::empty());
        crate::wire::lemma_dec_enc_bytes(s[0].0, ev + et);
        crate::wire::lemma_dec_enc_bytes(s[0].1, et);
        assert forall|i: int| 0 <= i < tail.len() implies (#[trigger] tail[i]).0.len()
            <= MAX_BYTES_LEN && tail[i].1.len() <= MAX_BYTES_LEN by {
            assert(tail[i] == s[i + 1]);
        }
        lemma_dec_enc_extensions(tail);
        assert(enc_extensions(s).len() > 0);
        assert(dec_bytes(enc_extensions(s)) == Ok::<_, WireFormatErrorV>((s[0].0, ev + et)));
        assert(dec_bytes(ev + et) == Ok::<_, WireFormatErrorV>((s[0].1, et)));
        assert(dec_extensions(et) == Ok::<_, WireFormatErrorV>((tail, Seq::<u8>::empty())));
        assert((s[0].0, s[0].1) == s[0]);
        assert(seq![(s[0].0, s[0].1)] =~= seq![s[0]]);
        assert(seq![s[0]] + tail =~= s);
        assert(dec_extensions(enc_extensions(s)) == Ok::<_, WireFormatErrorV>((
            seq![s[0]] + tail,
            Seq::<u8>::empty(),
        )));
    }
}

/// The client's greeting: the highest protocol version it supports and
/// the extensions it offers.
#[derive(Debug, Default, Clone, PartialEq, Eq, Hash)]
pub struct Init {
    /// Maximal version of the protocol supported by the client
    pub version: u32,
    /// List of extensions supported by the client; unrecognized names
    /// must be silently ignored
    pub extensions: Extensions,
}

impl View for Init {
    type V = (u32, ExtensionsV);

    open spec fn view(&self) -> (u32, ExtensionsV) {
        (self.version, extensions_view(self.extensions))
    }
}

/// The server's answer to [`Init`]: the protocol version used for the
/// rest of the conversation and the extensions the server offers.
#[derive(Debug, Default, Clone, PartialEq, Eq, Hash)]
pub struct Version {
    /// Version of the protocol used for the rest of the communication
    pub version: u32,
    /// List of extensions supported by the server; unrecognized names
    /// must be silently ignored
    pub extensions: Extensions,
}

impl View for Version {
    type V = (u32, ExtensionsV);

    open spec fn view(&self) -> (u32, ExtensionsV) {
        (self.version, extensions_view(self.extensions))
    }
}

impl Init {
    /// Appends the wire encoding of the message body to `buf`.
    pub fn encode(&self, buf: &mut Vec<u8>)
        requires
            extensions_wf(extensions_view(self.extensions)),
        ensures
            final(buf)@ == old(buf)@ + enc_version_body(self.version, extensions_view(
                self.extensions,
            )),
    {
        put_u32(buf, self.version);
        put_extensions(buf, &self.extensions);
        proof {
            vstd::seq_lib::lemma_concat_associative(
                old(buf)@,
                enc_u32(self.version),
                enc_extensions(extensions_view(self.extensions)),
            );
        }
    }

    /// Decodes the message body from everything at and after `pos`.
    pub fn decode(buf: &[u8], pos: usize) -> (r: Result<Init, WireFormatError>)
        requires
            pos <= buf@.len(),
        ensures
            match r {
                Ok(v) => dec_version_body(buf@.skip(pos as int)) == Ok::<_, WireFormatErrorV>((
                    v@,
                    Seq::<u8>::empty(),
                )),
                Err(e) => dec_version_body(buf@.skip(pos as int)) == Err::<
                    ((u32, ExtensionsV), Seq<u8>),
                    _,
                >(e@),
            },
    {
        let (version, p0) = match get_u32(buf, pos) {
            Ok(ok) => ok,
            Err(e) => {
                return Err(e);
            },
        };
        match get_extensions(buf, p0) {
            Ok(extensions) => Ok(Init { version, extensions }),
            Err(e) => Err(e),
        }
    }
}

impl Version {
    /// Appends the wire encoding of the message body to `buf`.
    pub fn encode(&self, buf: &mut Vec<u8>)
        requires
            extensions_wf(extensions_view(self.extensions)),
        ensures
            final(buf)@ == old(buf)@ + enc_version_body(self.version, extensions_view(
                self.extensions,
            )),
    {
        put_u32(buf, self.version);
        put_extensions(buf, &self.extensions);
        proof {
            vstd::seq_lib::lemma_concat_associative(
                old(buf)@,
                enc_u32(self.version),
                enc_extensions(extensions_view(self.extensions)),
            );
        }
    }

    /// Decodes the message body from everything at and after `pos`.
    pub fn decode(buf: &[u8], pos: usize) -> (r: Result<Version, WireFormatError>)
        requires
            pos <= buf@.len(),
        ensures
            match r {
                Ok(v) => dec_version_body(buf@.skip(pos as int)) == Ok::<_, WireFormatErrorV>((
                    v@,
                    Seq::<u8>::empty(),
                )),
                Err(e) => dec_version_body(buf@.skip(pos as int)) == Err::<
                    ((u32, ExtensionsV), Seq<u8>),
                    _,
                >(e@),
            },
    {
        let (version, p0) = match get_u32(buf, pos) {
            Ok(ok) => ok,
            Err(e) => {
                return Err(e);
            },
        };
        match get_extensions(buf, p0) {
            Ok(extensions) => Ok(Version { version, extensions }),
            Err(e) => Err(e),
        }
    }
}

/// Round trip of a handshake message body: decoding an encoded body
/// yields the version and extensions back, with nothing left over.
pub proof fn lemma_dec_enc_version_body(version: u32, s: ExtensionsV)
    requires
        extensions_wf(s),
    ensures
        dec_version_body(enc_version_body(version, s)) == Ok::<_, WireFormatErrorV>((
            (version, s),
            Seq::<u8>::empty(),
        )),
{
    crate::wire::lemma_dec_enc_u32(version, enc_extensions(s));
    lemma_dec_enc_extensions(s);
}

} // verus!
