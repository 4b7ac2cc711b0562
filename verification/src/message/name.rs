//! Listing rows: the name entry record and the batch of entries that a
//! directory listing or a path resolution reply carries.

use vstd::prelude::*;

use crate::message::attrs::{dec_attrs, enc_attrs, Attrs};
use crate::message::path::{dec_path, enc_path, path_wf, Path};
use crate::wire::{
    dec_bytes, dec_u32, enc_bytes, enc_u32, get_bytes, get_u32, put_bytes, put_u32, DecResult,
    WireFormatError, WireFormatErrorV, MAX_BYTES_LEN,
};

verus! {

/// One listing row: the file name, an opaque display form à-la
/// `ls -l`, and the attributes.  The display form has no specified
/// structure and must not be parsed for semantic content.
#[derive(Debug, Default, Clone, PartialEq, Eq, Hash)]
pub struct NameEntry {
    /// Path of the file or directory designated by this entry
    pub filename: Path,
    /// Expanded format of the filename with permissions and owner;
    /// its format is unspecified by the protocol
    pub long_name: Vec<u8>,
    /// Attributes of the file or directory designated by this entry
    pub attrs: Attrs,
}

/// Spec-level image of a [`NameEntry`].
pub struct NameEntryV {
    pub filename: Seq<char>,
    pub long_name: Seq<u8>,
    pub attrs: Attrs,
}

impl View for NameEntry {
    type V = NameEntryV;

    open spec fn view(&self) -> NameEntryV {
        NameEntryV { filename: self.filename@, long_name: self.long_name@, attrs: self.attrs }
    }
}

/// A batch of listing rows.
#[derive(Debug, Default, Clone, PartialEq, Eq, Hash)]
pub struct Name(pub Vec<NameEntry>);

impl View for Name {
    type V = Seq<NameEntryV>;

    open spec fn view(&self) -> Seq<NameEntryV> {
        self.0@.map_values(|e: NameEntry| e@)
    }
}

/// An entry fits on the wire when its strings carry 32-bit lengths.
pub open spec fn name_entry_wf(e: NameEntryV) -> bool {
    path_wf(e.filename) && e.long_name.len() <= MAX_BYTES_LEN
}

/// A batch fits on the wire when its count carries 32 bits and each
/// entry fits.
pub open spec fn name_wf(s: Seq<NameEntryV>) -> bool {
    s.len() <= MAX_BYTES_LEN && forall|i: int| 0 <= i < s.len() ==> name_entry_wf(#[trigger] s[i])
}

/// Encoding of one entry: filename, display form, attributes.
pub open spec fn enc_name_entry(e: NameEntryV) -> Seq<u8>
    recommends
        name_entry_wf(e),
{
    enc_path(e.filename) + enc_bytes(e.long_name) + enc_attrs(e.attrs)
}

/// Encoding of consecutive entries, in order.
pub open spec fn enc_name_entries(s: Seq<NameEntryV>) -> Seq<u8>
    decreases s.len(),
{
    if s.len() == 0 {
        Seq::empty()
    } else {
        enc_name_entry(s[0]) + enc_name_entries(s.drop_first())
    }
}

/// Encoding of a batch: the entry count, then the entries.
pub open spec fn enc_name(s: Seq<NameEntryV>) -> Seq<u8>
    recommends
        name_wf(s),
{
    enc_u32(s.len() as u32) + enc_name_entries(s)
}

/// Spec-level decoder of one entry.
pub open spec fn dec_name_entry(b: Seq<u8>) -> DecResult<NameEntryV> {
    match dec_path(b) {
        Ok((filename, r1)) => match dec_bytes(r1) {
            Ok((long_name, r2)) => match dec_attrs(r2) {
                Ok((attrs, r3)) => Ok((NameEntryV { filename, long_name, attrs }, r3)),
                Err(e) => Err(e),
            },
            Err(e) => Err(e),
        },
        Err(e) => Err(e),
    }
}

/// Spec-level decoder of `count` consecutive entries.
pub open spec fn dec_name_entries(count: nat, b: Seq<u8>) -> DecResult<Seq<NameEntryV>>
    decreases count,
{
    if count == 0 {
        Ok((Seq::empty(), b))
    } else {
        match dec_name_entry(b) {
            Ok((e, r1)) => match dec_name_entries((count - 1) as nat, r1) {
                Ok((s, r2)) => Ok((seq![e] + s, r2)),
                Err(err) => Err(err),
            },
            Err(err) => Err(err),
        }
    }
}

/// Spec-level decoder of a batch.
pub open spec fn dec_name(b: Seq<u8>) -> DecResult<Seq<NameEntryV>> {
    match dec_u32(b) {
        Ok((count, r0)) => dec_name_entries(count as nat, r0),
        Err(e) => Err(e),
    }
}

impl NameEntry {
    /// Appends the wire encoding of the entry to `buf`.
    pub fn encode(&self, buf: &mut Vec<u8>)
        requires
            name_entry_wf(self@),
        ensures
            final(buf)@ == old(buf)@ + enc_name_entry(self@),
    {
        self.filename.encode(buf);
        put_bytes(buf, self.long_name.as_slice());
        self.attrs.encode(buf);
        proof {
            let ef = enc_path(self.filename@);
            let el = enc_bytes(self.long_name@);
            let ea = enc_attrs(self.attrs);
            vstd::seq_lib::lemma_concat_associative(old(buf)@, ef, el);
            vstd::seq_lib::lemma_concat_associative(old(buf)@, ef + el, ea);
        }
    }

    /// Decodes one entry starting at `pos`.
    pub fn decode(buf: &[u8], pos: usize) -> (r: Result<(NameEntry, usize), WireFormatError>)
        requires
            pos <= buf@.len(),
        ensures
            match r {
                Ok((v, end)) => {
                    &&& pos <= end <= buf@.len()
                    &&& dec_name_entry(buf@.skip(pos as int)) == Ok::<_, WireFormatErrorV>((
                        v@,
                        buf@.skip(end as int),
                    ))
                },
                Err(e) => dec_name_entry(buf@.skip(pos as int)) == Err::<
                    (NameEntryV, Seq<u8>),
                    _,
                >(e@),
            },
    {
        let (filename, p1) = match Path::decode(buf, pos) {
            Ok(ok) => ok,
            Err(e) => {
                return Err(e);
            },
        };
        let (long_name, p2) = match get_bytes(buf, p1) {
            Ok(ok) => ok,
            Err(e) => {
                return Err(e);
            },
        };
        match Attrs::decode(buf, p2) {
            Ok((attrs, end)) => Ok((NameEntry { filename, long_name, attrs }, end)),
            Err(e) => Err(e),
        }
    }
}

impl Name {
    /// Appends the wire encoding of the batch to `buf`.
    pub fn encode(&self, buf: &mut Vec<u8>)
        requires
            name_wf(self@),
        ensures
            final(buf)@ == old(buf)@ + enc_name(self@),
    {
        let count = self.0.len();
        put_u32(buf, count as u32);
        let ghost all = self@;
        for i in 0..count
            invariant
                count == self.0.len(),
                all == self@,
                name_wf(all),
                buf@ == old(buf)@ + enc_u32(count as u32) + enc_name_entries(all.take(i as int)),
        {
            let ghost before = buf@;
            self.0[i].encode(buf);
            proof {
                assert(all[i as int] == self.0@[i as int]@);
                lemma_enc_name_entries_push(all.take(i as int), all[i as int]);
                assert(all.take(i as int).push(all[i as int]) =~= all.take(i + 1));
                vstd::seq_lib::lemma_concat_associative(
                    old(buf)@ + enc_u32(count as u32),
                    enc_name_entries(all.take(i as int)),
                    enc_name_entry(all[i as int]),
                );
            }
        }
        proof {
            assert(all.take(count as int) =~= all);
        }
    }

    /// Decodes a batch starting at `pos`.
    pub fn decode(buf: &[u8], pos: usize) -> (r: Result<(Name, usize), WireFormatError>)
        requires
            pos <= buf@.len(),
        ensures
            match r {
                Ok((v, end)) => {
                    &&& pos <= end <= buf@.len()
                    &&& dec_name(buf@.skip(pos as int)) == Ok::<_, WireFormatErrorV>((
                        v@,
                        buf@.skip(end as int),
                    ))
                },
                Err(e) => dec_name(buf@.skip(pos as int)) == Err::<
                    (Seq<NameEntryV>, Seq<u8>),
                    _,
                >(e@),
            },
    {
        let (count, p0) = match get_u32(buf, pos) {
            Ok(ok) => ok,
            Err(e) => {
                return Err(e);
            },
        };
        let mut entries: Vec<NameEntry> = Vec::new();
        let mut p = p0;
        let mut i: u32 = 0;
        loop
            invariant
                i <= count,
                pos <= p0 <= p <= buf@.len(),
                entries@.len() == i,
                dec_u32(buf@.skip(pos as int)) == Ok::<_, WireFormatErrorV>((
                    count,
                    buf@.skip(p0 as int),
                )),
                dec_name_entries(count as nat, buf@.skip(p0 as int)) == (match dec_name_entries(
                    (count - i) as nat,
                    buf@.skip(p as int),
                ) {
                    Ok((s, r)) => Ok::<_, WireFormatErrorV>((
                        entries@.map_values(|e: NameEntry| e@) + s,
                        r,
                    )),
                    Err(err) => Err::<(Seq<NameEntryV>, Seq<u8>), _>(err),
                }),
            ensures
                i == count,
                pos <= p0 <= p <= buf@.len(),
                dec_u32(buf@.skip(pos as int)) == Ok::<_, WireFormatErrorV>((
                    count,
                    buf@.skip(p0 as int),
                )),
                dec_name_entries(count as nat, buf@.skip(p0 as int)) == Ok::<
                    _,
                    WireFormatErrorV,
                >((entries@.map_values(|e: NameEntry| e@), buf@.skip(p as int))),
            decreases count - i,
        {
            if i == count {
                proof {
                    assert(dec_name_entries(0nat, buf@.skip(p as int)) == Ok::<
                        _,
                        WireFormatErrorV,
                    >((Seq::<NameEntryV>::empty(), buf@.skip(p as int))));
                    assert(entries@.map_values(|e: NameEntry| e@) + Seq::<NameEntryV>::empty()
                        =~= entries@.map_values(|e: NameEntry| e@));
                }
                break ;
            }
            let ghost rem = (count - i) as nat;
            let ghost cur = buf@.skip(p as int);
            let (entry, next) = match NameEntry::decode(buf, p) {
                Ok(ok) => ok,
                Err(e) => {
                    return Err(e);
                },
            };
            proof {
                assert(dec_name_entries(rem, cur) == (match dec_name_entries(
                    (rem - 1) as nat,
                    buf@.skip(next as int),
                ) {
                    Ok((s, r)) => Ok::<_, WireFormatErrorV>((seq![entry@] + s, r)),
                    Err(err) => Err::<(Seq<NameEntryV>, Seq<u8>), _>(err),
                }));
            }
            let ghost entries_before = entries@;
            entries.push(entry);
            proof {
                assert(entries@.map_values(|e: NameEntry| e@) =~= entries_before.map_values(
                    |e: NameEntry| e@,
                ) + seq![entry@]);
                if let Ok((s, r)) = dec_name_entries((rem - 1) as nat, buf@.skip(next as int)) {
                    vstd::seq_lib::lemma_concat_associative(
                        entries_before.map_values(|e: NameEntry| e@),
                        seq![entry@],
                        s,
                    );
                }
            }
            p = next;
            i = i + 1;
        }
        Ok((Name(entries), p))
    }
}

/// Appending one entry to a batch appends its encoding.
pub proof fn lemma_enc_name_entries_push(s: Seq<NameEntryV>, e: NameEntryV)
    ensures
        enc_name_entries(s.push(e)) == enc_name_entries(s) + enc_name_entry(e),
    decreases s.len(),
{
    if s.len() == 0 {
        assert(s.push(e)[0] == e);
        assert(s.push(e).drop_first() =~= s);
        assert(enc_name_entries(s.push(e)) =~= enc_name_entries(s) + enc_name_entry(e));
    } else {
        assert(s.push(e)[0] == s[0]);
        assert(s.push(e).drop_first() =~= s.drop_first().push(e));
        lemma_enc_name_entries_push(s.drop_first(), e);
        vstd::seq_lib::lemma_concat_associative(
            enc_name_entry(s[0]),
            enc_name_entries(s.drop_first()),
            enc_name_entry(e),
        );
    }
}

/// Round trip of one entry.
pub proof fn lemma_dec_enc_name_entry(e: NameEntryV, rest: Seq<u8>)
    requires
        name_entry_wf(e),
    ensures
        dec_name_entry(enc_name_entry(e) + rest) == Ok::<_, WireFormatErrorV>((e, rest)),
{
    let ef = enc_path(e.filename);
    let el = enc_bytes(e.long_name);
    let ea = enc_attrs(e.attrs);
    vstd::seq_lib::lemma_concat_associative(ef + el, ea, rest);
    vstd::seq_lib::lemma_concat_associative(ef, el, ea + rest);
    vstd::seq_lib::lemma_concat_associative(el, ea, rest);
    crate::message::path::lemma_dec_enc_path(e.filename, el + (ea + rest));
    crate::wire::lemma_dec_enc_bytes(e.long_name, ea + rest);
    crate::message::attrs::lemma_dec_enc_attrs(e.attrs, rest);
    assert((NameEntryV { filename: e.filename, long_name: e.long_name, attrs: e.attrs }) == e);
}

/// One decoding step: an entry decodes off the front, and the entries
/// after it decode from what is left.
#[verifier::spinoff_prover]
proof fn lemma_dec_name_entries_cons(
    e: NameEntryV,
    t: Seq<NameEntryV>,
    b: Seq<u8>,
    mid: Seq<u8>,
    rest: Seq<u8>,
)
    requires
        dec_name_entry(b) == Ok::<_, WireFormatErrorV>((e, mid)),
        dec_name_entries(t.len(), mid) == Ok::<_, WireFormatErrorV>((t, rest)),
    ensures
        dec_name_entries(t.len() + 1, b) == Ok::<_, WireFormatErrorV>((seq![e] + t, rest)),
{
}

/// Round trip of consecutive entries.
#[verifier::spinoff_prover]
#[verifier::rlimit(100)]
pub proof fn lemma_dec_enc_name_entries(s: Seq<NameEntryV>, rest: Seq<u8>)
    requires
        forall|i: int| 0 <= i < s.len() ==> name_entry_wf(#[trigger] s[i]),
    ensures
        dec_name_entries(s.len(), enc_name_entries(s) + rest) == Ok::<_, WireFormatErrorV>((
            s,
            rest,
        )),
    decreases s.len(),
{
    if s.len() == 0 {
        assert(enc_name_entries(s) + rest =~= rest);
        assert(Seq::<NameEntryV>::empty() =~= s);
    } else {
        let tail = s.drop_first();
        assert(enc_name_entries(s) + rest == enc_name_entry(s[0]) + (enc_name_entries(tail)
            + rest)) by {
            vstd::seq_lib::lemma_concat_associative(
                enc_name_entry(s[0]),
                enc_name_entries(tail),
                rest,
            );
        }
        lemma_dec_enc_name_entry(s[0], enc_name_entries(tail) + rest);
        assert forall|i: int| 0 <= i < tail.len() implies name_entry_wf(#[trigger] tail[i]) by {
            assert(tail[i] == s[i + 1]);
        }
        lemma_dec_enc_name_entries(tail, rest);
        lemma_dec_name_entries_cons(
            s[0],
            tail,
            enc_name_entries(s) + rest,
            enc_name_entries(tail) + rest,
            rest,
        );
        assert(seq![s[0]] + tail =~= s);
    }
}

/// Codec round trip for a batch of entries: decoding an encoded batch
/// yields the batch back and leaves the rest.
pub proof fn lemma_dec_enc_name(s: Seq<NameEntryV>, rest: Seq<u8>)
    requires
        name_wf(s),
    ensures
        dec_name(enc_name(s) + rest) == Ok::<_, WireFormatErrorV>((s, rest)),
{
    vstd::seq_lib::lemma_concat_associative(
        enc_u32(s.len() as u32),
        enc_name_entries(s),
        rest,
    );
    crate::wire::lemma_dec_enc_u32(s.len() as u32, enc_name_entries(s) + rest);
    lemma_dec_enc_name_entries(s, rest);
}

} // verus!
