//! The request multiplexer's state: the incremental framer over the
//! inbound byte stream, the in-flight table keyed by request id, and
//! the decisions the multiplexer takes on each command and each
//! inbound frame.
//!
//! The table is generic over the reply sink, so the surrounding event
//! loop can park whatever one-shot channel it likes here; every
//! decision about ids, framing and dispatch is taken by the verified
//! code below.

use vstd::prelude::*;

use crate::client::error::{Error, ErrorV};
use crate::message::frame::{dec_msg, enc_frame, enc_msg, err_frame_id, Message, MessageV};
use crate::wire::{dec_bytes, enc_u32, get_u32, WireFormatErrorV, MAX_BYTES_LEN};

verus! {

/*
 * Incremental framer
 */

/// Buffers inbound bytes and cuts them into frame payloads, reading
/// exactly the announced number of bytes for each frame.
pub struct FrameBuffer {
    /// Bytes received and not yet cut into a frame
    buffer: Vec<u8>,
    /// The announced length of the frame being assembled, once its
    /// length prefix has been consumed
    expected: Option<u32>,
}

impl FrameBuffer {
    /// The logical byte stream still held: the consumed length prefix
    /// put back in front of the buffered bytes.
    pub closed spec fn stream(self) -> Seq<u8> {
        match self.expected {
            Some(n) => enc_u32(n) + self.buffer@,
            None => self.buffer@,
        }
    }

    /// An empty framer.
    pub fn new() -> (r: FrameBuffer)
        ensures
            r.stream() == Seq::<u8>::empty(),
    {
        FrameBuffer { buffer: Vec::new(), expected: None }
    }

    /// Feeds newly received bytes to the framer.
    pub fn push(&mut self, data: &[u8])
        ensures
            final(self).stream() == old(self).stream() + data@,
    {
        self.buffer.extend_from_slice(data);
        proof {
            match self.expected {
                Some(n) => {
                    assert(enc_u32(n) + (old(self).buffer@ + data@) =~= (enc_u32(n) + old(
                        self,
                    ).buffer@) + data@);
                },
                None => {},
            }
        }
    }

    /// Cuts the next whole frame payload off the stream.  A frame
    /// comes out exactly when the stream holds its length prefix and
    /// that many bytes; otherwise everything is kept for later.
    pub fn next_frame(&mut self) -> (r: Option<Vec<u8>>)
        ensures
            match r {
                Some(f) => dec_bytes(old(self).stream()) == Ok::<_, WireFormatErrorV>((
                    f@,
                    final(self).stream(),
                )),
                None => {
                    &&& dec_bytes(old(self).stream()) == Err::<(Seq<u8>, Seq<u8>), _>(
                        WireFormatErrorV::NotEnoughData,
                    )
                    &&& final(self).stream() == old(self).stream()
                },
            },
    {
        let n = match self.expected {
            Some(n) => n,
            None => {
                match get_u32(self.buffer.as_slice(), 0) {
                    Ok((n, _)) => {
                        let rest = vstd::slice::slice_to_vec(
                            vstd::slice::slice_subrange(self.buffer.as_slice(), 4, self.buffer.len()),
                        );
                        proof {
                            assert(old(self).buffer@.skip(0) =~= old(self).buffer@);
                            assert(old(self).buffer@.subrange(4, old(self).buffer@.len() as int)
                                =~= old(self).buffer@.skip(4));
                        }
                        self.buffer = rest;
                        self.expected = Some(n);
                        proof {
                            let ob = old(self).buffer@;
                            crate::wire::lemma_enc_be_u32(ob[0], ob[1], ob[2], ob[3]);
                            assert(ob =~= seq![ob[0], ob[1], ob[2], ob[3]] + ob.skip(4));
                            assert(self.stream() == old(self).stream());
                        }
                        n
                    },
                    Err(_) => {
                        return None;
                    },
                }
            },
        };
        if self.buffer.len() as u64 >= n as u64 {
            let len = n as usize;
            let frame = vstd::slice::slice_to_vec(
                vstd::slice::slice_subrange(self.buffer.as_slice(), 0, len),
            );
            let rest = vstd::slice::slice_to_vec(
                vstd::slice::slice_subrange(self.buffer.as_slice(), len, self.buffer.len()),
            );
            let ghost pre = self.buffer@;
            let ghost mid = enc_u32(n) + pre;
            self.buffer = rest;
            self.expected = None;
            proof {
                crate::wire::lemma_dec_enc_u32(n, pre);
                assert(pre.subrange(0, len as int) =~= pre.take(n as int));
                assert(pre.subrange(len as int, pre.len() as int) =~= pre.skip(n as int));
                assert(dec_bytes(mid) == Ok::<_, WireFormatErrorV>((frame@, self.stream())));
            }
            Some(frame)
        } else {
            proof {
                crate::wire::lemma_dec_enc_u32(n, self.buffer@);
            }
            None
        }
    }
}

/*
 * In-flight table
 */

/// The map denoted by an association list of ids and sinks.
pub open spec fn assoc_map<T>(s: Seq<(u32, T)>) -> Map<u32, T>
    decreases s.len(),
{
    if s.len() == 0 {
        Map::empty()
    } else {
        assoc_map(s.drop_last()).insert(s.last().0, s.last().1)
    }
}

/// The ids of an association list, in order.
pub open spec fn assoc_ids<T>(s: Seq<(u32, T)>) -> Seq<u32> {
    s.map_values(|p: (u32, T)| p.0)
}

/// An id stands in the map exactly when some entry carries it.
pub proof fn lemma_assoc_map_dom<T>(s: Seq<(u32, T)>, id: u32)
    ensures
        assoc_map(s).dom().contains(id) <==> assoc_ids(s).contains(id),
    decreases s.len(),
{
    if s.len() > 0 {
        lemma_assoc_map_dom(s.drop_last(), id);
        assert(assoc_ids(s).last() == s.last().0);
        assert(assoc_ids(s).drop_last() =~= assoc_ids(s.drop_last()));
        if assoc_ids(s).contains(id) {
            let i = choose|i: int| 0 <= i < assoc_ids(s).len() && assoc_ids(s)[i] == id;
            if i < s.len() - 1 {
                assert(assoc_ids(s.drop_last())[i] == id);
            }
        }
        if assoc_ids(s.drop_last()).contains(id) {
            let i = choose|i: int|
                0 <= i < assoc_ids(s.drop_last()).len() && assoc_ids(s.drop_last())[i] == id;
            assert(assoc_ids(s)[i] == id);
        }
    }
}

/// With distinct ids, the entry at any index gives the map's value at
/// its id, and removing that entry removes the id from the map.
pub proof fn lemma_assoc_map_remove<T>(s: Seq<(u32, T)>, i: int)
    requires
        0 <= i < s.len(),
        forall|j: int, k: int|
            0 <= j < k < s.len() ==> (#[trigger] s[j]).0 != (#[trigger] s[k]).0,
    ensures
        assoc_map(s).dom().contains(s[i].0),
        assoc_map(s)[s[i].0] == s[i].1,
        assoc_map(s.remove(i)) == assoc_map(s).remove(s[i].0),
    decreases s.len(),
{
    let last = s.last();
    if i == s.len() - 1 {
        assert(s.remove(i) =~= s.drop_last());
        lemma_assoc_map_dom(s.drop_last(), last.0);
        if assoc_ids(s.drop_last()).contains(last.0) {
            let j = choose|j: int|
                0 <= j < assoc_ids(s.drop_last()).len() && assoc_ids(s.drop_last())[j] == last.0;
            assert(s[j].0 == last.0);
            assert(false);
        }
        assert(!assoc_map(s.drop_last()).dom().contains(last.0));
        assert(assoc_map(s.drop_last()) =~= assoc_map(s).remove(last.0));
    } else {
        lemma_assoc_map_remove(s.drop_last(), i);
        assert(s.remove(i).last() == last);
        assert(s.remove(i).drop_last() =~= s.drop_last().remove(i));
        assert(s.drop_last()[i] == s[i]);
        assert(s[i].0 != last.0);
        assert(assoc_map(s.remove(i)) == assoc_map(s.drop_last().remove(i)).insert(
            last.0,
            last.1,
        ));
        assert(assoc_map(s).remove(s[i].0) =~= assoc_map(s.drop_last()).remove(s[i].0).insert(
            last.0,
            last.1,
        ));
    }
}

/// The multiplexer's bookkeeping: the monotonically increasing request
/// id counter and the in-flight table mapping each id to the sink that
/// awaits its reply.
pub struct Receiver<T> {
    next_id: u32,
    onflight: Vec<(u32, T)>,
}

/// What the multiplexer does with one inbound frame.
pub enum DispatchOutcome<T> {
    /// The frame decoded and its id was in flight: hand the message to
    /// this sink.
    Reply(T, Message),
    /// The frame did not decode, but named an in-flight id: hand the
    /// failure to this sink.
    Fail(T, Error),
    /// The frame named no in-flight id: log and drop it; other
    /// waiters are unaffected.
    Discard,
}

impl<T> Receiver<T> {
    /// The in-flight table as a map from id to sink.
    pub closed spec fn table(self) -> Map<u32, T> {
        assoc_map(self.onflight@)
    }

    /// The id the next accepted command will get.
    pub closed spec fn spec_next_id(self) -> u32 {
        self.next_id
    }

    /// Well-formed bookkeeping: ids are distinct and never above the
    /// counter.
    pub closed spec fn wf(self) -> bool {
        &&& forall|j: int, k: int|
            0 <= j < k < self.onflight@.len() ==> (#[trigger] self.onflight@[j]).0 != (
            #[trigger] self.onflight@[k]).0
        &&& forall|j: int|
            0 <= j < self.onflight@.len() ==> 0 < (#[trigger] self.onflight@[j]).0
                <= self.next_id
    }

    /// A fresh multiplexer: no request issued, nothing in flight.
    pub fn new() -> (r: Receiver<T>)
        ensures
            r.wf(),
            r.spec_next_id() == 0,
            r.table() == Map::<u32, T>::empty(),
    {
        Receiver { next_id: 0, onflight: Vec::new() }
    }

    /// Accepts one command: assigns the next request id — ids are
    /// consecutive from 1 in acceptance order — and encodes the
    /// message under it.  On an encoding failure the id is still
    /// consumed and the error is returned for delivery to the sink;
    /// nothing is inserted in the table.
    pub fn prepare(&mut self, msg: &Message) -> (r: Result<(u32, Vec<u8>), (u32, Error)>)
        requires
            old(self).wf(),
            old(self).spec_next_id() < u32::MAX,
        ensures
            final(self).wf(),
            final(self).spec_next_id() == old(self).spec_next_id() + 1,
            final(self).table() == old(self).table(),
            match r {
                Ok((id, frame)) => {
                    &&& id == old(self).spec_next_id() + 1
                    &&& msg_fits(id, msg@)
                    &&& frame@ == enc_frame(id, msg@)
                },
                Err((id, e)) => {
                    &&& id == old(self).spec_next_id() + 1
                    &&& !msg_fits(id, msg@)
                    &&& e@ matches ErrorV::WireFormat(w) && w matches WireFormatErrorV::Custom(
                        t,
                    ) && t == "message too large"@
                },
            },
    {
        self.next_id = self.next_id + 1;
        let id = self.next_id;
        match msg.encode(id) {
            Ok(frame) => Ok((id, frame)),
            Err(e) => Err((id, Error::WireFormat(e))),
        }
    }

    /// Parks the sink of a request whose frame has been written.  The
    /// id must be the one `prepare` just assigned, which no in-flight
    /// entry carries.
    pub fn register(&mut self, id: u32, sink: T)
        requires
            old(self).wf(),
            0 < id <= old(self).spec_next_id(),
            !old(self).table().dom().contains(id),
        ensures
            final(self).wf(),
            final(self).spec_next_id() == old(self).spec_next_id(),
            final(self).table() == old(self).table().insert(id, sink),
    {
        proof {
            lemma_assoc_map_dom(self.onflight@, id);
            assert forall|j: int| 0 <= j < self.onflight@.len() implies (
            #[trigger] self.onflight@[j]).0 != id by {
                assert(assoc_ids(self.onflight@)[j] == self.onflight@[j].0);
                if self.onflight@[j].0 == id {
                    assert(assoc_ids(self.onflight@).contains(id));
                }
            }
        }
        self.onflight.push((id, sink));
        proof {
            assert(self.onflight@.drop_last() =~= old(self).onflight@);
        }
    }

    /// Takes the sink parked under an id out of the table, if any.
    pub fn take(&mut self, id: u32) -> (r: Option<T>)
        requires
            old(self).wf(),
        ensures
            final(self).wf(),
            final(self).spec_next_id() == old(self).spec_next_id(),
            match r {
                Some(sink) => {
                    &&& old(self).table().dom().contains(id)
                    &&& sink == old(self).table()[id]
                    &&& final(self).table() == old(self).table().remove(id)
                },
                None => {
                    &&& !old(self).table().dom().contains(id)
                    &&& final(self).table() == old(self).table()
                },
            },
    {
        let mut i: usize = 0;
        let n = self.onflight.len();
        loop
            invariant
                i <= n,
                n == self.onflight@.len(),
                *self == *old(self),
                old(self).wf(),
                forall|j: int| 0 <= j < i ==> (#[trigger] self.onflight@[j]).0 != id,
            ensures
                *self == *old(self),
                if i < n {
                    self.onflight@[i as int].0 == id
                } else {
                    forall|j: int|
                        0 <= j < self.onflight@.len() ==> (#[trigger] self.onflight@[j]).0 != id
                },
            decreases n - i,
        {
            if i == n {
                break ;
            }
            if self.onflight[i].0 == id {
                break ;
            }
            i = i + 1;
        }
        if i < n {
            proof {
                lemma_assoc_map_remove(self.onflight@, i as int);
            }
            let entry = self.onflight.remove(i);
            Some(entry.1)
        } else {
            proof {
                lemma_assoc_map_dom(self.onflight@, id);
                if assoc_ids(self.onflight@).contains(id) {
                    let j = choose|j: int|
                        0 <= j < assoc_ids(self.onflight@).len() && assoc_ids(self.onflight@)[j]
                            == id;
                    assert(self.onflight@[j].0 == id);
                }
            }
            None
        }
    }

    /// Decides what to do with one inbound frame payload: decode it,
    /// look its id up, and either deliver the reply, deliver the
    /// decode failure to the waiter the frame named, or drop the frame
    /// without touching any other waiter.
    pub fn dispatch(&mut self, frame: &[u8]) -> (r: DispatchOutcome<T>)
        requires
            old(self).wf(),
        ensures
            final(self).wf(),
            final(self).spec_next_id() == old(self).spec_next_id(),
            match dec_msg(frame@) {
                Ok((id, mv)) => {
                    if old(self).table().dom().contains(id) {
                        &&& r matches DispatchOutcome::Reply(sink, m) && sink == old(
                            self,
                        ).table()[id] && m@ == mv
                        &&& final(self).table() == old(self).table().remove(id)
                    } else {
                        &&& r is Discard
                        &&& final(self).table() == old(self).table()
                    }
                },
                Err(w) => {
                    match err_frame_id(frame@) {
                        Some(id) => {
                            if old(self).table().dom().contains(id) {
                                &&& r matches DispatchOutcome::Fail(sink, e) && sink == old(
                                    self,
                                ).table()[id] && e@ == ErrorV::WireFormat(w)
                                &&& final(self).table() == old(self).table().remove(id)
                            } else {
                                &&& r is Discard
                                &&& final(self).table() == old(self).table()
                            }
                        },
                        None => {
                            &&& r is Discard
                            &&& final(self).table() == old(self).table()
                        },
                    }
                },
            },
    {
        match Message::decode_raw(frame) {
            Ok((id, m)) => match self.take(id) {
                Some(sink) => DispatchOutcome::Reply(sink, m),
                None => DispatchOutcome::Discard,
            },
            Err(e) => match e.id {
                Some(id) => match self.take(id) {
                    Some(sink) => DispatchOutcome::Fail(sink, Error::from_decode_error(e)),
                    None => DispatchOutcome::Discard,
                },
                None => DispatchOutcome::Discard,
            },
        }
    }

    /// The id the next accepted command will get.
    pub fn next_id(&self) -> (r: u32)
        ensures
            r == self.spec_next_id(),
    {
        self.next_id
    }

    /// True when nothing is in flight.
    pub fn is_idle(&self) -> (r: bool)
        ensures
            r == (self.table() == Map::<u32, T>::empty()),
    {
        let r = self.onflight.len() == 0;
        proof {
            if self.onflight@.len() == 0 {
                assert(self.table() =~= Map::<u32, T>::empty());
            } else {
                assert(self.table().dom().contains(self.onflight@.last().0));
            }
        }
        r
    }

    /// Empties the table, handing back every parked sink so each can
    /// be failed when the stream dies with requests still in flight.
    pub fn drain(&mut self) -> (r: Vec<(u32, T)>)
        requires
            old(self).wf(),
        ensures
            final(self).wf(),
            final(self).spec_next_id() == old(self).spec_next_id(),
            final(self).table() == Map::<u32, T>::empty(),
            assoc_map(r@) == old(self).table(),
            forall|j: int, k: int|
                0 <= j < k < r@.len() ==> (#[trigger] r@[j]).0 != (#[trigger] r@[k]).0,
    {
        let mut out: Vec<(u32, T)> = Vec::new();
        core::mem::swap(&mut out, &mut self.onflight);
        out
    }
}

/// True when a message can be framed under the given id: every string
/// fits its length field and the whole payload fits the frame length.
pub open spec fn msg_fits(id: u32, m: MessageV) -> bool {
    crate::message::frame::msg_wf(m) && enc_msg(id, m).len() <= MAX_BYTES_LEN
}

} // verus!
