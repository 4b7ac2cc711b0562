//! The directory cursor: a remote directory handle behind a lazy,
//! finite, non-restartable sequence of listing rows, and the
//! accumulator behind the one-call directory listing.
//!
//! The cursor holds a buffer of rows, reversed so the next row pops
//! off the tail in constant time, and allows at most one listing
//! request in flight.

use vstd::prelude::*;

use crate::client::error::{Error, ErrorV, IoErrorKind};
use crate::message::name::{Name, NameEntry, NameEntryV};
use crate::message::requests::{Close, Handle, ReadDir};

verus! {

/// What the cursor asks of its driver to produce the next row.
pub enum DirStep {
    /// The next row, straight from the buffer.
    Entry(NameEntry),
    /// The sequence has terminated; there are no more rows.
    Terminated,
    /// The buffer is drained: send this listing request and hand its
    /// reply to [`Dir::on_batch`].
    Fetch(ReadDir),
    /// The cursor was closed while iterating: this error is the last
    /// item, and the sequence terminates after it.
    Failed(Error),
}

/// A directory cursor: the server handle, the buffered rows, and the
/// at-most-one-listing-request-pending discipline.
#[derive(Debug, Clone, PartialEq, Eq)]
pub struct Dir {
    handle: Option<Handle>,
    buffer: Option<Name>,
    pending: bool,
}

impl Dir {
    /// The handle's bytes, while the cursor is open.
    pub closed spec fn spec_handle(self) -> Option<Seq<u8>> {
        match self.handle {
            Some(h) => Some(h@),
            None => None,
        }
    }

    /// The rows buffered and not yet yielded, in the order they will
    /// come out, or nothing once the sequence has terminated.
    pub closed spec fn spec_buffered(self) -> Option<Seq<NameEntryV>> {
        match self.buffer {
            Some(n) => Some(n@.reverse()),
            None => None,
        }
    }

    /// True while a listing request is in flight.
    pub closed spec fn spec_pending(self) -> bool {
        self.pending
    }

    /// A cursor over a freshly opened directory handle: an empty
    /// buffer, nothing in flight.
    pub fn new(handle: Handle) -> (r: Dir)
        ensures
            r.spec_handle() == Some(handle@),
            r.spec_buffered() == Some(Seq::<NameEntryV>::empty()),
            !r.spec_pending(),
    {
        let r = Dir { handle: Some(handle), buffer: Some(Name(Vec::new())), pending: false };
        proof {
            assert(Seq::<NameEntry>::empty().map_values(|e: NameEntry| e@).reverse()
                =~= Seq::<NameEntryV>::empty());
        }
        r
    }

    /// A cursor that is already closed: the sequence has terminated.
    pub fn new_closed() -> (r: Dir)
        ensures
            r.spec_handle() is None,
            r.spec_buffered() is None,
            !r.spec_pending(),
    {
        Dir { handle: None, buffer: None, pending: false }
    }

    /// True when the cursor no longer holds a handle.
    pub fn is_closed(&self) -> (r: bool)
        ensures
            r == (self.spec_handle() is None),
    {
        self.handle.is_none()
    }

    /// Produces the next row or says what must happen first: yield
    /// from the buffer while it lasts, fetch one batch when it is
    /// drained, report the close error once when the handle is gone,
    /// and terminate for good after that.
    pub fn next_step(&mut self) -> (r: DirStep)
        requires
            !old(self).spec_pending(),
        ensures
            final(self).spec_handle() == old(self).spec_handle(),
            match old(self).spec_buffered() {
                None => {
                    &&& r is Terminated
                    &&& *final(self) == *old(self)
                },
                Some(rows) => {
                    if rows.len() > 0 {
                        &&& r matches DirStep::Entry(e) && e@ == rows[0]
                        &&& final(self).spec_buffered() == Some(rows.drop_first())
                        &&& !final(self).spec_pending()
                    } else {
                        match old(self).spec_handle() {
                            Some(h) => {
                                &&& r matches DirStep::Fetch(m) && m@ == h
                                &&& final(self).spec_buffered() == Some(rows)
                                &&& final(self).spec_pending()
                            },
                            None => {
                                &&& r matches DirStep::Failed(e) && e@ == ErrorV::Io(
                                    IoErrorKind::BrokenPipe,
                                    "Dir was closed"@,
                                )
                                &&& final(self).spec_buffered() is None
                                &&& !final(self).spec_pending()
                            },
                        }
                    }
                },
            },
    {
        let buffer = match &mut self.buffer {
            Some(b) => b,
            None => {
                return DirStep::Terminated;
            },
        };
        let ghost rows = buffer@.reverse();
        match buffer.0.pop() {
            Some(entry) => {
                proof {
                    let mapped = old(self).buffer->Some_0@;
                    assert(buffer@ =~= mapped.drop_last());
                    assert(entry@ == mapped.last());
                    assert(rows[0] == mapped.last());
                    assert(mapped.drop_last().reverse() =~= rows.drop_first());
                }
                DirStep::Entry(entry)
            },
            None => {
                match &self.handle {
                    Some(h) => {
                        self.pending = true;
                        DirStep::Fetch(ReadDir { handle: h.duplicate() })
                    },
                    None => {
                        self.buffer = None;
                        DirStep::Failed(Error::Io(
                            IoErrorKind::BrokenPipe,
                            String::from_str("Dir was closed"),
                        ))
                    },
                }
            },
        }
    }

    /// Takes the reply of the pending listing request.  A batch of
    /// rows yields its first row and buffers the rest; a batch with no
    /// rows is a protocol violation surfaced as an unexpected
    /// end-of-file; the server's end-of-file status terminates the
    /// sequence cleanly; any other error is the last item.
    pub fn on_batch(&mut self, reply: Result<Name, Error>) -> (r: Option<
        Result<NameEntry, Error>,
    >)
        requires
            old(self).spec_pending(),
        ensures
            final(self).spec_handle() == old(self).spec_handle(),
            !final(self).spec_pending(),
            match reply {
                Ok(batch) => {
                    if batch@.len() > 0 {
                        &&& r matches Some(item) && item matches Ok(e) && e@ == batch@[0]
                        &&& final(self).spec_buffered() == Some(batch@.drop_first())
                    } else {
                        &&& r matches Some(item) && item matches Err(e) && e@ == ErrorV::Io(
                            IoErrorKind::UnexpectedEof,
                            "Found no more directory entries while it was expecting some"@,
                        )
                        &&& final(self).spec_buffered() is None
                    }
                },
                Err(e) => {
                    if e@ matches ErrorV::Sftp(s) && s.code is Eof {
                        &&& r is None
                        &&& final(self).spec_buffered() is None
                    } else {
                        &&& r matches Some(item) && item matches Err(e2) && e2 == e
                        &&& final(self).spec_buffered() is None
                    }
                },
            },
    {
        self.pending = false;
        match reply {
            Ok(batch) => {
                let mut reversed = reversed_entries(batch.0);
                let ghost rv = reversed@;
                match reversed.pop() {
                    Some(entry) => {
                        self.buffer = Some(Name(reversed));
                        proof {
                            let bv = reply->Ok_0@;
                            assert(rv.map_values(|e: NameEntry| e@) =~= bv.reverse());
                            assert(entry@ == bv[0]);
                            assert(rv.drop_last().map_values(|e: NameEntry| e@)
                                =~= bv.reverse().drop_last());
                            assert(bv.reverse().drop_last().reverse() =~= bv.drop_first());
                        }
                        Some(Ok(entry))
                    },
                    None => {
                        self.buffer = None;
                        Some(Err(Error::Io(
                            IoErrorKind::UnexpectedEof,
                            String::from_str(
                                "Found no more directory entries while it was expecting some",
                            ),
                        )))
                    },
                }
            },
            Err(e) => {
                self.buffer = None;
                if e.is_eof_status() {
                    None
                } else {
                    Some(Err(e))
                }
            },
        }
    }

    /// Starts closing the cursor: gives up the handle and builds the
    /// close request for it.  Closing an already-closed cursor is
    /// complete at once.
    pub fn close(&mut self) -> (r: Option<Close>)
        ensures
            final(self).spec_handle() is None,
            final(self).spec_buffered() is None,
            !final(self).spec_pending(),
            match old(self).spec_handle() {
                Some(h) => r matches Some(m) && m@ == h,
                None => r is None,
            },
    {
        self.buffer = None;
        self.pending = false;
        match self.handle.take() {
            Some(h) => Some(Close { handle: h }),
            None => None,
        }
    }
}

/// The entries of a batch in reverse order.
fn reversed_entries(v: Vec<NameEntry>) -> (r: Vec<NameEntry>)
    ensures
        r@ == v@.reverse(),
{
    let mut rest = v;
    let mut out: Vec<NameEntry> = Vec::new();
    let ghost orig = rest@;
    loop
        invariant
            orig == rest@ + out@.reverse(),
        ensures
            rest@.len() == 0,
            orig == out@.reverse(),
        decreases rest@.len(),
    {
        match rest.pop() {
            Some(e) => {
                out.push(e);
                proof {
                    assert(rest@ + out@.reverse() =~= orig);
                }
            },
            None => {
                proof {
                    assert(rest@ + out@.reverse() =~= out@.reverse());
                }
                break ;
            },
        }
    }
    proof {
        assert(out@ =~= orig.reverse());
    }
    out
}

/// The accumulator behind the one-call directory listing: open the
/// directory, fetch batches until the server's end-of-file status,
/// close the handle, and return every row in arrival order.
pub struct ReadDirAll {
    entries: Name,
}

/// What the one-call listing does after one batch reply.
pub enum ReadDirStep {
    /// The batch was appended: fetch the next one.
    Continue,
    /// The listing is exhausted: close the handle and take the rows.
    CloseThenFinish,
    /// A batch failed: close the handle best-effort and report this
    /// error.
    CloseThenFail(Error),
}

impl ReadDirAll {
    /// An empty accumulator.
    pub fn new() -> (r: ReadDirAll)
        ensures
            r.spec_entries() == Seq::<NameEntryV>::empty(),
    {
        let r = ReadDirAll { entries: Name(Vec::new()) };
        proof {
            assert(Seq::<NameEntry>::empty().map_values(|e: NameEntry| e@)
                =~= Seq::<NameEntryV>::empty());
        }
        r
    }

    /// The rows accumulated so far, in arrival order.
    pub closed spec fn spec_entries(self) -> Seq<NameEntryV> {
        self.entries@
    }

    /// Takes one batch reply: rows are appended in order, the server's
    /// end-of-file status ends the listing, and any other error aborts
    /// it.
    pub fn on_batch(&mut self, reply: Result<Name, Error>) -> (r: ReadDirStep)
        ensures
            match reply {
                Ok(batch) => {
                    &&& r is Continue
                    &&& final(self).spec_entries() == old(self).spec_entries() + batch@
                },
                Err(e) => {
                    &&& final(self).spec_entries() == old(self).spec_entries()
                    &&& if e@ matches ErrorV::Sftp(s) && s.code is Eof {
                        r is CloseThenFinish
                    } else {
                        r matches ReadDirStep::CloseThenFail(e2) && e2 == e
                    }
                },
            },
    {
        match reply {
            Ok(mut batch) => {
                let ghost before = self.entries@;
                let ghost bv = batch@;
                self.entries.0.append(&mut batch.0);
                proof {
                    assert(self.entries.0@.map_values(|e: NameEntry| e@) =~= before + bv);
                }
                ReadDirStep::Continue
            },
            Err(e) => {
                if e.is_eof_status() {
                    ReadDirStep::CloseThenFinish
                } else {
                    ReadDirStep::CloseThenFail(e)
                }
            },
        }
    }

    /// Hands out the accumulated rows.
    pub fn into_entries(self) -> (r: Name)
        ensures
            r@ == self.spec_entries(),
    {
        self.entries
    }
}

} // verus!
