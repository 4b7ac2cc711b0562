//! The file cursor: a remote handle with a current byte offset and an
//! at-most-one-pending-operation discipline.
//!
//! The cursor itself never performs I/O.  Each operation is split in
//! two verified transitions: one that builds the protocol request and
//! marks the operation pending, and one that takes the server's reply
//! and advances the cursor.  The surrounding event loop only carries
//! messages between the two.

use vstd::prelude::*;

use crate::client::error::{Error, ErrorV, IoErrorKind};
use crate::message::attrs::Attrs;
use crate::message::requests::{Close, Data, FSetStat, FStat, Handle, Read, Write};

verus! {

/// Reads and writes are capped at 32 KiB per protocol request; larger
/// transfers are chunked.
pub const MAX_DATA_LEN: usize = 32768;

/// Where a seek counts from.
#[derive(Debug, Clone, Copy, PartialEq, Eq, Hash, Structural)]
pub enum SeekFrom {
    /// An absolute offset.
    Start(u64),
    /// A signed displacement from the end of the file; the size comes
    /// from a stat request on the handle.
    End(i64),
    /// A signed displacement from the current offset.
    Current(i64),
}

/// The operation a cursor is waiting on, if any.  A pending write
/// remembers how many bytes it submitted, a pending end-relative seek
/// remembers its displacement.
#[derive(Debug, Clone, Copy, PartialEq, Eq, Hash, Structural)]
pub enum PendingOperation {
    Idle,
    Read,
    Seek(i64),
    Write(usize),
    Close,
}

/// A file cursor: the server handle, the current offset, and the one
/// operation allowed to be in flight.
#[derive(Debug, Clone, PartialEq, Eq)]
pub struct File {
    handle: Option<Handle>,
    offset: u64,
    pending: PendingOperation,
}

impl File {
    /// The handle's bytes, while the cursor is open.
    pub closed spec fn spec_handle(self) -> Option<Seq<u8>> {
        match self.handle {
            Some(h) => Some(h@),
            None => None,
        }
    }

    /// The current byte offset.
    pub closed spec fn spec_offset(self) -> u64 {
        self.offset
    }

    /// The operation in flight, if any.
    pub closed spec fn spec_pending(self) -> PendingOperation {
        self.pending
    }

    /// A cursor over a freshly opened handle: offset zero, nothing
    /// pending.
    pub fn new(handle: Handle) -> (r: File)
        ensures
            r.spec_handle() == Some(handle@),
            r.spec_offset() == 0,
            r.spec_pending() == PendingOperation::Idle,
    {
        File { handle: Some(handle), offset: 0, pending: PendingOperation::Idle }
    }

    /// A cursor that is already closed: every operation fails fast.
    pub fn new_closed() -> (r: File)
        ensures
            r.spec_handle() is None,
            r.spec_offset() == 0,
            r.spec_pending() == PendingOperation::Idle,
    {
        File { handle: None, offset: 0, pending: PendingOperation::Idle }
    }

    /// True when the cursor no longer holds a handle.
    pub fn is_closed(&self) -> (r: bool)
        ensures
            r == (self.spec_handle() is None),
    {
        self.handle.is_none()
    }

    /// The current byte offset.
    pub fn offset(&self) -> (r: u64)
        ensures
            r == self.spec_offset(),
    {
        self.offset
    }

    /// The error every operation on a closed cursor reports.
    fn closed_error() -> (r: Error)
        ensures
            r@ == ErrorV::Io(IoErrorKind::BrokenPipe, "File was closed"@),
    {
        Error::Io(IoErrorKind::BrokenPipe, String::from_str("File was closed"))
    }

    /// Builds the stat request for the open handle.
    pub fn stat_request(&self) -> (r: Result<FStat, Error>)
        ensures
            match self.spec_handle() {
                Some(h) => r matches Ok(m) && m@ == h,
                None => r matches Err(e) && e@ == ErrorV::Io(
                    IoErrorKind::BrokenPipe,
                    "File was closed"@,
                ),
            },
    {
        match &self.handle {
            Some(h) => Ok(FStat { handle: h.duplicate() }),
            None => Err(File::closed_error()),
        }
    }

    /// Builds the set-attributes request for the open handle.
    pub fn set_stat_request(&self, attrs: Attrs) -> (r: Result<FSetStat, Error>)
        ensures
            match self.spec_handle() {
                Some(h) => r matches Ok(m) && m@ == (h, attrs),
                None => r matches Err(e) && e@ == ErrorV::Io(
                    IoErrorKind::BrokenPipe,
                    "File was closed"@,
                ),
            },
    {
        match &self.handle {
            Some(h) => Ok(FSetStat { handle: h.duplicate(), attrs }),
            None => Err(File::closed_error()),
        }
    }

    /// Starts a read at the current offset for at most `buf_len`
    /// bytes, capped at the per-request maximum.  The cursor must be
    /// idle.
    pub fn start_read(&mut self, buf_len: usize) -> (r: Result<Read, Error>)
        requires
            old(self).spec_pending() == PendingOperation::Idle,
        ensures
            final(self).spec_offset() == old(self).spec_offset(),
            final(self).spec_handle() == old(self).spec_handle(),
            match old(self).spec_handle() {
                Some(h) => {
                    &&& r matches Ok(m) && m@ == (
                        h,
                        old(self).spec_offset(),
                        (if buf_len < MAX_DATA_LEN {
                            buf_len
                        } else {
                            MAX_DATA_LEN
                        }) as u32,
                    )
                    &&& final(self).spec_pending() == PendingOperation::Read
                },
                None => {
                    &&& r matches Err(e) && e@ == ErrorV::Io(
                        IoErrorKind::BrokenPipe,
                        "File was closed"@,
                    )
                    &&& final(self).spec_pending() == PendingOperation::Idle
                },
            },
    {
        match &self.handle {
            Some(h) => {
                let length = if buf_len < MAX_DATA_LEN {
                    buf_len
                } else {
                    MAX_DATA_LEN
                };
                let request = Read { handle: h.duplicate(), offset: self.offset, length: length as u32 };
                self.pending = PendingOperation::Read;
                Ok(request)
            },
            None => Err(File::closed_error()),
        }
    }

    /// Takes the reply of a pending read: on data the offset advances
    /// by its length, and a server end-of-file status surfaces as a
    /// zero-byte read rather than an error.
    pub fn finish_read(&mut self, reply: Result<Data, Error>) -> (r: Result<Data, Error>)
        requires
            old(self).spec_pending() == PendingOperation::Read,
            reply matches Ok(d) ==> old(self).spec_offset() + d@.len() <= u64::MAX,
        ensures
            final(self).spec_handle() == old(self).spec_handle(),
            final(self).spec_pending() == PendingOperation::Idle,
            match reply {
                Ok(d) => {
                    &&& r matches Ok(out) && out@ == d@
                    &&& final(self).spec_offset() == old(self).spec_offset() + d@.len()
                },
                Err(e) => {
                    if e@ matches ErrorV::Sftp(s) && s.code is Eof {
                        &&& r matches Ok(out) && out@ == Seq::<u8>::empty()
                        &&& final(self).spec_offset() == old(self).spec_offset()
                    } else {
                        &&& r == Err::<Data, Error>(e)
                        &&& final(self).spec_offset() == old(self).spec_offset()
                    }
                },
            },
    {
        self.pending = PendingOperation::Idle;
        match reply {
            Ok(d) => {
                self.offset = self.offset + d.0.len() as u64;
                Ok(d)
            },
            Err(e) => {
                if e.is_eof_status() {
                    Ok(Data(Vec::new()))
                } else {
                    Err(e)
                }
            },
        }
    }

    /// Starts a write at the current offset of at most the per-request
    /// maximum taken from the front of `data`.  The cursor must be
    /// idle.
    pub fn start_write(&mut self, data: &[u8]) -> (r: Result<Write, Error>)
        requires
            old(self).spec_pending() == PendingOperation::Idle,
        ensures
            final(self).spec_offset() == old(self).spec_offset(),
            final(self).spec_handle() == old(self).spec_handle(),
            match old(self).spec_handle() {
                Some(h) => {
                    &&& r matches Ok(m) && m@ == (
                        h,
                        old(self).spec_offset(),
                        data@.take(
                            (if data@.len() < MAX_DATA_LEN {
                                data@.len() as int
                            } else {
                                MAX_DATA_LEN as int
                            }),
                        ),
                    )
                    &&& final(self).spec_pending() == PendingOperation::Write(
                        (if data@.len() < MAX_DATA_LEN {
                            data@.len() as usize
                        } else {
                            MAX_DATA_LEN
                        }),
                    )
                },
                None => {
                    &&& r matches Err(e) && e@ == ErrorV::Io(
                        IoErrorKind::BrokenPipe,
                        "File was closed"@,
                    )
                    &&& final(self).spec_pending() == PendingOperation::Idle
                },
            },
    {
        match &self.handle {
            Some(h) => {
                let length = if data.len() < MAX_DATA_LEN {
                    data.len()
                } else {
                    MAX_DATA_LEN
                };
                let chunk = vstd::slice::slice_to_vec(
                    vstd::slice::slice_subrange(data, 0, length),
                );
                proof {
                    assert(data@.subrange(0, length as int) =~= data@.take(length as int));
                }
                let request = Write {
                    handle: h.duplicate(),
                    offset: self.offset,
                    data: Data(chunk),
                };
                self.pending = PendingOperation::Write(length);
                Ok(request)
            },
            None => Err(File::closed_error()),
        }
    }

    /// Takes the status of a pending write: on success the offset
    /// advances by the number of bytes submitted, which is what the
    /// call reports, since the write reply carries no count.
    pub fn finish_write(&mut self, reply: Result<(), Error>) -> (r: Result<usize, Error>)
        requires
            old(self).spec_pending() matches PendingOperation::Write(n) && old(
                self,
            ).spec_offset() + n <= u64::MAX,
        ensures
            final(self).spec_handle() == old(self).spec_handle(),
            final(self).spec_pending() == PendingOperation::Idle,
            match reply {
                Ok(_) => {
                    &&& old(self).spec_pending() matches PendingOperation::Write(n) && r == Ok::<
                        usize,
                        Error,
                    >(n) && final(self).spec_offset() == old(self).spec_offset() + n
                },
                Err(e) => {
                    &&& r == Err::<usize, Error>(e)
                    &&& final(self).spec_offset() == old(self).spec_offset()
                },
            },
    {
        let n = match self.pending {
            PendingOperation::Write(n) => n,
            _ => 0,
        };
        self.pending = PendingOperation::Idle;
        match reply {
            Ok(_) => {
                self.offset = self.offset + n as u64;
                Ok(n)
            },
            Err(e) => Err(e),
        }
    }

    /// Starts a seek.  Absolute and current-relative seeks complete at
    /// once; an end-relative seek issues a stat request for the file
    /// size and leaves the cursor pending until [`File::finish_seek`].
    /// While any operation is pending the call refuses with a
    /// would-block error; a current-relative displacement that leaves
    /// the valid range fails with an invalid-data error.
    pub fn start_seek(&mut self, position: SeekFrom) -> (r: Result<Option<FStat>, Error>)
        ensures
            final(self).spec_handle() == old(self).spec_handle(),
            if old(self).spec_pending() != PendingOperation::Idle {
                &&& r matches Err(e) && e@ == ErrorV::Io(
                    IoErrorKind::WouldBlock,
                    "A pending operation must complete before seek"@,
                )
                &&& *final(self) == *old(self)
            } else {
                match position {
                    SeekFrom::Start(n) => {
                        &&& r == Ok::<Option<FStat>, Error>(None)
                        &&& final(self).spec_offset() == n
                        &&& final(self).spec_pending() == PendingOperation::Idle
                    },
                    SeekFrom::Current(i) => {
                        if 0 <= old(self).spec_offset() + i <= u64::MAX {
                            &&& r == Ok::<Option<FStat>, Error>(None)
                            &&& final(self).spec_offset() == old(self).spec_offset() + i
                            &&& final(self).spec_pending() == PendingOperation::Idle
                        } else {
                            &&& r matches Err(e) && e@ == ErrorV::Io(
                                IoErrorKind::InvalidData,
                                "Would seek to negative position"@,
                            )
                            &&& *final(self) == *old(self)
                        }
                    },
                    SeekFrom::End(i) => {
                        match old(self).spec_handle() {
                            Some(h) => {
                                &&& r matches Ok(m) && m matches Some(f) && f@ == h
                                &&& final(self).spec_offset() == old(self).spec_offset()
                                &&& final(self).spec_pending() == PendingOperation::Seek(i)
                            },
                            None => {
                                &&& r matches Err(e) && e@ == ErrorV::Io(
                                    IoErrorKind::BrokenPipe,
                                    "File was closed"@,
                                )
                                &&& *final(self) == *old(self)
                            },
                        }
                    },
                }
            },
    {
        if !matches!(self.pending, PendingOperation::Idle) {
            return Err(Error::Io(
                IoErrorKind::WouldBlock,
                String::from_str("A pending operation must complete before seek"),
            ));
        }
        match position {
            SeekFrom::Start(n) => {
                self.offset = n;
                Ok(None)
            },
            SeekFrom::Current(i) => {
                match self.offset.checked_add_signed(i) {
                    Some(n) => {
                        self.offset = n;
                        Ok(None)
                    },
                    None => Err(Error::Io(
                        IoErrorKind::InvalidData,
                        String::from_str("Would seek to negative position"),
                    )),
                }
            },
            SeekFrom::End(i) => {
                match &self.handle {
                    Some(h) => {
                        let request = FStat { handle: h.duplicate() };
                        self.pending = PendingOperation::Seek(i);
                        Ok(Some(request))
                    },
                    None => Err(File::closed_error()),
                }
            },
        }
    }

    /// Takes the attributes reply of a pending end-relative seek.  The
    /// new offset is the reported size plus the displacement; a server
    /// that omits the size cannot serve the seek, and a displacement
    /// that leaves the valid range is invalid.
    pub fn finish_seek(&mut self, reply: Result<Attrs, Error>) -> (r: Result<u64, Error>)
        requires
            old(self).spec_pending() matches PendingOperation::Seek(_),
        ensures
            final(self).spec_handle() == old(self).spec_handle(),
            final(self).spec_pending() == PendingOperation::Idle,
            ({
                let i = old(self).spec_pending()->Seek_0;
                match reply {
                    Ok(attrs) => match attrs.size {
                        Some(size) => {
                            if 0 <= size + i <= u64::MAX {
                                &&& r == Ok::<u64, Error>((size + i) as u64)
                                &&& final(self).spec_offset() == size + i
                            } else {
                                &&& r matches Err(e) && e@ == ErrorV::Io(
                                    IoErrorKind::InvalidData,
                                    "Would seek to negative position"@,
                                )
                                &&& final(self).spec_offset() == old(self).spec_offset()
                            }
                        },
                        None => {
                            &&& r matches Err(e) && e@ == ErrorV::Io(
                                IoErrorKind::Unsupported,
                                "Unable to seek from the end of file: could not get file size"@,
                            )
                            &&& final(self).spec_offset() == old(self).spec_offset()
                        },
                    },
                    Err(e) => {
                        &&& r == Err::<u64, Error>(e)
                        &&& final(self).spec_offset() == old(self).spec_offset()
                    },
                }
            }),
    {
        let i = match self.pending {
            PendingOperation::Seek(i) => i,
            _ => 0,
        };
        self.pending = PendingOperation::Idle;
        match reply {
            Ok(attrs) => match attrs.size {
                Some(size) => match size.checked_add_signed(i) {
                    Some(n) => {
                        self.offset = n;
                        Ok(n)
                    },
                    None => Err(Error::Io(
                        IoErrorKind::InvalidData,
                        String::from_str("Would seek to negative position"),
                    )),
                },
                None => Err(Error::Io(
                    IoErrorKind::Unsupported,
                    String::from_str(
                        "Unable to seek from the end of file: could not get file size",
                    ),
                )),
            },
            Err(e) => Err(e),
        }
    }

    /// Starts closing the cursor: gives up the handle and builds the
    /// close request for it.  Closing an already-closed cursor is
    /// complete at once, so a second close resolves immediately.
    pub fn start_close(&mut self) -> (r: Option<Close>)
        ensures
            final(self).spec_handle() is None,
            final(self).spec_offset() == old(self).spec_offset(),
            final(self).spec_pending() == PendingOperation::Idle,
            match old(self).spec_handle() {
                Some(h) => r matches Some(m) && m@ == h,
                None => r is None,
            },
    {
        self.pending = PendingOperation::Idle;
        match self.handle.take() {
            Some(h) => Some(Close { handle: h }),
            None => None,
        }
    }
}

} // verus!
