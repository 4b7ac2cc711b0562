//! Narrowing a reply message to the payload a request expects.
//!
//! Each operation awaits one reply kind.  A status reply carrying an
//! error is surfaced verbatim; any other unexpected reply — including
//! a successful status where a payload was expected — is a protocol
//! violation answered with a `BadMessage` status.

use vstd::prelude::*;
use vstd::utf8::encode_utf8;

use crate::client::error::{Error, ErrorV};
use crate::message::attrs::Attrs;
use crate::message::frame::{Message, MessageV};
use crate::message::name::Name;
use crate::message::path::Path;
use crate::message::requests::{Data, ExtendedReply, Handle};
use crate::message::status::{StatusCode, StatusV};

verus! {

/// True of the error that answers a semantically wrong reply: a
/// `BadMessage` status carrying the given text and the `en` language
/// tag.
pub open spec fn bad_message_err(e: ErrorV, text: Seq<char>) -> bool {
    &&& e matches ErrorV::Sftp(s)
    &&& s.code is BadMessage
    &&& s.error == encode_utf8(text)
    &&& s.language == encode_utf8("en"@)
}

/// True of the error that surfaces a server status verbatim.
pub open spec fn status_err(e: ErrorV, s: StatusV) -> bool {
    e == ErrorV::Sftp(s)
}

impl Attrs {
    /// The attributes carried by a reply to a stat request.
    pub fn from_reply_message(msg: Message) -> (r: Result<Attrs, Error>)
        ensures
            match msg@ {
                MessageV::Attrs(a) => r == Ok::<Attrs, Error>(a),
                MessageV::Status(s) => if s.code is Okay {
                    r matches Err(e) && bad_message_err(e@, "Expected a Attrs or a Status"@)
                } else {
                    r matches Err(e) && status_err(e@, s)
                },
                _ => r matches Err(e) && bad_message_err(e@, "Expected a Attrs or a Status"@),
            },
    {
        proof {
            reveal_strlit("Expected a Attrs or a Status");
        }
        match msg {
            Message::Attrs(a) => Ok(a),
            Message::Status(s) => {
                if s.is_err() {
                    Err(Error::Sftp(s))
                } else {
                    Err(Error::Sftp(
                        StatusCode::BadMessage.to_status("Expected a Attrs or a Status"),
                    ))
                }
            },
            _ => Err(Error::Sftp(
                StatusCode::BadMessage.to_status("Expected a Attrs or a Status"),
            )),
        }
    }
}

impl Data {
    /// The bytes carried by a reply to a read request.
    pub fn from_reply_message(msg: Message) -> (r: Result<Data, Error>)
        ensures
            match msg@ {
                MessageV::Data(d) => r matches Ok(v) && v@ == d,
                MessageV::Status(s) => if s.code is Okay {
                    r matches Err(e) && bad_message_err(e@, "Expected a Data or a Status"@)
                } else {
                    r matches Err(e) && status_err(e@, s)
                },
                _ => r matches Err(e) && bad_message_err(e@, "Expected a Data or a Status"@),
            },
    {
        proof {
            reveal_strlit("Expected a Data or a Status");
        }
        match msg {
            Message::Data(d) => Ok(d),
            Message::Status(s) => {
                if s.is_err() {
                    Err(Error::Sftp(s))
                } else {
                    Err(Error::Sftp(
                        StatusCode::BadMessage.to_status("Expected a Data or a Status"),
                    ))
                }
            },
            _ => Err(Error::Sftp(
                StatusCode::BadMessage.to_status("Expected a Data or a Status"),
            )),
        }
    }
}

impl Handle {
    /// The handle carried by a reply to an open request.
    pub fn from_reply_message(msg: Message) -> (r: Result<Handle, Error>)
        ensures
            match msg@ {
                MessageV::Handle(h) => r matches Ok(v) && v@ == h,
                MessageV::Status(s) => if s.code is Okay {
                    r matches Err(e) && bad_message_err(e@, "Expected a Handle or a Status"@)
                } else {
                    r matches Err(e) && status_err(e@, s)
                },
                _ => r matches Err(e) && bad_message_err(e@, "Expected a Handle or a Status"@),
            },
    {
        proof {
            reveal_strlit("Expected a Handle or a Status");
        }
        match msg {
            Message::Handle(h) => Ok(h),
            Message::Status(s) => {
                if s.is_err() {
                    Err(Error::Sftp(s))
                } else {
                    Err(Error::Sftp(
                        StatusCode::BadMessage.to_status("Expected a Handle or a Status"),
                    ))
                }
            },
            _ => Err(Error::Sftp(
                StatusCode::BadMessage.to_status("Expected a Handle or a Status"),
            )),
        }
    }
}

impl Name {
    /// The listing batch carried by a reply to a directory or path
    /// request.
    pub fn from_reply_message(msg: Message) -> (r: Result<Name, Error>)
        ensures
            match msg@ {
                MessageV::Name(s) => r matches Ok(v) && v@ == s,
                MessageV::Status(s) => if s.code is Okay {
                    r matches Err(e) && bad_message_err(e@, "Expected a Name or a Status"@)
                } else {
                    r matches Err(e) && status_err(e@, s)
                },
                _ => r matches Err(e) && bad_message_err(e@, "Expected a Name or a Status"@),
            },
    {
        proof {
            reveal_strlit("Expected a Name or a Status");
        }
        match msg {
            Message::Name(n) => Ok(n),
            Message::Status(s) => {
                if s.is_err() {
                    Err(Error::Sftp(s))
                } else {
                    Err(Error::Sftp(
                        StatusCode::BadMessage.to_status("Expected a Name or a Status"),
                    ))
                }
            },
            _ => Err(Error::Sftp(
                StatusCode::BadMessage.to_status("Expected a Name or a Status"),
            )),
        }
    }
}

impl ExtendedReply {
    /// The vendor data carried by a reply to an extended request.
    pub fn from_reply_message(msg: Message) -> (r: Result<ExtendedReply, Error>)
        ensures
            match msg@ {
                MessageV::ExtendedReply(d) => r matches Ok(v) && v@ == d,
                MessageV::Status(s) => if s.code is Okay {
                    r matches Err(e) && bad_message_err(
                        e@,
                        "Expected a ExtendedReply or a Status"@,
                    )
                } else {
                    r matches Err(e) && status_err(e@, s)
                },
                _ => r matches Err(e) && bad_message_err(
                    e@,
                    "Expected a ExtendedReply or a Status"@,
                ),
            },
    {
        proof {
            reveal_strlit("Expected a ExtendedReply or a Status");
        }
        match msg {
            Message::ExtendedReply(d) => Ok(d),
            Message::Status(s) => {
                if s.is_err() {
                    Err(Error::Sftp(s))
                } else {
                    Err(Error::Sftp(
                        StatusCode::BadMessage.to_status("Expected a ExtendedReply or a Status"),
                    ))
                }
            },
            _ => Err(Error::Sftp(
                StatusCode::BadMessage.to_status("Expected a ExtendedReply or a Status"),
            )),
        }
    }
}

/// Screens an outbound request before it is enqueued: a status
/// message is never sent to the server — an error status is handed
/// straight back, and a successful one is itself a protocol
/// violation — while every other message passes unchanged.
pub fn validate_request(msg: Message) -> (r: Result<Message, Error>)
    ensures
        match msg@ {
            MessageV::Status(s) => if s.code is Okay {
                r matches Err(e) && bad_message_err(
                    e@,
                    "Tried to send an OK status message to the server"@,
                )
            } else {
                r matches Err(e) && status_err(e@, s)
            },
            _ => r matches Ok(m) && m@ == msg@,
        },
{
    proof {
        reveal_strlit("Tried to send an OK status message to the server");
    }
    match msg {
        Message::Status(s) => {
            if s.is_err() {
                Err(Error::Sftp(s))
            } else {
                Err(Error::Sftp(
                    StatusCode::BadMessage.to_status(
                        "Tried to send an OK status message to the server",
                    ),
                ))
            }
        },
        other => Ok(other),
    }
}

/// The outcome of a request whose only reply is a status: success
/// exactly when the server answered with a successful status.
pub fn unit_from_reply_message(msg: Message) -> (r: Result<(), Error>)
    ensures
        match msg@ {
            MessageV::Status(s) => if s.code is Okay {
                r is Ok
            } else {
                r matches Err(e) && status_err(e@, s)
            },
            _ => r matches Err(e) && bad_message_err(e@, "Expected a status"@),
        },
{
    proof {
        reveal_strlit("Expected a status");
    }
    match msg {
        Message::Status(s) => match s.to_result(()) {
            Ok(unit) => Ok(unit),
            Err(status) => Err(Error::Sftp(status)),
        },
        _ => Err(Error::Sftp(StatusCode::BadMessage.to_status("Expected a status"))),
    }
}

/// The single path carried by a reply to a path resolution or link
/// reading request.  Zero entries or more than one entry in the
/// listing is a protocol violation.
pub fn extract_path_from_name_message(msg: Message) -> (r: Result<Path, Error>)
    ensures
        match msg@ {
            MessageV::Name(s) => {
                if s.len() == 1 {
                    r matches Ok(p) && p@ == s[0].filename
                } else if s.len() == 0 {
                    r matches Err(e) && bad_message_err(e@, "No entry"@)
                } else {
                    r matches Err(e) && bad_message_err(e@, "Multiple entries"@)
                }
            },
            MessageV::Status(s) => if s.code is Okay {
                r matches Err(e) && bad_message_err(e@, "Expected a Name or a Status"@)
            } else {
                r matches Err(e) && status_err(e@, s)
            },
            _ => r matches Err(e) && bad_message_err(e@, "Expected a Name or a Status"@),
        },
{
    proof {
        reveal_strlit("No entry");
        reveal_strlit("Multiple entries");
    }
    let mut name = match Name::from_reply_message(msg) {
        Ok(n) => n,
        Err(e) => {
            return Err(e);
        },
    };
    if name.0.len() == 0 {
        Err(Error::Sftp(StatusCode::BadMessage.to_status("No entry")))
    } else if name.0.len() == 1 {
        let entry = name.0.pop().unwrap();
        Ok(entry.filename)
    } else {
        Err(Error::Sftp(StatusCode::BadMessage.to_status("Multiple entries")))
    }
}

} // verus!
