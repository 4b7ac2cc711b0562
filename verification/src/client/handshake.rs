//! The version handshake: the greeting written on a freshly attached
//! stream and the check of the server's answer.

use vstd::prelude::*;

use crate::client::error::Error;
use crate::message::frame::{Message, MessageV};
use crate::message::status::StatusCode;
use crate::message::version::Init;
use crate::SFTP_VERSION;

verus! {

/// The greeting the client writes immediately after taking the
/// stream: the protocol revision this crate implements, with an empty
/// extension map.
pub fn init_message() -> (r: Message)
    ensures
        r@ == MessageV::Init(SFTP_VERSION, Seq::<(Seq<u8>, Seq<u8>)>::empty()),
{
    let r = Message::Init(Init { version: SFTP_VERSION, extensions: Vec::new() });
    proof {
        assert(Seq::<(Vec<u8>, Vec<u8>)>::empty().map_values(
            |p: (Vec<u8>, Vec<u8>)| (p.0@, p.1@),
        ) =~= Seq::<(Seq<u8>, Seq<u8>)>::empty());
    }
    r
}

/// Checks the first frame the server sends back.  The session is
/// established exactly when it is a version answer naming the same
/// revision; any other revision or any other message is a handshake
/// failure, and the session must be abandoned.
pub fn check_version_reply(msg: &Message) -> (r: Result<(), Error>)
    ensures
        match msg@ {
            MessageV::Version(v, _) => {
                if v == SFTP_VERSION {
                    r is Ok
                } else {
                    r matches Err(e) && crate::client::reply::bad_message_err(
                        e@,
                        "Invalid sftp version"@,
                    )
                }
            },
            _ => r matches Err(e) && crate::client::reply::bad_message_err(e@, "Bad SFTP init"@),
        },
{
    proof {
        reveal_strlit("Invalid sftp version");
        reveal_strlit("Bad SFTP init");
    }
    match msg {
        Message::Version(v) => {
            if v.version == SFTP_VERSION {
                Ok(())
            } else {
                Err(Error::Sftp(StatusCode::BadMessage.to_status("Invalid sftp version")))
            }
        },
        _ => Err(Error::Sftp(StatusCode::BadMessage.to_status("Bad SFTP init"))),
    }
}

} // verus!
