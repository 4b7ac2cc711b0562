//! The client side of the protocol: the unified error kind, the reply
//! narrowing, the request multiplexer's state machine, and the file
//! and directory cursors.

pub mod dir;
pub mod error;
pub mod file;
pub mod handshake;
pub mod receiver;
pub mod reply;

pub use dir::{Dir, DirStep, ReadDirAll, ReadDirStep};
pub use error::{Error, IoErrorKind};
pub use file::{File, PendingOperation, SeekFrom};
pub use handshake::{check_version_reply, init_message};
pub use receiver::{DispatchOutcome, FrameBuffer, Receiver};
pub use reply::{extract_path_from_name_message, validate_request};
