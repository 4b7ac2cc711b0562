//! The typed message catalogue of the protocol: request and reply
//! values, the attribute record, and their wire encodings.

pub mod attrs;
pub mod frame;
pub mod name;
pub mod path;
pub mod requests;
pub mod status;
pub mod version;

pub use attrs::{Attrs, Owner, Time};
pub use frame::{DecodeError, Message, MessageV};
pub use name::{Name, NameEntry};
pub use path::Path;
pub use requests::{
    Close, Data, Extended, ExtendedReply, FSetStat, FStat, Handle, LStat, MkDir, Open, OpenDir,
    PFlags, Read, ReadDir, ReadLink, RealPath, Remove, Rename, RmDir, SetStat, Stat, Symlink,
    Write,
};
pub use status::{Status, StatusCode};
pub use version::{Init, Version};
