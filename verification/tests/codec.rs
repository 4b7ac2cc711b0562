//! Bit-exact codec checks for every message record: golden encodings,
//! decode of every golden vector, and failures on truncated or
//! malformed input.

use rusftp::message::attrs::{Attrs, Owner, Time};
use rusftp::message::name::{Name, NameEntry};
use rusftp::message::path::Path;
use rusftp::message::requests::{
    Close, Data, Extended, ExtendedReply, FSetStat, FStat, Handle, LStat, MkDir, Open, OpenDir,
    Read, ReadDir, ReadLink, RealPath, Rename, RmDir, SetStat, Symlink, Write, PFLAGS_CREATE,
    PFLAGS_READ,
};
use rusftp::message::status::{Status, StatusCode};
use rusftp::message::version::{Init, Version};
use rusftp::wire::WireFormatError;

const BYTES_VALID: [(&[u8], &[u8]); 8] = [
    (b"" as &[u8], b"\0\0\0\0" as &[u8]),
    (b"\0", b"\0\0\0\x01\0"),
    (b"\0\0", b"\0\0\0\x02\0\0"),
    (b"byte string", b"\0\0\0\x0bbyte string"),
    (
        b"byte string with\nline returns and spaces",
        b"\0\0\0\x28byte string with\nline returns and spaces",
    ),
    (b"null\0bytes", b"\0\0\0\x0anull\0bytes"),
    (b"null\0bytes\0", b"\0\0\0\x0bnull\0bytes\0"),
    (
        b"this is a very long byte string that should be larger than 256 bytes and would therefore need a size encoded into two bytes. This serve as a good example of very long messages to ensure the logic is well defined for large inputs like this one. And I ran out of description for this very long byte string so here it is: Lorem ipsum dolor sit amet, consectetur adipiscing elit, sed do eiusmod tempor incididunt ut labore et dolore magna aliqua.",
        b"\0\0\x01\xbathis is a very long byte string that should be larger than 256 bytes and would therefore need a size encoded into two bytes. This serve as a good example of very long messages to ensure the logic is well defined for large inputs like this one. And I ran out of description for this very long byte string so here it is: Lorem ipsum dolor sit amet, consectetur adipiscing elit, sed do eiusmod tempor incididunt ut labore et dolore magna aliqua.",
    ),
];

const BYTES_INVALID: [(&[u8], WireFormatError); 2] = [
    (b"" as &[u8], WireFormatError::NotEnoughData),
    (b"\0\0\0\x01", WireFormatError::NotEnoughData),
];

// Permission bits 0x00007632: other-write, group-write, group-read,
// special-execute, special-write, fifo, character device, directory.
const PERMISSIONS_EXAMPLE: u32 = 0x00007632;

fn attrs_valid() -> Vec<(Attrs, &'static [u8])> {
    let size = Some(0xfedcba9876543210);
    let owner = Some(Owner {
        uid: 0xf7e6d5c4,
        gid: 0xb3a29180,
    });
    let perms = Some(PERMISSIONS_EXAMPLE);
    let time = Some(Time {
        atime: 0xfdb97531,
        mtime: 0xeca86420,
    });
    vec![
        (Attrs::new(), b"\0\0\0\0" as &[u8]),
        (
            Attrs {
                size: Some(0),
                ..Attrs::new()
            },
            b"\0\0\0\x01\0\0\0\0\0\0\0\0",
        ),
        (
            Attrs {
                size,
                ..Attrs::new()
            },
            b"\0\0\0\x01\xfe\xdc\xba\x98\x76\x54\x32\x10",
        ),
        (
            Attrs {
                owner: Some(Owner { uid: 0, gid: 0 }),
                ..Attrs::new()
            },
            b"\0\0\0\x02\0\0\0\0\0\0\0\0",
        ),
        (
            Attrs {
                owner,
                ..Attrs::new()
            },
            b"\0\0\0\x02\xf7\xe6\xd5\xc4\xb3\xa2\x91\x80",
        ),
        (
            Attrs {
                perms: Some(0),
                ..Attrs::new()
            },
            b"\0\0\0\x04\0\0\0\0",
        ),
        (
            Attrs {
                perms,
                ..Attrs::new()
            },
            b"\0\0\0\x04\0\0\x76\x32",
        ),
        (
            Attrs {
                time: Some(Time { atime: 0, mtime: 0 }),
                ..Attrs::new()
            },
            b"\0\0\0\x08\0\0\0\0\0\0\0\0",
        ),
        (
            Attrs {
                time,
                ..Attrs::new()
            },
            b"\0\0\0\x08\xfd\xb9\x75\x31\xec\xa8\x64\x20",
        ),
        (
            Attrs {
                size,
                owner,
                ..Attrs::new()
            },
            b"\0\0\0\x03\xfe\xdc\xba\x98\x76\x54\x32\x10\xf7\xe6\xd5\xc4\xb3\xa2\x91\x80",
        ),
        (
            Attrs {
                size,
                perms,
                ..Attrs::new()
            },
            b"\0\0\0\x05\xfe\xdc\xba\x98\x76\x54\x32\x10\0\0\x76\x32",
        ),
        (
            Attrs {
                size,
                time,
                ..Attrs::new()
            },
            b"\0\0\0\x09\xfe\xdc\xba\x98\x76\x54\x32\x10\xfd\xb9\x75\x31\xec\xa8\x64\x20",
        ),
        (
            Attrs {
                owner,
                perms,
                ..Attrs::new()
            },
            b"\0\0\0\x06\xf7\xe6\xd5\xc4\xb3\xa2\x91\x80\0\0\x76\x32",
        ),
        (
            Attrs {
                owner,
                time,
                ..Attrs::new()
            },
            b"\0\0\0\x0a\xf7\xe6\xd5\xc4\xb3\xa2\x91\x80\xfd\xb9\x75\x31\xec\xa8\x64\x20",
        ),
        (
            Attrs {
                perms,
                time,
                ..Attrs::new()
            },
            b"\0\0\0\x0c\0\0\x76\x32\xfd\xb9\x75\x31\xec\xa8\x64\x20",
        ),
        (
            Attrs {
                size,
                owner,
                perms,
                ..Attrs::new()
            },
            b"\0\0\0\x07\xfe\xdc\xba\x98\x76\x54\x32\x10\xf7\xe6\xd5\xc4\xb3\xa2\x91\x80\0\0\x76\x32",
        ),
        (
            Attrs {
                size,
                owner,
                time,
                ..Attrs::new()
            },
            b"\0\0\0\x0b\xfe\xdc\xba\x98\x76\x54\x32\x10\xf7\xe6\xd5\xc4\xb3\xa2\x91\x80\xfd\xb9\x75\x31\xec\xa8\x64\x20",
        ),
        (
            Attrs {
                size,
                perms,
                time,
                ..Attrs::new()
            },
            b"\0\0\0\x0d\xfe\xdc\xba\x98\x76\x54\x32\x10\0\0\x76\x32\xfd\xb9\x75\x31\xec\xa8\x64\x20",
        ),
        (
            Attrs {
                owner,
                perms,
                time,
                ..Attrs::new()
            },
            b"\0\0\0\x0e\xf7\xe6\xd5\xc4\xb3\xa2\x91\x80\0\0\x76\x32\xfd\xb9\x75\x31\xec\xa8\x64\x20",
        ),
        (
            Attrs {
                size,
                owner,
                perms,
                time,
            },
            b"\0\0\0\x0f\xfe\xdc\xba\x98\x76\x54\x32\x10\xf7\xe6\xd5\xc4\xb3\xa2\x91\x80\0\0\x76\x32\xfd\xb9\x75\x31\xec\xa8\x64\x20",
        ),
    ]
}

#[test]
fn attrs_encode_success() {
    for (attrs, expected) in attrs_valid() {
        let mut buf = Vec::new();
        attrs.encode(&mut buf);
        assert_eq!(buf.as_slice(), expected);
        let (decoded, end) = Attrs::decode(&buf, 0).expect("decode should succeed");
        assert_eq!(end, buf.len());
        assert_eq!(decoded, attrs);
    }
}

#[test]
fn attrs_decode_failure() {
    for (_, encoded) in attrs_valid() {
        for i in 0..encoded.len() - 1 {
            assert_eq!(
                Attrs::decode(&encoded[..i], 0).unwrap_err(),
                WireFormatError::NotEnoughData
            );
        }
    }

    assert_eq!(
        Attrs::decode(b"\0\0\x01\0", 0).unwrap_err(),
        WireFormatError::Custom("invalid attr".to_string())
    );
}

#[test]
fn close_encode_success() {
    for (bytes, encoded) in BYTES_VALID {
        let value = Close {
            handle: Handle(bytes.to_vec()),
        };
        let mut buf = Vec::new();
        value.encode(&mut buf);
        assert_eq!(buf.as_slice(), encoded);
        let (decoded, end) = Close::decode(&buf, 0).expect("decode should succeed");
        assert_eq!(end, buf.len());
        assert_eq!(decoded, value);
    }
}

#[test]
fn close_decode_failure() {
    for (bytes, expected) in BYTES_INVALID {
        assert_eq!(Close::decode(bytes, 0).unwrap_err(), expected);
    }
}

#[test]
fn data_encode_success() {
    for (bytes, encoded) in BYTES_VALID {
        let value = Data(bytes.to_vec());
        let mut buf = Vec::new();
        value.encode(&mut buf);
        assert_eq!(buf.as_slice(), encoded);
        let (decoded, end) = Data::decode(&buf, 0).expect("decode should succeed");
        assert_eq!(end, buf.len());
        assert_eq!(decoded, value);
    }
}

#[test]
fn data_decode_failure() {
    for (bytes, expected) in BYTES_INVALID {
        assert_eq!(Data::decode(bytes, 0).unwrap_err(), expected);
    }
}

#[test]
fn extended_encode_success() {
    for (request, data, encoded) in [
        (b"" as &[u8], b"" as &[u8], b"\0\0\0\0" as &[u8]),
        (b"", b"data", b"\0\0\0\0data"),
        (b"request", b"", b"\0\0\0\x07request"),
        (b"request", b"data", b"\0\0\0\x07requestdata"),
    ] {
        let value = Extended {
            request: request.to_vec(),
            data: data.to_vec(),
        };
        let mut buf = Vec::new();
        value.encode(&mut buf);
        assert_eq!(buf.as_slice(), encoded);
        let (decoded, end) = Extended::decode(&buf, 0).expect("decode should succeed");
        assert_eq!(end, buf.len());
        assert_eq!(decoded, value);
    }
}

#[test]
fn extended_decode_failure() {
    for (bytes, expected) in BYTES_INVALID {
        assert_eq!(Extended::decode(bytes, 0).unwrap_err(), expected);
    }
}

#[test]
fn extended_reply_encode_success() {
    for (bytes, _) in BYTES_VALID {
        let value = ExtendedReply {
            data: bytes.to_vec(),
        };
        let mut buf = Vec::new();
        value.encode(&mut buf);
        assert_eq!(buf.as_slice(), bytes);
        let (decoded, end) = ExtendedReply::decode(&buf, 0);
        assert_eq!(end, buf.len());
        assert_eq!(decoded, value);
    }
}

const FSETSTAT_VALID: &[u8] = b"\0\0\0\x06handle\0\0\0\x01\0\0\0\0\0\x0a\x77\x35";

#[test]
fn fsetstat_encode_success() {
    let value = FSetStat {
        handle: Handle(b"handle".to_vec()),
        attrs: Attrs {
            size: Some(0xa7735),
            ..Default::default()
        },
    };
    let mut buf = Vec::new();
    value.encode(&mut buf);
    assert_eq!(buf.as_slice(), FSETSTAT_VALID);
    let (decoded, end) = FSetStat::decode(&buf, 0).expect("decode should succeed");
    assert_eq!(end, buf.len());
    assert_eq!(decoded, value);
}

#[test]
fn fsetstat_decode_failure() {
    for i in 0..FSETSTAT_VALID.len() {
        assert_eq!(
            FSetStat::decode(&FSETSTAT_VALID[..i], 0).unwrap_err(),
            WireFormatError::NotEnoughData
        );
    }
}

#[test]
fn fstat_encode_success() {
    for (bytes, encoded) in BYTES_VALID {
        let value = FStat {
            handle: Handle(bytes.to_vec()),
        };
        let mut buf = Vec::new();
        value.encode(&mut buf);
        assert_eq!(buf.as_slice(), encoded);
        let (decoded, end) = FStat::decode(&buf, 0).expect("decode should succeed");
        assert_eq!(end, buf.len());
        assert_eq!(decoded, value);
    }
}

#[test]
fn fstat_decode_failure() {
    for (bytes, expected) in BYTES_INVALID {
        assert_eq!(FStat::decode(bytes, 0).unwrap_err(), expected);
    }
}

#[test]
fn handle_encode_success() {
    for (bytes, encoded) in BYTES_VALID {
        let value = Handle(bytes.to_vec());
        let mut buf = Vec::new();
        value.encode(&mut buf);
        assert_eq!(buf.as_slice(), encoded);
        let (decoded, end) = Handle::decode(&buf, 0).expect("decode should succeed");
        assert_eq!(end, buf.len());
        assert_eq!(decoded, value);
    }
}

#[test]
fn handle_decode_failure() {
    for (bytes, expected) in BYTES_INVALID {
        assert_eq!(Handle::decode(bytes, 0).unwrap_err(), expected);
    }
}

fn pairs(raw: &[(&[u8], &[u8])]) -> Vec<(Vec<u8>, Vec<u8>)> {
    raw.iter().map(|(k, v)| (k.to_vec(), v.to_vec())).collect()
}

const INIT_VALID: &[u8] = b"\xfe\xdc\xba\x98\0\0\0\x03key\0\0\0\x05value";

#[test]
fn init_encode_success() {
    for (version, map, encoded) in [
        (0u32, &[] as &[(&[u8], &[u8])], b"\0\0\0\0" as &[u8]),
        (0xfedcba98, &[], b"\xfe\xdc\xba\x98"),
        (0xfedcba98, &[(b"key", b"value")], INIT_VALID),
        (
            0xfedcba98,
            &[(b"key0", b"value0"), (b"key1", b"value1")],
            b"\xfe\xdc\xba\x98\0\0\0\x04key0\0\0\0\x06value0\0\0\0\x04key1\0\0\0\x06value1",
        ),
    ] {
        let value = Init {
            version,
            extensions: pairs(map),
        };
        let mut buf = Vec::new();
        value.encode(&mut buf);
        assert_eq!(buf.as_slice(), encoded);
        let decoded = Init::decode(&buf, 0).expect("decode should succeed");
        assert_eq!(decoded, value);
    }
}

#[test]
fn init_decode_failure() {
    for i in 5..INIT_VALID.len() {
        assert_eq!(
            Init::decode(&INIT_VALID[..i], 0).unwrap_err(),
            WireFormatError::NotEnoughData
        );
    }
}

#[test]
fn lstat_encode_success() {
    for (bytes, encoded) in BYTES_VALID {
        let value = LStat {
            path: Path(String::from_utf8(bytes.to_vec()).unwrap()),
        };
        let mut buf = Vec::new();
        value.encode(&mut buf);
        assert_eq!(buf.as_slice(), encoded);
        let (decoded, end) = LStat::decode(&buf, 0).expect("decode should succeed");
        assert_eq!(end, buf.len());
        assert_eq!(decoded, value);
    }
}

#[test]
fn lstat_decode_failure() {
    for (bytes, expected) in BYTES_INVALID {
        assert_eq!(LStat::decode(bytes, 0).unwrap_err(), expected);
    }
}

const MKDIR_VALID: &[u8] = b"\0\0\0\x04path\0\0\0\x01\0\0\0\0\0\x0a\x77\x35";

#[test]
fn mkdir_encode_success() {
    let value = MkDir {
        path: Path("path".to_string()),
        attrs: Attrs {
            size: Some(0xa7735),
            ..Default::default()
        },
    };
    let mut buf = Vec::new();
    value.encode(&mut buf);
    assert_eq!(buf.as_slice(), MKDIR_VALID);
    let (decoded, end) = MkDir::decode(&buf, 0).expect("decode should succeed");
    assert_eq!(end, buf.len());
    assert_eq!(decoded, value);
}

#[test]
fn mkdir_decode_failure() {
    for i in 0..MKDIR_VALID.len() {
        assert_eq!(
            MkDir::decode(&MKDIR_VALID[..i], 0).unwrap_err(),
            WireFormatError::NotEnoughData
        );
    }
}

const NAME_VALID: &[u8] =
    b"\0\0\0\x08filename\0\0\0\x09long name\0\0\0\x01\0\0\0\0\0\x0a\x77\x35";

#[test]
fn name_encode_success() {
    let value = NameEntry {
        filename: Path("filename".to_string()),
        long_name: b"long name".to_vec(),
        attrs: Attrs {
            size: Some(0xa7735),
            ..Default::default()
        },
    };
    let mut buf = Vec::new();
    value.encode(&mut buf);
    assert_eq!(buf.as_slice(), NAME_VALID);
    let (decoded, end) = NameEntry::decode(&buf, 0).expect("decode should succeed");
    assert_eq!(end, buf.len());
    assert_eq!(decoded, value);
}

#[test]
fn name_decode_failure() {
    for i in 0..NAME_VALID.len() {
        assert_eq!(
            NameEntry::decode(&NAME_VALID[..i], 0).unwrap_err(),
            WireFormatError::NotEnoughData
        );
    }
}

const OPEN_VALID: &[u8] = b"\0\0\0\x08filename\0\0\0\x09\0\0\0\x01\0\0\0\0\0\x0a\x77\x35";

#[test]
fn open_encode_success() {
    let value = Open {
        filename: Path("filename".to_string()),
        pflags: PFLAGS_READ | PFLAGS_CREATE,
        attrs: Attrs {
            size: Some(0xa7735),
            ..Default::default()
        },
    };
    let mut buf = Vec::new();
    value.encode(&mut buf);
    assert_eq!(buf.as_slice(), OPEN_VALID);
    let (decoded, end) = Open::decode(&buf, 0).expect("decode should succeed");
    assert_eq!(end, buf.len());
    assert_eq!(decoded, value);
}

#[test]
fn open_decode_failure() {
    for i in 0..OPEN_VALID.len() {
        assert_eq!(
            Open::decode(&OPEN_VALID[..i], 0).unwrap_err(),
            WireFormatError::NotEnoughData
        );
    }
}

#[test]
fn opendir_encode_success() {
    for (bytes, encoded) in BYTES_VALID {
        let value = OpenDir {
            path: Path(String::from_utf8(bytes.to_vec()).unwrap()),
        };
        let mut buf = Vec::new();
        value.encode(&mut buf);
        assert_eq!(buf.as_slice(), encoded);
        let (decoded, end) = OpenDir::decode(&buf, 0).expect("decode should succeed");
        assert_eq!(end, buf.len());
        assert_eq!(decoded, value);
    }
}

#[test]
fn opendir_decode_failure() {
    for (bytes, expected) in BYTES_INVALID {
        assert_eq!(OpenDir::decode(bytes, 0).unwrap_err(), expected);
    }
}

#[test]
fn path_encode_success() {
    for (bytes, encoded) in BYTES_VALID {
        let value = Path(String::from_utf8(bytes.to_vec()).unwrap());
        let mut buf = Vec::new();
        value.encode(&mut buf);
        assert_eq!(buf.as_slice(), encoded);
        let (decoded, end) = Path::decode(&buf, 0).expect("decode should succeed");
        assert_eq!(end, buf.len());
        assert_eq!(decoded, value);
    }
}

#[test]
fn path_decode_failure() {
    for (bytes, expected) in BYTES_INVALID {
        assert_eq!(Path::decode(bytes, 0).unwrap_err(), expected);
    }
}

#[test]
fn path_concatenation() {
    assert_eq!(Path::from("abc"), Path::from("abc").div(""));
    assert_eq!(Path::from("abc/"), Path::from("abc/").div(""));
    assert_eq!(Path::from("def"), Path::from("").div("def"));
    assert_eq!(Path::from("/def"), Path::from("/").div("def"));
    assert_eq!(Path::from("abc/def"), Path::from("abc").div("def"));
    assert_eq!(Path::from("abc/def"), Path::from("abc/").div("def"));
    assert_eq!(Path::from("/def"), Path::from("abc").div("/def"));
    assert_eq!(Path::from("/def"), Path::from("abc/").div("/def"));

    assert_eq!(
        Path::from("abc"),
        Path::from("abc").div(&String::from(""))
    );
    assert_eq!(
        Path::from("abc/"),
        Path::from("abc/").div(&String::from(""))
    );
    assert_eq!(
        Path::from("def"),
        Path::from("").div(&String::from("def"))
    );
    assert_eq!(
        Path::from("/def"),
        Path::from("/").div(&String::from("def"))
    );
    assert_eq!(
        Path::from("abc/def"),
        Path::from("abc").div(&String::from("def"))
    );
    assert_eq!(
        Path::from("abc/def"),
        Path::from("abc/").div(&String::from("def"))
    );
    assert_eq!(
        Path::from("/def"),
        Path::from("abc").div(&String::from("/def"))
    );
    assert_eq!(
        Path::from("/def"),
        Path::from("abc/").div(&String::from("/def"))
    );

    assert_eq!(Path::from("abc"), Path::from("abc").div(&Path::from("").0));
    assert_eq!(
        Path::from("abc/"),
        Path::from("abc/").div(&Path::from("").0)
    );
    assert_eq!(Path::from("def"), Path::from("").div(&Path::from("def").0));
    assert_eq!(
        Path::from("/def"),
        Path::from("/").div(&Path::from("def").0)
    );
    assert_eq!(
        Path::from("abc/def"),
        Path::from("abc").div(&Path::from("def").0)
    );
    assert_eq!(
        Path::from("abc/def"),
        Path::from("abc/").div(&Path::from("def").0)
    );
    assert_eq!(
        Path::from("/def"),
        Path::from("abc").div(&Path::from("/def").0)
    );
    assert_eq!(
        Path::from("/def"),
        Path::from("abc/").div(&Path::from("/def").0)
    );
}

const READ_VALID: &[u8] = b"\0\0\0\x06handle\xfe\xdc\xba\x98\x76\x54\x32\x10\xfd\xb9\x75\x31";

#[test]
fn read_encode_success() {
    let value = Read {
        handle: Handle(b"handle".to_vec()),
        offset: 0xfedcba9876543210,
        length: 0xfdb97531,
    };
    let mut buf = Vec::new();
    value.encode(&mut buf);
    assert_eq!(buf.as_slice(), READ_VALID);
    let (decoded, end) = Read::decode(&buf, 0).expect("decode should succeed");
    assert_eq!(end, buf.len());
    assert_eq!(decoded, value);
}

#[test]
fn read_decode_failure() {
    for i in 0..READ_VALID.len() {
        assert_eq!(
            Read::decode(&READ_VALID[..i], 0).unwrap_err(),
            WireFormatError::NotEnoughData
        );
    }
}

#[test]
fn readdir_encode_success() {
    for (bytes, encoded) in BYTES_VALID {
        let value = ReadDir {
            handle: Handle(bytes.to_vec()),
        };
        let mut buf = Vec::new();
        value.encode(&mut buf);
        assert_eq!(buf.as_slice(), encoded);
        let (decoded, end) = ReadDir::decode(&buf, 0).expect("decode should succeed");
        assert_eq!(end, buf.len());
        assert_eq!(decoded, value);
    }
}

#[test]
fn readdir_decode_failure() {
    for (bytes, expected) in BYTES_INVALID {
        assert_eq!(ReadDir::decode(bytes, 0).unwrap_err(), expected);
    }
}

#[test]
fn readlink_encode_success() {
    for (bytes, encoded) in BYTES_VALID {
        let value = ReadLink {
            path: Path(String::from_utf8(bytes.to_vec()).unwrap()),
        };
        let mut buf = Vec::new();
        value.encode(&mut buf);
        assert_eq!(buf.as_slice(), encoded);
        let (decoded, end) = ReadLink::decode(&buf, 0).expect("decode should succeed");
        assert_eq!(end, buf.len());
        assert_eq!(decoded, value);
    }
}

#[test]
fn readlink_decode_failure() {
    for (bytes, expected) in BYTES_INVALID {
        assert_eq!(ReadLink::decode(bytes, 0).unwrap_err(), expected);
    }
}

#[test]
fn realpath_encode_success() {
    for (bytes, encoded) in BYTES_VALID {
        let value = RealPath {
            path: Path(String::from_utf8(bytes.to_vec()).unwrap()),
        };
        let mut buf = Vec::new();
        value.encode(&mut buf);
        assert_eq!(buf.as_slice(), encoded);
        let (decoded, end) = RealPath::decode(&buf, 0).expect("decode should succeed");
        assert_eq!(end, buf.len());
        assert_eq!(decoded, value);
    }
}

#[test]
fn realpath_decode_failure() {
    for (bytes, expected) in BYTES_INVALID {
        assert_eq!(RealPath::decode(bytes, 0).unwrap_err(), expected);
    }
}

const RENAME_VALID: &[u8] = b"\0\0\0\x03old\0\0\0\x03new";

#[test]
fn rename_encode_success() {
    let value = Rename {
        old_path: Path("old".to_string()),
        new_path: Path("new".to_string()),
    };
    let mut buf = Vec::new();
    value.encode(&mut buf);
    assert_eq!(buf.as_slice(), RENAME_VALID);
    let (decoded, end) = Rename::decode(&buf, 0).expect("decode should succeed");
    assert_eq!(end, buf.len());
    assert_eq!(decoded, value);
}

#[test]
fn rename_decode_failure() {
    for i in 0..RENAME_VALID.len() {
        assert_eq!(
            Rename::decode(&RENAME_VALID[..i], 0).unwrap_err(),
            WireFormatError::NotEnoughData
        );
    }
}

#[test]
fn rmdir_encode_success() {
    for (bytes, encoded) in BYTES_VALID {
        let value = RmDir {
            path: Path(String::from_utf8(bytes.to_vec()).unwrap()),
        };
        let mut buf = Vec::new();
        value.encode(&mut buf);
        assert_eq!(buf.as_slice(), encoded);
        let (decoded, end) = RmDir::decode(&buf, 0).expect("decode should succeed");
        assert_eq!(end, buf.len());
        assert_eq!(decoded, value);
    }
}

#[test]
fn rmdir_decode_failure() {
    for (bytes, expected) in BYTES_INVALID {
        assert_eq!(RmDir::decode(bytes, 0).unwrap_err(), expected);
    }
}

const SETSTAT_VALID: &[u8] = b"\0\0\0\x04path\0\0\0\x01\0\0\0\0\0\x0a\x77\x35";

#[test]
fn setstat_encode_success() {
    let value = SetStat {
        path: Path("path".to_string()),
        attrs: Attrs {
            size: Some(0xa7735),
            ..Default::default()
        },
    };
    let mut buf = Vec::new();
    value.encode(&mut buf);
    assert_eq!(buf.as_slice(), SETSTAT_VALID);
    let (decoded, end) = SetStat::decode(&buf, 0).expect("decode should succeed");
    assert_eq!(end, buf.len());
    assert_eq!(decoded, value);
}

#[test]
fn setstat_decode_failure() {
    for i in 0..SETSTAT_VALID.len() {
        assert_eq!(
            SetStat::decode(&SETSTAT_VALID[..i], 0).unwrap_err(),
            WireFormatError::NotEnoughData
        );
    }
}

const STATUS_VALID: &[u8] = b"\0\0\0\x01\0\0\0\x03eof\0\0\0\x02en";

#[test]
fn status_encode_success() {
    for (code, encoded) in [
        (StatusCode::Okay, b"\0\0\0\x00"),
        (StatusCode::Eof, b"\0\0\0\x01"),
        (StatusCode::NoSuchFile, b"\0\0\0\x02"),
        (StatusCode::PermissionDenied, b"\0\0\0\x03"),
        (StatusCode::Failure, b"\0\0\0\x04"),
        (StatusCode::BadMessage, b"\0\0\0\x05"),
        (StatusCode::NoConnection, b"\0\0\0\x06"),
        (StatusCode::ConnectionLost, b"\0\0\0\x07"),
        (StatusCode::OpUnsupported, b"\0\0\0\x08"),
    ] {
        assert_eq!(code.to_u32().to_be_bytes().as_slice(), encoded);
        assert_eq!(StatusCode::try_from(code.to_u32()), Ok(code));
    }

    let value = Status {
        code: StatusCode::Eof,
        error: b"eof".to_vec(),
        language: b"en".to_vec(),
    };
    let mut buf = Vec::new();
    value.encode(&mut buf);
    assert_eq!(buf.as_slice(), STATUS_VALID);
    let (decoded, end) = Status::decode(&buf, 0).expect("decode should succeed");
    assert_eq!(end, buf.len());
    assert_eq!(decoded, value);
}

#[test]
fn status_decode_failure() {
    for i in 0..STATUS_VALID.len() {
        assert_eq!(
            Status::decode(&STATUS_VALID[..i], 0).unwrap_err(),
            WireFormatError::NotEnoughData
        );
    }
}

const SYMLINK_VALID: &[u8] = b"\0\0\0\x04link\0\0\0\x06target";

#[test]
fn symlink_encode_success() {
    let value = Symlink {
        link_path: Path("link".to_string()),
        target_path: Path("target".to_string()),
    };
    let mut buf = Vec::new();
    value.encode(&mut buf);
    assert_eq!(buf.as_slice(), SYMLINK_VALID);
    let (decoded, end) = Symlink::decode(&buf, 0).expect("decode should succeed");
    assert_eq!(end, buf.len());
    assert_eq!(decoded, value);
}

#[test]
fn symlink_decode_failure() {
    for i in 0..SYMLINK_VALID.len() {
        assert_eq!(
            Symlink::decode(&SYMLINK_VALID[..i], 0).unwrap_err(),
            WireFormatError::NotEnoughData
        );
    }
}

const VERSION_VALID: &[u8] = b"\xfe\xdc\xba\x98\0\0\0\x03key\0\0\0\x05value";

#[test]
fn version_encode_success() {
    for (version, map, encoded) in [
        (0u32, &[] as &[(&[u8], &[u8])], b"\0\0\0\0" as &[u8]),
        (0xfedcba98, &[], b"\xfe\xdc\xba\x98"),
        (0xfedcba98, &[(b"key", b"value")], VERSION_VALID),
        (
            0xfedcba98,
            &[(b"key0", b"value0"), (b"key1", b"value1")],
            b"\xfe\xdc\xba\x98\0\0\0\x04key0\0\0\0\x06value0\0\0\0\x04key1\0\0\0\x06value1",
        ),
    ] {
        let value = Version {
            version,
            extensions: pairs(map),
        };
        let mut buf = Vec::new();
        value.encode(&mut buf);
        assert_eq!(buf.as_slice(), encoded);
        let decoded = Version::decode(&buf, 0).expect("decode should succeed");
        assert_eq!(decoded, value);
    }
}

#[test]
fn version_decode_failure() {
    for i in 5..VERSION_VALID.len() {
        assert_eq!(
            Version::decode(&VERSION_VALID[..i], 0).unwrap_err(),
            WireFormatError::NotEnoughData
        );
    }
}

const WRITE_VALID: &[u8] = b"\0\0\0\x06handle\xfe\xdc\xba\x98\x76\x54\x32\x10\0\0\0\x04data";

#[test]
fn write_encode_success() {
    let value = Write {
        handle: Handle(b"handle".to_vec()),
        offset: 0xfedcba9876543210,
        data: Data(b"data".to_vec()),
    };
    let mut buf = Vec::new();
    value.encode(&mut buf);
    assert_eq!(buf.as_slice(), WRITE_VALID);
    let (decoded, end) = Write::decode(&buf, 0).expect("decode should succeed");
    assert_eq!(end, buf.len());
    assert_eq!(decoded, value);
}

#[test]
fn write_decode_failure() {
    for i in 0..WRITE_VALID.len() {
        assert_eq!(
            Write::decode(&WRITE_VALID[..i], 0).unwrap_err(),
            WireFormatError::NotEnoughData
        );
    }
}

#[test]
fn path_utf8_round_trip() {
    // A multibyte path: decoding must produce the text, not the raw
    // bytes, and re-encoding must reproduce the wire form.
    let encoded: &[u8] = b"\0\0\0\x05caf\xc3\xa9";
    let (decoded, end) = Path::decode(encoded, 0).expect("decode should succeed");
    assert_eq!(end, encoded.len());
    assert_eq!(decoded, Path("café".to_string()));
    let mut buf = Vec::new();
    decoded.encode(&mut buf);
    assert_eq!(buf.as_slice(), encoded);
}

#[test]
fn path_invalid_utf8_rejected() {
    assert_eq!(
        Path::decode(b"\0\0\0\x02\xff\xfe", 0).unwrap_err(),
        WireFormatError::InvalidChar
    );
}

#[test]
fn status_code_unknown_value_rejected() {
    assert_eq!(StatusCode::try_from(9), Err(9));
    assert_eq!(
        Status::decode(b"\0\0\0\x09\0\0\0\0\0\0\0\0", 0).unwrap_err(),
        WireFormatError::Unsupported
    );
}
