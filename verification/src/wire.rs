//! The wire format of a TLS ClientHello, as far as the server name needs it.
//!
//! Everything here is mathematics: a handshake is a sequence of bytes, a
//! position in it is an `int`, and a read budget is the end of a window
//! `[pos, end)` that no read may leave. Entering a nested, length-prefixed
//! region moves `end` closer and never further away.

use vstd::prelude::*;

verus! {

/// The handshake message type of a ClientHello.
pub const HANDSHAKE_TYPE_CLIENT_HELLO: u8 = 1;

/// The extension type of Server Name Indication.
pub const EXTENSION_TYPE_SNI: u16 = 0;

/// The name type of a host name inside a ServerNameList.
pub const NAME_TYPE_HOST_NAME: u8 = 0;

/// Length of the protocol version (2 bytes) and the random (32 bytes).
pub const VERSION_AND_RANDOM_LEN: u64 = 34;

/// How an extraction ends, before the host name is decoded as text.
pub enum Verdict {
    /// A host-name entry was found; these are its bytes.
    HostName(Seq<u8>),
    /// The first byte is not the ClientHello tag.
    WrongMessageType { observed: u8 },
    /// A read or skip asked for `requested` bytes where only `available`
    /// were left in the window.
    Truncated { requested: int, available: int },
}

/// The verdict, and how many bytes of the stream were taken to reach it.
pub struct Outcome {
    pub verdict: Verdict,
    pub consumed: int,
}

/// Where a skip leads: to a new position, or to the end of the extraction.
pub enum Walk {
    At(int),
    Stop(Outcome),
}

/// The end of the window after a region of declared length `len` is entered
/// at `pos`: the nearer of the region's end and the enclosing `end`.
pub open spec fn narrowed(pos: int, end: int, len: int) -> int {
    if pos + len < end {
        pos + len
    } else {
        end
    }
}

/// A read or skip of `requested` bytes at `pos` that the window cannot
/// supply. What the window still held is taken from the stream.
pub open spec fn short(pos: int, end: int, requested: int) -> Outcome {
    Outcome { verdict: Verdict::Truncated { requested, available: end - pos }, consumed: end }
}

/// The big-endian value of the two bytes at `pos`.
pub open spec fn u16_at(s: Seq<u8>, pos: int) -> int {
    s[pos] as int * 256 + s[pos + 1] as int
}

/// The big-endian value of the three bytes at `pos`.
pub open spec fn u24_at(s: Seq<u8>, pos: int) -> int {
    s[pos] as int * 65536 + s[pos + 1] as int * 256 + s[pos + 2] as int
}

/// Skipping exactly `len` bytes.
pub open spec fn skip_fixed(pos: int, end: int, len: int) -> Walk {
    if end - pos < len {
        Walk::Stop(short(pos, end, len))
    } else {
        Walk::At(pos + len)
    }
}

/// Skipping a vector with a one-byte length prefix.
pub open spec fn skip_vec_u8(s: Seq<u8>, pos: int, end: int) -> Walk {
    if end - pos < 1 {
        Walk::Stop(short(pos, end, 1))
    } else {
        skip_fixed(pos + 1, end, s[pos] as int)
    }
}

/// Skipping a vector with a two-byte length prefix.
pub open spec fn skip_vec_u16(s: Seq<u8>, pos: int, end: int) -> Walk {
    if end - pos < 2 {
        Walk::Stop(short(pos, end, 2))
    } else {
        skip_fixed(pos + 2, end, u16_at(s, pos))
    }
}

/// The entries of a ServerNameList from `pos` on. Entries of another type
/// than host name are passed over; the first host-name entry is the answer.
pub open spec fn server_names(s: Seq<u8>, pos: int, end: int) -> Outcome
    decreases end - pos,
{
    if end - pos < 1 {
        short(pos, end, 1)
    } else if s[pos] != NAME_TYPE_HOST_NAME {
        match skip_vec_u16(s, pos + 1, end) {
            Walk::Stop(o) => o,
            Walk::At(next) => server_names(s, next, end),
        }
    } else if end - (pos + 1) < 2 {
        short(pos + 1, end, 2)
    } else {
        let len: int = u16_at(s, pos + 1);
        let start: int = pos + 3;
        if end - start < len {
            short(start, end, len)
        } else {
            Outcome {
                verdict: Verdict::HostName(s.subrange(start, start + len)),
                consumed: start + len,
            }
        }
    }
}

/// The body of a Server Name Indication extension: the length of the
/// ServerNameList, then the list.
pub open spec fn server_name_list(s: Seq<u8>, pos: int, end: int) -> Outcome {
    if end - pos < 2 {
        short(pos, end, 2)
    } else {
        server_names(s, pos + 2, narrowed(pos + 2, end, u16_at(s, pos)))
    }
}

/// The extensions from `pos` on. Extensions of another type than Server Name
/// Indication are passed over; the first of that type decides.
pub open spec fn extensions(s: Seq<u8>, pos: int, end: int) -> Outcome
    decreases end - pos,
{
    if end - pos < 2 {
        short(pos, end, 2)
    } else if end - (pos + 2) < 2 {
        short(pos + 2, end, 2)
    } else {
        let len: int = u16_at(s, pos + 2);
        let body: int = pos + 4;
        if u16_at(s, pos) != EXTENSION_TYPE_SNI {
            match skip_fixed(body, end, len) {
                Walk::Stop(o) => o,
                Walk::At(next) => extensions(s, next, end),
            }
        } else {
            server_name_list(s, body, narrowed(body, end, len))
        }
    }
}

/// The length of the extensions block, then the extensions.
pub open spec fn extensions_block(s: Seq<u8>, pos: int, end: int) -> Outcome {
    if end - pos < 2 {
        short(pos, end, 2)
    } else {
        extensions(s, pos + 2, narrowed(pos + 2, end, u16_at(s, pos)))
    }
}

/// The compression methods, then the extensions block.
pub open spec fn compression_methods(s: Seq<u8>, pos: int, end: int) -> Outcome {
    match skip_vec_u8(s, pos, end) {
        Walk::Stop(o) => o,
        Walk::At(next) => extensions_block(s, next, end),
    }
}

/// The cipher suites, then what follows them.
pub open spec fn cipher_suites(s: Seq<u8>, pos: int, end: int) -> Outcome {
    match skip_vec_u16(s, pos, end) {
        Walk::Stop(o) => o,
        Walk::At(next) => compression_methods(s, next, end),
    }
}

/// The session id, then what follows it.
pub open spec fn session_id(s: Seq<u8>, pos: int, end: int) -> Outcome {
    match skip_vec_u8(s, pos, end) {
        Walk::Stop(o) => o,
        Walk::At(next) => cipher_suites(s, next, end),
    }
}

/// The body of the handshake message: protocol version and random, then the
/// three vectors, then the extensions.
pub open spec fn hello_body(s: Seq<u8>, pos: int, end: int) -> Outcome {
    match skip_fixed(pos, end, VERSION_AND_RANDOM_LEN as int) {
        Walk::Stop(o) => o,
        Walk::At(next) => session_id(s, next, end),
    }
}

/// The three-byte length of the handshake body, then the body, which no
/// read leaves.
pub open spec fn body_length(s: Seq<u8>, pos: int, end: int) -> Outcome {
    if end - pos < 3 {
        short(pos, end, 3)
    } else {
        hello_body(s, pos + 3, narrowed(pos + 3, end, u24_at(s, pos)))
    }
}

/// The handshake message at `pos`: its type, which must be ClientHello, then
/// its length and body.
pub open spec fn handshake(s: Seq<u8>, pos: int, end: int) -> Outcome {
    if end - pos < 1 {
        short(pos, end, 1)
    } else if s[pos] != HANDSHAKE_TYPE_CLIENT_HELLO {
        Outcome { verdict: Verdict::WrongMessageType { observed: s[pos] }, consumed: pos + 1 }
    } else {
        body_length(s, pos + 1, end)
    }
}

/// What an extraction makes of a stream that holds the bytes `s` and then
/// ends.
pub open spec fn client_hello(s: Seq<u8>) -> Outcome {
    handshake(s, 0, s.len() as int)
}

} // verus!
