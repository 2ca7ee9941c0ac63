//! Why an extraction did not complete.

use crate::wire::Verdict;
use crate::wire::HANDSHAKE_TYPE_CLIENT_HELLO;
use std::string::FromUtf8Error;
use vstd::prelude::*;
use vstd::utf8::decode_utf8;
use vstd::utf8::valid_utf8;

verus! {

/// `std::string::FromUtf8Error`: what `String::from_utf8` reports of bytes
/// that are not UTF-8. Nothing of its contents is known to the proofs.
#[verifier::external_type_specification]
#[verifier::external_body]
pub struct ExFromUtf8Error(FromUtf8Error);

/// Why no host name was returned.
#[derive(Debug, PartialEq, Eq)]
pub enum SniError {
    /// The handshake message is not a ClientHello.
    WrongMessageType { observed: u8, expected: u8 },
    /// A read or skip needed `requested` bytes and the stream, or the
    /// enclosing region, held only `available`. An extensions block or a
    /// ServerNameList that runs out before a host name is found ends here
    /// too.
    Truncated { requested: u64, available: u64 },
    /// The host name is not UTF-8.
    InvalidEncoding(FromUtf8Error),
}

/// What a caller receives when an extraction ends with `v`: the host name as
/// text where its bytes are UTF-8, `InvalidEncoding` where they are not, and
/// otherwise the error of the same name and numbers.
pub open spec fn delivers(r: Result<String, SniError>, v: Verdict) -> bool {
    match v {
        Verdict::HostName(bytes) => if valid_utf8(bytes) {
            r matches Ok(name) && name@ == decode_utf8(bytes)
        } else {
            r matches Err(SniError::InvalidEncoding(_))
        },
        Verdict::WrongMessageType { observed } => r == Err::<String, SniError>(
            SniError::WrongMessageType { observed, expected: HANDSHAKE_TYPE_CLIENT_HELLO },
        ),
        Verdict::Truncated { requested, available } => r matches Err(
            SniError::Truncated { requested: q, available: a },
        ) && q == requested && a == available,
    }
}

} // verus!
