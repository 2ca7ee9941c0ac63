//! The extraction as a machine that can wait for its input.
//!
//! The machine never touches a stream. It says what it needs next, a read
//! or a skip of so many bytes, and is told what came of it. Whoever holds
//! the stream, in memory or on a socket, runs that loop; every decision is
//! made here.

use crate::error::delivers;
use crate::error::SniError;
use crate::wire::u16_at;
use crate::wire::u24_at;
use crate::wire::Verdict;
use crate::wire::EXTENSION_TYPE_SNI;
use crate::wire::HANDSHAKE_TYPE_CLIENT_HELLO;
use crate::wire::NAME_TYPE_HOST_NAME;
use crate::wire::VERSION_AND_RANDOM_LEN;
use byteorder::ByteOrder;
use byteorder::NetworkEndian;
use std::string::FromUtf8Error;
use vstd::prelude::*;
use vstd::utf8::decode_utf8;
use vstd::utf8::valid_utf8;

verus! {

/// The field of the ClientHello that the machine is waiting for.
#[derive(Debug, Clone, Copy, PartialEq, Eq)]
pub enum Phase {
    MessageType,
    BodyLength,
    VersionAndRandom,
    SessionIdLength,
    SessionId { len: u16 },
    CipherSuitesLength,
    CipherSuites { len: u16 },
    CompressionLength,
    Compression { len: u16 },
    ExtensionsLength,
    ExtensionType,
    ExtensionLength { typ: u16 },
    ExtensionBody { len: u16 },
    ServerNameListLength,
    NameType,
    OtherNameLength,
    OtherName { len: u16 },
    HostNameLength,
    HostName { len: u16 },
}

/// What the holder of the stream is asked to do: take up to so many bytes
/// and hand them over, or discard up to so many. Fewer are taken only where
/// the stream ends first.
#[derive(Debug, Clone, Copy, PartialEq, Eq)]
pub enum Request {
    Read(u64),
    Skip(u64),
}

/// What came of a request: the bytes that were read, or the number of bytes
/// that were discarded.
#[derive(Debug)]
pub enum Event {
    Data(Vec<u8>),
    Skipped(u64),
}

/// Where the machine stands after an event: waiting again, or done.
#[derive(Debug)]
pub enum Progress {
    Pending(Extractor),
    Finished(Result<String, SniError>),
}

/// `Progress` before the host name is decoded as text.
pub enum Step {
    Pending(Extractor),
    Finished(Verdict),
}

/// The machine: the field it waits for, and how many bytes the innermost
/// region that it has entered still holds. There is no budget before the
/// length of the handshake body is known.
#[derive(Debug, Clone, Copy, PartialEq, Eq)]
pub struct Extractor {
    pub phase: Phase,
    pub budget: Option<u64>,
}

/// The budget inside a region of declared length `len`: the smaller of the
/// two, so that no declared length widens what an outer region allows.
pub open spec fn narrow(budget: Option<u64>, len: u64) -> Option<u64> {
    match budget {
        Some(b) if b < len => Some(b),
        _ => Some(len),
    }
}

/// The budget after `n` bytes of it were taken.
pub open spec fn debit(budget: Option<u64>, n: u64) -> Option<u64> {
    match budget {
        Some(b) => Some((b - n) as u64),
        None => None,
    }
}

impl Event {
    /// How many bytes the event took from the stream.
    pub open spec fn count(self) -> int {
        match self {
            Event::Data(bytes) => bytes@.len() as int,
            Event::Skipped(n) => n as int,
        }
    }

    /// The bytes that the event carries: none after a skip.
    pub open spec fn data(self) -> Seq<u8> {
        match self {
            Event::Data(bytes) => bytes@,
            Event::Skipped(_) => Seq::empty(),
        }
    }

    /// The event is of the kind that was asked for and took no more bytes
    /// than were asked for.
    pub open spec fn answers(self, request: Request) -> bool {
        match (self, request) {
            (Event::Data(bytes), Request::Read(n)) => bytes@.len() <= n,
            (Event::Skipped(k), Request::Skip(n)) => k <= n,
            _ => false,
        }
    }

    /// The event is what an honest holder of a stream reports when `rest`
    /// is all that the stream still holds: as many bytes as were asked for,
    /// or all of `rest` where that is less, and for a read those very bytes.
    pub open spec fn drawn_from(self, request: Request, rest: Seq<u8>) -> bool {
        let asked: int = match request {
            Request::Read(n) => n as int,
            Request::Skip(n) => n as int,
        };
        &&& self.answers(request)
        &&& self.count() == if asked <= rest.len() {
            asked
        } else {
            rest.len() as int
        }
        &&& self is Data ==> self.data() == rest.take(self.count())
    }
}

impl Extractor {
    /// How many bytes the awaited field has.
    pub open spec fn wanted(self) -> u64 {
        match self.phase {
            Phase::MessageType => 1,
            Phase::BodyLength => 3,
            Phase::VersionAndRandom => VERSION_AND_RANDOM_LEN,
            Phase::SessionIdLength => 1,
            Phase::SessionId { len } => len as u64,
            Phase::CipherSuitesLength => 2,
            Phase::CipherSuites { len } => len as u64,
            Phase::CompressionLength => 1,
            Phase::Compression { len } => len as u64,
            Phase::ExtensionsLength => 2,
            Phase::ExtensionType => 2,
            Phase::ExtensionLength { typ } => 2,
            Phase::ExtensionBody { len } => len as u64,
            Phase::ServerNameListLength => 2,
            Phase::NameType => 1,
            Phase::OtherNameLength => 2,
            Phase::OtherName { len } => len as u64,
            Phase::HostNameLength => 2,
            Phase::HostName { len } => len as u64,
        }
    }

    /// Whether the awaited field is passed over unread.
    pub open spec fn skips(self) -> bool {
        match self.phase {
            Phase::VersionAndRandom => true,
            Phase::SessionId { len } => true,
            Phase::CipherSuites { len } => true,
            Phase::Compression { len } => true,
            Phase::ExtensionBody { len } => true,
            Phase::OtherName { len } => true,
            _ => false,
        }
    }

    /// How many bytes may be taken for the awaited field: all of it, or what
    /// the budget still allows where that is less.
    pub open spec fn granted(self) -> u64 {
        match self.budget {
            Some(b) if b < self.wanted() => b,
            _ => self.wanted(),
        }
    }

    /// What the machine asks for.
    pub open spec fn spec_request(self) -> Request {
        if self.skips() {
            Request::Skip(self.granted())
        } else {
            Request::Read(self.granted())
        }
    }

    /// The machine after `event`. An event that falls short of the awaited
    /// field ends the extraction; otherwise the field decides what is
    /// awaited next, and each declared length narrows the budget.
    #[verifier::opaque]
    pub open spec fn next(self, event: Event) -> Step {
        let data: Seq<u8> = event.data();
        let left: Option<u64> = debit(self.budget, self.wanted());
        if event.count() < self.wanted() {
            Step::Finished(
                Verdict::Truncated { requested: self.wanted() as int, available: event.count() },
            )
        } else {
            match self.phase {
                Phase::MessageType => if data[0] != HANDSHAKE_TYPE_CLIENT_HELLO {
                    Step::Finished(Verdict::WrongMessageType { observed: data[0] })
                } else {
                    Step::Pending(Extractor { phase: Phase::BodyLength, budget: left })
                },
                Phase::BodyLength => Step::Pending(
                    Extractor {
                        phase: Phase::VersionAndRandom,
                        budget: narrow(left, u24_at(data, 0) as u64),
                    },
                ),
                Phase::VersionAndRandom => Step::Pending(
                    Extractor { phase: Phase::SessionIdLength, budget: left },
                ),
                Phase::SessionIdLength => Step::Pending(
                    Extractor { phase: Phase::SessionId { len: data[0] as u16 }, budget: left },
                ),
                Phase::SessionId { len } => Step::Pending(
                    Extractor { phase: Phase::CipherSuitesLength, budget: left },
                ),
                Phase::CipherSuitesLength => Step::Pending(
                    Extractor {
                        phase: Phase::CipherSuites { len: u16_at(data, 0) as u16 },
                        budget: left,
                    },
                ),
                Phase::CipherSuites { len } => Step::Pending(
                    Extractor { phase: Phase::CompressionLength, budget: left },
                ),
                Phase::CompressionLength => Step::Pending(
                    Extractor { phase: Phase::Compression { len: data[0] as u16 }, budget: left },
                ),
                Phase::Compression { len } => Step::Pending(
                    Extractor { phase: Phase::ExtensionsLength, budget: left },
                ),
                Phase::ExtensionsLength => Step::Pending(
                    Extractor {
                        phase: Phase::ExtensionType,
                        budget: narrow(left, u16_at(data, 0) as u64),
                    },
                ),
                Phase::ExtensionType => Step::Pending(
                    Extractor {
                        phase: Phase::ExtensionLength { typ: u16_at(data, 0) as u16 },
                        budget: left,
                    },
                ),
                Phase::ExtensionLength { typ } => if typ != EXTENSION_TYPE_SNI {
                    Step::Pending(
                        Extractor {
                            phase: Phase::ExtensionBody { len: u16_at(data, 0) as u16 },
                            budget: left,
                        },
                    )
                } else {
                    Step::Pending(
                        Extractor {
                            phase: Phase::ServerNameListLength,
                            budget: narrow(left, u16_at(data, 0) as u64),
                        },
                    )
                },
                Phase::ExtensionBody { len } => Step::Pending(
                    Extractor { phase: Phase::ExtensionType, budget: left },
                ),
                Phase::ServerNameListLength => Step::Pending(
                    Extractor {
                        phase: Phase::NameType,
                        budget: narrow(left, u16_at(data, 0) as u64),
                    },
                ),
                Phase::NameType => if data[0] != NAME_TYPE_HOST_NAME {
                    Step::Pending(Extractor { phase: Phase::OtherNameLength, budget: left })
                } else {
                    Step::Pending(Extractor { phase: Phase::HostNameLength, budget: left })
                },
                Phase::OtherNameLength => Step::Pending(
                    Extractor {
                        phase: Phase::OtherName { len: u16_at(data, 0) as u16 },
                        budget: left,
                    },
                ),
                Phase::OtherName { len } => Step::Pending(
                    Extractor { phase: Phase::NameType, budget: left },
                ),
                Phase::HostNameLength => Step::Pending(
                    Extractor {
                        phase: Phase::HostName { len: u16_at(data, 0) as u16 },
                        budget: narrow(left, u16_at(data, 0) as u64),
                    },
                ),
                Phase::HostName { len } => Step::Finished(Verdict::HostName(data)),
            }
        }
    }
}

/// `progress` is `step` with the host name decoded.
pub open spec fn renders(progress: Progress, step: Step) -> bool {
    match (progress, step) {
        (Progress::Pending(machine), Step::Pending(expected)) => machine == expected,
        (Progress::Finished(result), Step::Finished(verdict)) => delivers(result, verdict),
        _ => false,
    }
}

/// `byteorder::ByteOrder::read_u24` of `NetworkEndian`: the first three
/// bytes of `buf` as one number, the first byte the most significant. It
/// panics on fewer than three bytes, which `requires` leaves out.
#[verifier::external_body]
fn read_u24(buf: &[u8]) -> (value: u32)
    requires
        buf@.len() >= 3,
    ensures
        value == u24_at(buf@, 0),
{
    NetworkEndian::read_u24(buf)
}

/// `String::from_utf8`: the text that `bytes` encode where they are valid
/// UTF-8, and an error where they are not.
#[verifier::external_body]
fn from_utf8(bytes: Vec<u8>) -> (r: Result<String, FromUtf8Error>)
    ensures
        r is Ok <==> valid_utf8(bytes@),
        r matches Ok(text) ==> text@ == decode_utf8(bytes@),
{
    String::from_utf8(bytes)
}

/// The first two bytes of `buf` as one number, the first byte the most
/// significant.
fn read_u16(buf: &[u8]) -> (value: u16)
    requires
        buf@.len() >= 2,
    ensures
        value == u16_at(buf@, 0),
{
    let high: u16 = buf[0] as u16;
    let low: u16 = buf[1] as u16;
    high * 256 + low
}

/// The budget inside a region of declared length `len`.
fn narrowed_budget(budget: Option<u64>, len: u64) -> (r: Option<u64>)
    ensures
        r == narrow(budget, len),
{
    match budget {
        Some(b) => if b < len {
            Some(b)
        } else {
            Some(len)
        },
        None => Some(len),
    }
}

/// The budget after `n` bytes of it were taken.
fn debited_budget(budget: Option<u64>, n: u64) -> (r: Option<u64>)
    requires
        budget matches Some(b) ==> n <= b,
    ensures
        r == debit(budget, n),
{
    match budget {
        Some(b) => Some(b - n),
        None => None,
    }
}

/// The host name as text.
fn decode_host_name(bytes: Vec<u8>) -> (r: Result<String, SniError>)
    ensures
        delivers(r, Verdict::HostName(bytes@)),
{
    match from_utf8(bytes) {
        Ok(name) => Ok(name),
        Err(e) => Err(SniError::InvalidEncoding(e)),
    }
}

impl Event {
    /// Whether the event is of the kind that `request` asked for and took no
    /// more bytes than it asked for.
    pub fn is_answer_to(&self, request: Request) -> (b: bool)
        ensures
            b == self.answers(request),
    {
        match self {
            Event::Data(bytes) => match request {
                Request::Read(len) => bytes.len() as u64 <= len,
                Request::Skip(_) => false,
            },
            Event::Skipped(count) => match request {
                Request::Read(_) => false,
                Request::Skip(len) => *count <= len,
            },
        }
    }
}

impl Extractor {
    /// A machine at the start of a handshake message.
    pub fn new() -> (machine: Extractor)
        ensures
            machine == (Extractor { phase: Phase::MessageType, budget: None }),
    {
        Extractor { phase: Phase::MessageType, budget: None }
    }

    /// How many bytes the awaited field has.
    fn awaited(&self) -> (n: u64)
        ensures
            n == self.wanted(),
    {
        match self.phase {
            Phase::MessageType => 1,
            Phase::BodyLength => 3,
            Phase::VersionAndRandom => VERSION_AND_RANDOM_LEN,
            Phase::SessionIdLength => 1,
            Phase::SessionId { len } => len as u64,
            Phase::CipherSuitesLength => 2,
            Phase::CipherSuites { len } => len as u64,
            Phase::CompressionLength => 1,
            Phase::Compression { len } => len as u64,
            Phase::ExtensionsLength => 2,
            Phase::ExtensionType => 2,
            Phase::ExtensionLength { typ: _ } => 2,
            Phase::ExtensionBody { len } => len as u64,
            Phase::ServerNameListLength => 2,
            Phase::NameType => 1,
            Phase::OtherNameLength => 2,
            Phase::OtherName { len } => len as u64,
            Phase::HostNameLength => 2,
            Phase::HostName { len } => len as u64,
        }
    }

    /// What the holder of the stream must do next.
    pub fn request(&self) -> (r: Request)
        ensures
            r == self.spec_request(),
    {
        let wanted: u64 = self.awaited();
        let granted: u64 = match self.budget {
            Some(b) => if b < wanted {
                b
            } else {
                wanted
            },
            None => wanted,
        };
        match self.phase {
            Phase::VersionAndRandom
            | Phase::SessionId { .. }
            | Phase::CipherSuites { .. }
            | Phase::Compression { .. }
            | Phase::ExtensionBody { .. }
            | Phase::OtherName { .. } => Request::Skip(granted),
            _ => Request::Read(granted),
        }
    }

    /// Takes what came of the last request and decides how to go on.
    pub fn advance(self, event: Event) -> (progress: Progress)
        requires
            event.answers(self.spec_request()),
        ensures
            renders(progress, self.next(event)),
    {
        proof {
            reveal(Extractor::next);
        }
        let wanted: u64 = self.awaited();
        let (count, data): (u64, Vec<u8>) = match event {
            Event::Data(bytes) => (bytes.len() as u64, bytes),
            Event::Skipped(n) => (n, Vec::new()),
        };
        if count < wanted {
            return Progress::Finished(
                Err(SniError::Truncated { requested: wanted, available: count }),
            );
        }
        let left: Option<u64> = debited_budget(self.budget, wanted);
        let (phase, budget): (Phase, Option<u64>) = match self.phase {
            Phase::MessageType => {
                let typ: u8 = data[0];
                if typ != HANDSHAKE_TYPE_CLIENT_HELLO {
                    return Progress::Finished(
                        Err(
                            SniError::WrongMessageType {
                                observed: typ,
                                expected: HANDSHAKE_TYPE_CLIENT_HELLO,
                            },
                        ),
                    );
                }
                (Phase::BodyLength, left)
            },
            Phase::BodyLength => {
                let len: u32 = read_u24(data.as_slice());
                (Phase::VersionAndRandom, narrowed_budget(left, len as u64))
            },
            Phase::VersionAndRandom => (Phase::SessionIdLength, left),
            Phase::SessionIdLength => (Phase::SessionId { len: data[0] as u16 }, left),
            Phase::SessionId { .. } => (Phase::CipherSuitesLength, left),
            Phase::CipherSuitesLength => (
                Phase::CipherSuites { len: read_u16(data.as_slice()) },
                left,
            ),
            Phase::CipherSuites { .. } => (Phase::CompressionLength, left),
            Phase::CompressionLength => (Phase::Compression { len: data[0] as u16 }, left),
            Phase::Compression { .. } => (Phase::ExtensionsLength, left),
            Phase::ExtensionsLength => {
                let len: u16 = read_u16(data.as_slice());
                (Phase::ExtensionType, narrowed_budget(left, len as u64))
            },
            Phase::ExtensionType => (
                Phase::ExtensionLength { typ: read_u16(data.as_slice()) },
                left,
            ),
            Phase::ExtensionLength { typ } => {
                let len: u16 = read_u16(data.as_slice());
                if typ != EXTENSION_TYPE_SNI {
                    (Phase::ExtensionBody { len }, left)
                } else {
                    (Phase::ServerNameListLength, narrowed_budget(left, len as u64))
                }
            },
            Phase::ExtensionBody { .. } => (Phase::ExtensionType, left),
            Phase::ServerNameListLength => {
                let len: u16 = read_u16(data.as_slice());
                (Phase::NameType, narrowed_budget(left, len as u64))
            },
            Phase::NameType => if data[0] != NAME_TYPE_HOST_NAME {
                (Phase::OtherNameLength, left)
            } else {
                (Phase::HostNameLength, left)
            },
            Phase::OtherNameLength => (Phase::OtherName { len: read_u16(data.as_slice()) }, left),
            Phase::OtherName { .. } => (Phase::NameType, left),
            Phase::HostNameLength => {
                let len: u16 = read_u16(data.as_slice());
                (Phase::HostName { len }, narrowed_budget(left, len as u64))
            },
            Phase::HostName { .. } => {
                return Progress::Finished(decode_host_name(data));
            },
        };
        Progress::Pending(Extractor { phase, budget })
    }
}

} // verus!
