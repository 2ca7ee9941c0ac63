//! Why the machine is right: fed from any stream, it ends with what the wire
//! format says of that stream's bytes.
//!
//! `remainder` says what the rest of a stream holds for a waiting machine.
//! It is the format's answer at the start, no honest step changes it, and a
//! machine that finishes delivers it.

use crate::extractor::Event;
use crate::extractor::Extractor;
use crate::extractor::Phase;
use crate::extractor::Step;
use crate::wire::body_length;
use crate::wire::cipher_suites;
use crate::wire::client_hello;
use crate::wire::compression_methods;
use crate::wire::extensions;
use crate::wire::extensions_block;
use crate::wire::handshake;
use crate::wire::hello_body;
use crate::wire::narrowed;
use crate::wire::server_name_list;
use crate::wire::server_names;
use crate::wire::session_id;
use crate::wire::short;
use crate::wire::skip_fixed;
use crate::wire::skip_vec_u16;
use crate::wire::u16_at;
use crate::wire::Outcome;
use crate::wire::Verdict;
use crate::wire::Walk;
use crate::wire::EXTENSION_TYPE_SNI;
use vstd::prelude::*;

verus! {

/// The end of the window of a machine that stands at `pos` in `s`: as far
/// as its budget reaches, and no further than the stream.
pub open spec fn window_end(machine: Extractor, s: Seq<u8>, pos: int) -> int {
    match machine.budget {
        Some(b) => narrowed(pos, s.len() as int, b as int),
        None => s.len() as int,
    }
}

/// What the wire format makes of `s` from `pos` on, for a machine that
/// stands there.
#[verifier::opaque]
pub open spec fn remainder(machine: Extractor, s: Seq<u8>, pos: int) -> Outcome {
    let end: int = window_end(machine, s, pos);
    match machine.phase {
        Phase::MessageType => handshake(s, pos, end),
        Phase::BodyLength => body_length(s, pos, end),
        Phase::VersionAndRandom => hello_body(s, pos, end),
        Phase::SessionIdLength => session_id(s, pos, end),
        Phase::SessionId { len } => match skip_fixed(pos, end, len as int) {
            Walk::Stop(o) => o,
            Walk::At(next) => cipher_suites(s, next, end),
        },
        Phase::CipherSuitesLength => cipher_suites(s, pos, end),
        Phase::CipherSuites { len } => match skip_fixed(pos, end, len as int) {
            Walk::Stop(o) => o,
            Walk::At(next) => compression_methods(s, next, end),
        },
        Phase::CompressionLength => compression_methods(s, pos, end),
        Phase::Compression { len } => match skip_fixed(pos, end, len as int) {
            Walk::Stop(o) => o,
            Walk::At(next) => extensions_block(s, next, end),
        },
        Phase::ExtensionsLength => extensions_block(s, pos, end),
        Phase::ExtensionType => extensions(s, pos, end),
        Phase::ExtensionLength { typ } => if end - pos < 2 {
            short(pos, end, 2)
        } else if typ != EXTENSION_TYPE_SNI {
            match skip_fixed(pos + 2, end, u16_at(s, pos)) {
                Walk::Stop(o) => o,
                Walk::At(next) => extensions(s, next, end),
            }
        } else {
            server_name_list(s, pos + 2, narrowed(pos + 2, end, u16_at(s, pos)))
        },
        Phase::ExtensionBody { len } => match skip_fixed(pos, end, len as int) {
            Walk::Stop(o) => o,
            Walk::At(next) => extensions(s, next, end),
        },
        Phase::ServerNameListLength => server_name_list(s, pos, end),
        Phase::NameType => server_names(s, pos, end),
        Phase::OtherNameLength => match skip_vec_u16(s, pos, end) {
            Walk::Stop(o) => o,
            Walk::At(next) => server_names(s, next, end),
        },
        Phase::OtherName { len } => match skip_fixed(pos, end, len as int) {
            Walk::Stop(o) => o,
            Walk::At(next) => server_names(s, next, end),
        },
        Phase::HostNameLength => if end - pos < 2 {
            short(pos, end, 2)
        } else if end - (pos + 2) < u16_at(s, pos) {
            short(pos + 2, end, u16_at(s, pos))
        } else {
            Outcome {
                verdict: Verdict::HostName(s.subrange(pos + 2, pos + 2 + u16_at(s, pos))),
                consumed: pos + 2 + u16_at(s, pos),
            }
        },
        Phase::HostName { len } => if end - pos < len {
            short(pos, end, len as int)
        } else {
            Outcome { verdict: Verdict::HostName(s.subrange(pos, pos + len)), consumed: pos + len }
        },
    }
}

/// A new machine at the start of a stream is owed what the wire format
/// makes of the whole stream.
pub proof fn lemma_start(s: Seq<u8>)
    ensures
        remainder(Extractor { phase: Phase::MessageType, budget: None }, s, 0) == client_hello(s),
{
    reveal(remainder);
}

/// An honest step keeps what is owed. Where the machine stands at `pos` in
/// `s` and `event` reports what the stream gave for its request, the machine
/// either waits again, further on and owed the same, or finishes with the
/// verdict that was owed, having taken the bytes that were owed.
#[verifier::rlimit(40)]
pub proof fn lemma_step(machine: Extractor, event: Event, s: Seq<u8>, pos: int)
    requires
        0 <= pos <= s.len(),
        event.drawn_from(machine.spec_request(), s.skip(pos)),
    ensures
        match machine.next(event) {
            Step::Pending(after) => remainder(after, s, pos + event.count()) == remainder(
                machine,
                s,
                pos,
            ),
            Step::Finished(verdict) => remainder(machine, s, pos) == (Outcome {
                verdict,
                consumed: pos + event.count(),
            }),
        },
{
    reveal(remainder);
    reveal(Extractor::next);
    let data: Seq<u8> = event.data();
    let end: int = window_end(machine, s, pos);
    assert(event.count() == if machine.wanted() <= end - pos {
        machine.wanted() as int
    } else {
        end - pos
    });
    if event is Data {
        assert forall|i: int| 0 <= i < data.len() implies data[i] == s[pos + i] by {
            assert(data[i] == s.skip(pos).take(event.count())[i]);
        }
    }
    if event.count() >= machine.wanted() {
        // One case for each phase: each is plain once it stands alone.
        match machine.phase {
            Phase::MessageType => {},
            Phase::BodyLength => {},
            Phase::VersionAndRandom => {},
            Phase::SessionIdLength => {},
            Phase::SessionId { len } => {},
            Phase::CipherSuitesLength => {},
            Phase::CipherSuites { len } => {},
            Phase::CompressionLength => {},
            Phase::Compression { len } => {},
            Phase::ExtensionsLength => {},
            Phase::ExtensionType => {},
            Phase::ExtensionLength { typ } => {},
            Phase::ExtensionBody { len } => {},
            Phase::ServerNameListLength => {},
            Phase::NameType => {},
            Phase::OtherNameLength => {},
            Phase::OtherName { len } => {},
            Phase::HostNameLength => {},
            Phase::HostName { len } => {
                assert(data =~= s.subrange(pos, pos + len));
            },
        }
    } else {
        lemma_shortfall(machine, s, pos);
    }
}

/// Where the window holds less than the awaited field, the extraction ends
/// there, and what the window held is taken.
proof fn lemma_shortfall(machine: Extractor, s: Seq<u8>, pos: int)
    requires
        0 <= pos <= s.len(),
        window_end(machine, s, pos) - pos < machine.wanted(),
    ensures
        remainder(machine, s, pos) == short(
            pos,
            window_end(machine, s, pos),
            machine.wanted() as int,
        ),
{
    reveal(remainder);
}

/// Every step gets somewhere: after a read that did not finish the machine
/// at least one byte was taken, and after a skip a read follows.
pub proof fn lemma_step_progress(machine: Extractor, event: Event)
    requires
        event.answers(machine.spec_request()),
    ensures
        machine.next(event) matches Step::Pending(after) ==> if machine.skips() {
            !after.skips()
        } else {
            event.count() >= 1
        },
{
    reveal(Extractor::next);
}

/// No request reaches past the budget, or past the awaited field.
pub proof fn lemma_request_within_budget(machine: Extractor)
    ensures
        machine.granted() <= machine.wanted(),
        machine.budget matches Some(b) ==> machine.granted() <= b,
{
}

/// The budget only shrinks. Once there is one, every step leaves one, and
/// what it leaves is at most what was there, less what the step took:
/// entering a region never widens what the enclosing region allows.
pub proof fn lemma_budget_shrinks(machine: Extractor, event: Event)
    requires
        event.answers(machine.spec_request()),
    ensures
        machine.next(event) matches Step::Pending(after) ==> (machine.budget matches Some(b)
            ==> after.budget matches Some(a) && a + event.count() <= b),
{
    reveal(Extractor::next);
}

} // verus!
