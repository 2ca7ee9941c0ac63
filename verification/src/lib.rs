//! Finding the Server Name Indication host name in a TLS ClientHello.
//!
//! A ClientHello is a nest of length-prefixed regions. The extraction walks
//! it field by field, never reads past the region it is in, and stops at the
//! first host name.
//!
//! - `wire` says what the format means: for every sequence of bytes, how an
//!   extraction from it ends and how much of it is taken.
//! - `extractor` holds the decisions, as a machine that is fed from a stream
//!   by whoever holds the stream.
//! - `refinement` proves that the machine, fed honestly, ends as `wire` says.
//! - `reader` is a stream in memory, and the function below feeds the machine
//!   from it.
//! - `laws` and `message` state what follows for every input.

pub mod error;
pub mod extractor;
pub mod laws;
pub mod message;
pub mod reader;
pub mod refinement;
pub mod wire;

use crate::error::delivers;
use crate::error::SniError;
use crate::extractor::Event;
use crate::extractor::Extractor;
use crate::extractor::Progress;
use crate::extractor::Request;
use crate::reader::SliceReader;
use crate::refinement::lemma_start;
use crate::refinement::lemma_step;
use crate::refinement::lemma_step_progress;
use crate::refinement::remainder;
use crate::wire::client_hello;
use vstd::prelude::*;

verus! {

/// Reads the Server Name Indication host name from a stream that stands at
/// the start of a ClientHello handshake message.
///
/// The result is what the wire format makes of the bytes that the stream
/// still holds, and the stream is left where the extraction stopped: behind
/// the host name, or where an error was found.
pub fn read_sni_host_name_from_client_hello(reader: &mut SliceReader<'_>) -> (result: Result<
    String,
    SniError,
>)
    ensures
        final(reader).source() == old(reader).source(),
        final(reader).consumed() == old(reader).consumed() + client_hello(
            old(reader).remaining(),
        ).consumed,
        delivers(result, client_hello(old(reader).remaining()).verdict),
{
    let start: usize = reader.position();
    let ghost source: Seq<u8> = reader.source();
    let ghost s: Seq<u8> = reader.remaining();
    let mut machine: Extractor = Extractor::new();
    proof {
        lemma_start(s);
    }
    loop
        invariant
            source == old(reader).source(),
            start == old(reader).consumed(),
            s == old(reader).remaining(),
            reader.source() == source,
            start <= reader.consumed() <= source.len(),
            remainder(machine, s, reader.consumed() - start) == client_hello(s),
        decreases
                2 * (source.len() - reader.consumed()) + if machine.skips() {
                    1int
                } else {
                    0int
                },
    {
        let ghost before: int = reader.consumed();
        let event: Event = match machine.request() {
            Request::Read(len) => Event::Data(reader.read(len)),
            Request::Skip(len) => Event::Skipped(reader.skip(len)),
        };
        proof {
            assert(source.skip(before) =~= s.skip(before - start));
            lemma_step(machine, event, s, before - start);
            lemma_step_progress(machine, event);
        }
        match machine.advance(event) {
            Progress::Finished(result) => {
                return result;
            },
            Progress::Pending(next) => {
                machine = next;
            },
        }
    }
}

} // verus!
