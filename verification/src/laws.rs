//! What holds of every stream.
//!
//! The laws are about `client_hello`, the meaning of the wire format. The
//! extraction returns what `client_hello` says, so they hold of it too.

use crate::wire::client_hello;
use crate::wire::extensions;
use crate::wire::extensions_block;
use crate::wire::handshake;
use crate::wire::hello_body;
use crate::wire::narrowed;
use crate::wire::server_name_list;
use crate::wire::server_names;
use crate::wire::skip_fixed;
use crate::wire::skip_vec_u16;
use crate::wire::skip_vec_u8;
use crate::wire::u16_at;
use crate::wire::u24_at;
use crate::wire::Outcome;
use crate::wire::Verdict;
use crate::wire::Walk;
use crate::wire::EXTENSION_TYPE_SNI;
use crate::wire::HANDSHAKE_TYPE_CLIENT_HELLO;
use crate::wire::NAME_TYPE_HOST_NAME;
use crate::wire::VERSION_AND_RANDOM_LEN;
use vstd::prelude::*;

verus! {

/// The outcome is that of a read or skip which found the window empty at
/// `end`.
pub open spec fn truncated_at(o: Outcome, end: int) -> bool {
    o.verdict is Truncated && o.consumed == end
}

/// Two streams hold the same bytes before `end`.
pub open spec fn agree_before(s1: Seq<u8>, s2: Seq<u8>, end: int) -> bool {
    &&& end <= s1.len()
    &&& end <= s2.len()
    &&& forall|i: int| 0 <= i < end ==> s1[i] == s2[i]
}

// The list of names: it stays inside its window, reads nothing behind it,
// and runs dry where the window is cut before the place where it stopped.

proof fn lemma_server_names_bounds(s: Seq<u8>, pos: int, end: int)
    requires
        0 <= pos <= end <= s.len(),
    ensures
        pos <= server_names(s, pos, end).consumed <= end,
    decreases end - pos,
{
    if end - pos >= 1 && s[pos] != NAME_TYPE_HOST_NAME {
        if let Walk::At(next) = skip_vec_u16(s, pos + 1, end) {
            lemma_server_names_bounds(s, next, end);
        }
    }
}

proof fn lemma_server_names_agree(s1: Seq<u8>, s2: Seq<u8>, pos: int, end: int)
    requires
        0 <= pos <= end,
        agree_before(s1, s2, end),
    ensures
        server_names(s1, pos, end) == server_names(s2, pos, end),
    decreases end - pos,
{
    if end - pos >= 1 {
        if s1[pos] != NAME_TYPE_HOST_NAME {
            if let Walk::At(next) = skip_vec_u16(s1, pos + 1, end) {
                lemma_server_names_agree(s1, s2, next, end);
            }
        } else if end - (pos + 1) >= 2 {
            let len: int = u16_at(s1, pos + 1);
            if end - (pos + 3) >= len {
                assert(s1.subrange(pos + 3, pos + 3 + len) =~= s2.subrange(
                    pos + 3,
                    pos + 3 + len,
                ));
            }
        }
    }
}

proof fn lemma_server_names_cut(s: Seq<u8>, pos: int, end: int, cut: int)
    requires
        0 <= pos <= cut <= end <= s.len(),
        cut < server_names(s, pos, end).consumed,
    ensures
        truncated_at(server_names(s, pos, cut), cut),
    decreases end - pos,
{
    if end - pos >= 1 && cut - pos >= 1 && s[pos] != NAME_TYPE_HOST_NAME {
        if let Walk::At(next) = skip_vec_u16(s, pos + 1, end) {
            if next <= cut {
                lemma_server_names_cut(s, next, end, cut);
            }
        }
    }
}

proof fn lemma_server_name_list_bounds(s: Seq<u8>, pos: int, end: int)
    requires
        0 <= pos <= end <= s.len(),
    ensures
        pos <= server_name_list(s, pos, end).consumed <= end,
{
    if end - pos >= 2 {
        lemma_server_names_bounds(s, pos + 2, narrowed(pos + 2, end, u16_at(s, pos)));
    }
}

proof fn lemma_server_name_list_agree(s1: Seq<u8>, s2: Seq<u8>, pos: int, end: int)
    requires
        0 <= pos <= end,
        agree_before(s1, s2, end),
    ensures
        server_name_list(s1, pos, end) == server_name_list(s2, pos, end),
{
    if end - pos >= 2 {
        lemma_server_names_agree(s1, s2, pos + 2, narrowed(pos + 2, end, u16_at(s1, pos)));
    }
}

proof fn lemma_server_name_list_cut(s: Seq<u8>, pos: int, end: int, cut: int)
    requires
        0 <= pos <= cut <= end <= s.len(),
        cut < server_name_list(s, pos, end).consumed,
    ensures
        truncated_at(server_name_list(s, pos, cut), cut),
{
    if end - pos >= 2 && cut - pos >= 2 {
        let inner: int = narrowed(pos + 2, end, u16_at(s, pos));
        lemma_server_names_bounds(s, pos + 2, inner);
        lemma_server_names_cut(s, pos + 2, inner, narrowed(pos + 2, cut, u16_at(s, pos)));
    }
}

// The same three facts of the list of extensions.

proof fn lemma_extensions_bounds(s: Seq<u8>, pos: int, end: int)
    requires
        0 <= pos <= end <= s.len(),
    ensures
        pos <= extensions(s, pos, end).consumed <= end,
    decreases end - pos,
{
    if end - pos >= 4 {
        let len: int = u16_at(s, pos + 2);
        if u16_at(s, pos) != EXTENSION_TYPE_SNI {
            if let Walk::At(next) = skip_fixed(pos + 4, end, len) {
                lemma_extensions_bounds(s, next, end);
            }
        } else {
            lemma_server_name_list_bounds(s, pos + 4, narrowed(pos + 4, end, len));
        }
    }
}

proof fn lemma_extensions_agree(s1: Seq<u8>, s2: Seq<u8>, pos: int, end: int)
    requires
        0 <= pos <= end,
        agree_before(s1, s2, end),
    ensures
        extensions(s1, pos, end) == extensions(s2, pos, end),
    decreases end - pos,
{
    if end - pos >= 4 {
        let len: int = u16_at(s1, pos + 2);
        if u16_at(s1, pos) != EXTENSION_TYPE_SNI {
            if let Walk::At(next) = skip_fixed(pos + 4, end, len) {
                lemma_extensions_agree(s1, s2, next, end);
            }
        } else {
            lemma_server_name_list_agree(s1, s2, pos + 4, narrowed(pos + 4, end, len));
        }
    }
}

proof fn lemma_extensions_cut(s: Seq<u8>, pos: int, end: int, cut: int)
    requires
        0 <= pos <= cut <= end <= s.len(),
        cut < extensions(s, pos, end).consumed,
    ensures
        truncated_at(extensions(s, pos, cut), cut),
    decreases end - pos,
{
    if end - pos >= 4 && cut - pos >= 4 {
        let len: int = u16_at(s, pos + 2);
        if u16_at(s, pos) != EXTENSION_TYPE_SNI {
            if let Walk::At(next) = skip_fixed(pos + 4, end, len) {
                if next <= cut {
                    lemma_extensions_cut(s, next, end, cut);
                }
            }
        } else {
            let inner: int = narrowed(pos + 4, end, len);
            lemma_server_name_list_bounds(s, pos + 4, inner);
            lemma_server_name_list_cut(s, pos + 4, inner, narrowed(pos + 4, cut, len));
        }
    }
}

proof fn lemma_extensions_block_bounds(s: Seq<u8>, pos: int, end: int)
    requires
        0 <= pos <= end <= s.len(),
    ensures
        pos <= extensions_block(s, pos, end).consumed <= end,
{
    if end - pos >= 2 {
        lemma_extensions_bounds(s, pos + 2, narrowed(pos + 2, end, u16_at(s, pos)));
    }
}

proof fn lemma_extensions_block_agree(s1: Seq<u8>, s2: Seq<u8>, pos: int, end: int)
    requires
        0 <= pos <= end,
        agree_before(s1, s2, end),
    ensures
        extensions_block(s1, pos, end) == extensions_block(s2, pos, end),
{
    if end - pos >= 2 {
        lemma_extensions_agree(s1, s2, pos + 2, narrowed(pos + 2, end, u16_at(s1, pos)));
    }
}

proof fn lemma_extensions_block_cut(s: Seq<u8>, pos: int, end: int, cut: int)
    requires
        0 <= pos <= cut <= end <= s.len(),
        cut < extensions_block(s, pos, end).consumed,
    ensures
        truncated_at(extensions_block(s, pos, cut), cut),
{
    if end - pos >= 2 && cut - pos >= 2 {
        let inner: int = narrowed(pos + 2, end, u16_at(s, pos));
        lemma_extensions_bounds(s, pos + 2, inner);
        lemma_extensions_cut(s, pos + 2, inner, narrowed(pos + 2, cut, u16_at(s, pos)));
    }
}

// And of the body of the handshake, whose vectors are passed over before
// the extensions are reached.

/// Where the extensions block of a body starts, if the window reaches it.
spec fn extensions_block_start(s: Seq<u8>, pos: int, end: int) -> Walk {
    match skip_fixed(pos, end, VERSION_AND_RANDOM_LEN as int) {
        Walk::Stop(o) => Walk::Stop(o),
        Walk::At(at_session_id) => match skip_vec_u8(s, at_session_id, end) {
            Walk::Stop(o) => Walk::Stop(o),
            Walk::At(at_cipher_suites) => match skip_vec_u16(s, at_cipher_suites, end) {
                Walk::Stop(o) => Walk::Stop(o),
                Walk::At(at_compression) => skip_vec_u8(s, at_compression, end),
            },
        },
    }
}

proof fn lemma_hello_body_unfolds(s: Seq<u8>, pos: int, end: int)
    ensures
        hello_body(s, pos, end) == match extensions_block_start(s, pos, end) {
            Walk::Stop(o) => o,
            Walk::At(next) => extensions_block(s, next, end),
        },
{
}

proof fn lemma_hello_body_bounds(s: Seq<u8>, pos: int, end: int)
    requires
        0 <= pos <= end <= s.len(),
    ensures
        pos <= hello_body(s, pos, end).consumed <= end,
{
    lemma_hello_body_unfolds(s, pos, end);
    if let Walk::At(next) = extensions_block_start(s, pos, end) {
        lemma_extensions_block_bounds(s, next, end);
    }
}

proof fn lemma_hello_body_agree(s1: Seq<u8>, s2: Seq<u8>, pos: int, end: int)
    requires
        0 <= pos <= end,
        agree_before(s1, s2, end),
    ensures
        hello_body(s1, pos, end) == hello_body(s2, pos, end),
{
    lemma_hello_body_unfolds(s1, pos, end);
    lemma_hello_body_unfolds(s2, pos, end);
    if let Walk::At(next) = extensions_block_start(s1, pos, end) {
        lemma_extensions_block_agree(s1, s2, next, end);
    }
}

proof fn lemma_hello_body_cut(s: Seq<u8>, pos: int, end: int, cut: int)
    requires
        0 <= pos <= cut <= end <= s.len(),
        cut < hello_body(s, pos, end).consumed,
    ensures
        truncated_at(hello_body(s, pos, cut), cut),
{
    lemma_hello_body_unfolds(s, pos, end);
    lemma_hello_body_unfolds(s, pos, cut);
    if let Walk::At(next) = extensions_block_start(s, pos, end) {
        if next <= cut {
            lemma_extensions_block_cut(s, next, end, cut);
        }
    }
}

proof fn lemma_handshake_bounds(s: Seq<u8>, pos: int, end: int)
    requires
        0 <= pos <= end <= s.len(),
    ensures
        pos <= handshake(s, pos, end).consumed <= end,
{
    if end - pos >= 4 {
        lemma_hello_body_bounds(s, pos + 4, narrowed(pos + 4, end, u24_at(s, pos + 1)));
    }
}

proof fn lemma_handshake_agree(s1: Seq<u8>, s2: Seq<u8>, pos: int, end: int)
    requires
        0 <= pos <= end,
        agree_before(s1, s2, end),
    ensures
        handshake(s1, pos, end) == handshake(s2, pos, end),
{
    if end - pos >= 4 {
        lemma_hello_body_agree(s1, s2, pos + 4, narrowed(pos + 4, end, u24_at(s1, pos + 1)));
    }
}

proof fn lemma_handshake_cut(s: Seq<u8>, pos: int, end: int, cut: int)
    requires
        0 <= pos <= cut <= end <= s.len(),
        cut < handshake(s, pos, end).consumed,
    ensures
        truncated_at(handshake(s, pos, cut), cut),
{
    if end - pos >= 4 && cut - pos >= 4 && s[pos] == HANDSHAKE_TYPE_CLIENT_HELLO {
        let len: int = u24_at(s, pos + 1);
        let inner: int = narrowed(pos + 4, end, len);
        lemma_hello_body_bounds(s, pos + 4, inner);
        lemma_hello_body_cut(s, pos + 4, inner, narrowed(pos + 4, cut, len));
    }
}

/// The regions of a ClientHello that carry a read budget of their own, from
/// the outermost to the innermost.
pub enum Region {
    Handshake,
    Body,
    ExtensionsBlock,
    Extensions,
    ServerNameList,
    ServerNames,
}

/// What the wire format makes of `region` when it starts at `pos` and its
/// window ends at `end`.
pub open spec fn within(region: Region, s: Seq<u8>, pos: int, end: int) -> Outcome {
    match region {
        Region::Handshake => handshake(s, pos, end),
        Region::Body => hello_body(s, pos, end),
        Region::ExtensionsBlock => extensions_block(s, pos, end),
        Region::Extensions => extensions(s, pos, end),
        Region::ServerNameList => server_name_list(s, pos, end),
        Region::ServerNames => server_names(s, pos, end),
    }
}

/// No region is left by a read. Whatever lengths are declared inside it,
/// the extraction takes nothing behind the end of the region's window, and
/// what lies behind it has no say in the outcome. A nested region's window
/// is `narrowed` from the enclosing one, so it ends no later.
pub proof fn lemma_region_bounds_reads(
    region: Region,
    s: Seq<u8>,
    other: Seq<u8>,
    pos: int,
    end: int,
)
    requires
        0 <= pos <= end,
        agree_before(s, other, end),
    ensures
        pos <= within(region, s, pos, end).consumed <= end,
        within(region, s, pos, end) == within(region, other, pos, end),
{
    match region {
        Region::Handshake => {
            lemma_handshake_bounds(s, pos, end);
            lemma_handshake_agree(s, other, pos, end);
        },
        Region::Body => {
            lemma_hello_body_bounds(s, pos, end);
            lemma_hello_body_agree(s, other, pos, end);
        },
        Region::ExtensionsBlock => {
            lemma_extensions_block_bounds(s, pos, end);
            lemma_extensions_block_agree(s, other, pos, end);
        },
        Region::Extensions => {
            lemma_extensions_bounds(s, pos, end);
            lemma_extensions_agree(s, other, pos, end);
        },
        Region::ServerNameList => {
            lemma_server_name_list_bounds(s, pos, end);
            lemma_server_name_list_agree(s, other, pos, end);
        },
        Region::ServerNames => {
            lemma_server_names_bounds(s, pos, end);
            lemma_server_names_agree(s, other, pos, end);
        },
    }
}

/// A nested region never reaches further than the one around it, whatever
/// length it declares.
pub proof fn lemma_narrowed_is_no_wider(pos: int, end: int, len: int)
    requires
        pos <= end,
        0 <= len,
    ensures
        pos <= narrowed(pos, end, len) <= end,
        narrowed(pos, end, len) <= pos + len,
{
}

/// A message of another type is refused at its first byte, whatever
/// follows, and nothing more is taken from the stream.
pub proof fn lemma_wrong_message_type(s: Seq<u8>)
    requires
        s.len() >= 1,
        s[0] != HANDSHAKE_TYPE_CLIENT_HELLO,
    ensures
        client_hello(s) == (Outcome {
            verdict: Verdict::WrongMessageType { observed: s[0] },
            consumed: 1,
        }),
{
}

/// No more is taken from a stream than it holds.
pub proof fn lemma_consumed_in_stream(s: Seq<u8>)
    ensures
        0 <= client_hello(s).consumed <= s.len(),
{
    lemma_handshake_bounds(s, 0, s.len() as int);
}

/// The declared length of the handshake body bounds every read. With `end`
/// the place where the declared body ends, or the stream if that is sooner,
/// nothing behind `end` is taken, and nothing behind `end` has any say: the
/// outcome is that of the stream cut at `end`. An inner length that claims
/// more than the body holds changes none of this.
pub proof fn lemma_body_bounds_reads(s: Seq<u8>)
    requires
        s.len() >= 4,
        s[0] == HANDSHAKE_TYPE_CLIENT_HELLO,
    ensures
        ({
            let end: int = narrowed(4, s.len() as int, u24_at(s, 1));
            &&& client_hello(s).consumed <= end
            &&& client_hello(s) == client_hello(s.take(end))
        }),
{
    let end: int = narrowed(4, s.len() as int, u24_at(s, 1));
    let cut: Seq<u8> = s.take(end);
    lemma_hello_body_bounds(s, 4, end);
    lemma_hello_body_agree(s, cut, 4, end);
    assert(u24_at(cut, 1) == u24_at(s, 1));
}

/// A stream that ends before the place where the extraction would have
/// stopped is reported as truncated, and is taken whole. No cut, at the
/// length of the handshake, of an extension, of the list of names or of a
/// name, or within the name itself, yields a shorter name or another error.
pub proof fn lemma_cut_short(s: Seq<u8>, cut: int)
    requires
        0 <= cut < client_hello(s).consumed,
    ensures
        client_hello(s.take(cut)).verdict is Truncated,
        client_hello(s.take(cut)).consumed == cut,
{
    lemma_consumed_in_stream(s);
    lemma_handshake_cut(s, 0, s.len() as int, cut);
    lemma_handshake_agree(s.take(cut), s, 0, cut);
}

} // verus!
