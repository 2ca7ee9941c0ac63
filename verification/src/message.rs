//! A ClientHello as a value, and the bytes that stand for it.
//!
//! This is the other direction of the wire format: from the fields to the
//! stream. It is what "well-formed" means, and the law at the end says that
//! the extraction finds in a well-formed stream the name that was put there.

use crate::laws::lemma_cut_short;
use crate::wire::client_hello;
use crate::wire::extensions;
use crate::wire::hello_body;
use crate::wire::server_name_list;
use crate::wire::server_names;
use crate::wire::u16_at;
use crate::wire::u24_at;
use crate::wire::Outcome;
use crate::wire::Verdict;
use crate::wire::EXTENSION_TYPE_SNI;
use crate::wire::HANDSHAKE_TYPE_CLIENT_HELLO;
use crate::wire::NAME_TYPE_HOST_NAME;
use crate::wire::VERSION_AND_RANDOM_LEN;
use vstd::prelude::*;

verus! {

/// An entry of a ServerNameList.
pub struct NameEntry {
    pub typ: u8,
    pub name: Seq<u8>,
}

/// An extension of a ClientHello.
pub struct Extension {
    pub typ: u16,
    pub body: Seq<u8>,
}

/// The fields of a ClientHello.
pub struct Hello {
    pub version_and_random: Seq<u8>,
    pub session_id: Seq<u8>,
    pub cipher_suites: Seq<u8>,
    pub compression_methods: Seq<u8>,
    pub extensions: Seq<Extension>,
}

/// `n` in two bytes, the most significant first.
pub open spec fn be16(n: int) -> Seq<u8> {
    seq![(n / 256) as u8, (n % 256) as u8]
}

/// `n` in three bytes, the most significant first.
pub open spec fn be24(n: int) -> Seq<u8> {
    seq![(n / 65536) as u8, (n / 256 % 256) as u8, (n % 256) as u8]
}

/// An entry: its type, the length of its name, the name.
pub open spec fn encode_name(entry: NameEntry) -> Seq<u8> {
    seq![entry.typ] + be16(entry.name.len() as int) + entry.name
}

/// The entries one after another.
pub open spec fn encode_names(names: Seq<NameEntry>) -> Seq<u8>
    decreases names.len(),
{
    if names.len() == 0 {
        Seq::empty()
    } else {
        encode_name(names[0]) + encode_names(names.drop_first())
    }
}

/// A ServerNameList: the length of its entries, then the entries.
pub open spec fn encode_name_list(names: Seq<NameEntry>) -> Seq<u8> {
    be16(encode_names(names).len() as int) + encode_names(names)
}

/// An extension: its type, the length of its body, the body.
pub open spec fn encode_extension(extension: Extension) -> Seq<u8> {
    be16(extension.typ as int) + be16(extension.body.len() as int) + extension.body
}

/// The extensions one after another.
pub open spec fn encode_extensions(list: Seq<Extension>) -> Seq<u8>
    decreases list.len(),
{
    if list.len() == 0 {
        Seq::empty()
    } else {
        encode_extension(list[0]) + encode_extensions(list.drop_first())
    }
}

/// The body of the handshake message.
pub open spec fn encode_body(hello: Hello) -> Seq<u8> {
    hello.version_and_random + seq![hello.session_id.len() as u8] + hello.session_id + be16(
        hello.cipher_suites.len() as int,
    ) + hello.cipher_suites + seq![hello.compression_methods.len() as u8]
        + hello.compression_methods + be16(encode_extensions(hello.extensions).len() as int)
        + encode_extensions(hello.extensions)
}

/// The handshake message: the ClientHello tag, the length of the body, the
/// body.
pub open spec fn encode_hello(hello: Hello) -> Seq<u8> {
    seq![HANDSHAKE_TYPE_CLIENT_HELLO] + be24(encode_body(hello).len() as int) + encode_body(hello)
}

/// Every name fits its length prefix, and so do all the entries together.
pub open spec fn names_fit(names: Seq<NameEntry>) -> bool {
    &&& encode_names(names).len() <= 0xffff
    &&& forall|k: int| 0 <= k < names.len() ==> (#[trigger] names[k]).name.len() <= 0xffff
}

/// Every field fits its length prefix.
pub open spec fn hello_fits(hello: Hello) -> bool {
    &&& hello.version_and_random.len() == VERSION_AND_RANDOM_LEN
    &&& hello.session_id.len() <= 0xff
    &&& hello.cipher_suites.len() <= 0xffff
    &&& hello.compression_methods.len() <= 0xff
    &&& encode_extensions(hello.extensions).len() <= 0xffff
    &&& forall|k: int|
        0 <= k < hello.extensions.len() ==> (#[trigger] hello.extensions[k]).body.len() <= 0xffff
}

/// `at` is the first entry of `names` that is a host name.
pub open spec fn first_host_name(names: Seq<NameEntry>, at: int) -> bool {
    &&& 0 <= at < names.len()
    &&& names[at].typ == NAME_TYPE_HOST_NAME
    &&& forall|k: int| 0 <= k < at ==> (#[trigger] names[k]).typ != NAME_TYPE_HOST_NAME
}

/// `at` is the first extension of `list` that is a Server Name Indication.
pub open spec fn first_sni(list: Seq<Extension>, at: int) -> bool {
    &&& 0 <= at < list.len()
    &&& list[at].typ == EXTENSION_TYPE_SNI
    &&& forall|k: int| 0 <= k < at ==> (#[trigger] list[k]).typ != EXTENSION_TYPE_SNI
}

/// How many bytes of `encode_names(names)` lie before the name of entry
/// `at`, and with it.
pub open spec fn name_end(names: Seq<NameEntry>, at: int) -> int
    decreases at,
{
    if at <= 0 {
        3 + names[0].name.len() as int
    } else {
        encode_name(names[0]).len() + name_end(names.drop_first(), at - 1)
    }
}

/// How many bytes of `encode_extensions(list)` lie before the body of
/// extension `at`.
pub open spec fn body_start(list: Seq<Extension>, at: int) -> int
    decreases at,
{
    if at <= 0 {
        4
    } else {
        encode_extension(list[0]).len() + body_start(list.drop_first(), at - 1)
    }
}

/// The stream `s` holds `piece` at `pos`.
#[verifier::opaque]
spec fn holds(s: Seq<u8>, pos: int, piece: Seq<u8>) -> bool {
    &&& 0 <= pos
    &&& pos + piece.len() <= s.len()
    &&& forall|i: int| 0 <= i < piece.len() ==> s[pos + i] == #[trigger] piece[i]
}

proof fn lemma_holds_split(s: Seq<u8>, pos: int, a: Seq<u8>, b: Seq<u8>)
    requires
        holds(s, pos, a + b),
    ensures
        holds(s, pos, a),
        holds(s, pos + a.len(), b),
{
    reveal(holds);
    assert forall|i: int| 0 <= i < a.len() implies s[pos + i] == #[trigger] a[i] by {
        assert((a + b)[i] == a[i]);
    }
    assert forall|i: int| 0 <= i < b.len() implies s[pos + a.len() + i] == #[trigger] b[i] by {
        assert((a + b)[a.len() + i] == b[i]);
    }
}

proof fn lemma_holds_byte(s: Seq<u8>, pos: int, byte: u8)
    requires
        holds(s, pos, seq![byte]),
    ensures
        s[pos] == byte,
{
    reveal(holds);
    assert(seq![byte][0] == byte);
}

proof fn lemma_holds_u16(s: Seq<u8>, pos: int, n: int)
    requires
        holds(s, pos, be16(n)),
        0 <= n <= 0xffff,
    ensures
        u16_at(s, pos) == n,
{
    reveal(holds);
    assert(be16(n)[0] == (n / 256) as u8);
    assert(be16(n)[1] == (n % 256) as u8);
}

proof fn lemma_holds_u24(s: Seq<u8>, pos: int, n: int)
    requires
        holds(s, pos, be24(n)),
        0 <= n <= 0xffffff,
    ensures
        u24_at(s, pos) == n,
{
    reveal(holds);
    assert(be24(n)[0] == (n / 65536) as u8);
    assert(be24(n)[1] == (n / 256 % 256) as u8);
    assert(be24(n)[2] == (n % 256) as u8);
}

proof fn lemma_holds_all(s: Seq<u8>, pos: int, piece: Seq<u8>)
    requires
        holds(s, pos, piece),
    ensures
        s.subrange(pos, pos + piece.len()) == piece,
{
    reveal(holds);
    assert forall|i: int| 0 <= i < piece.len() implies s.subrange(pos, pos + piece.len())[i]
        == piece[i] by {
        assert(s[pos + i] == piece[i]);
    }
    assert(s.subrange(pos, pos + piece.len()) =~= piece);
}

/// A list that holds a host name takes at least the bytes up to its end.
proof fn lemma_name_end_in_names(names: Seq<NameEntry>, at: int)
    requires
        0 <= at < names.len(),
    ensures
        3 + names[at].name.len() <= name_end(names, at) <= encode_names(names).len(),
    decreases at,
{
    if at > 0 {
        lemma_name_end_in_names(names.drop_first(), at - 1);
    }
}

/// A list of extensions takes at least the bytes up to the end of each
/// body.
proof fn lemma_body_in_extensions(list: Seq<Extension>, at: int)
    requires
        0 <= at < list.len(),
    ensures
        4 <= body_start(list, at),
        body_start(list, at) + list[at].body.len() <= encode_extensions(list).len(),
    decreases at,
{
    if at > 0 {
        lemma_body_in_extensions(list.drop_first(), at - 1);
    }
}

/// The entries before the first host name are passed over, and its name is
/// the answer.
proof fn lemma_names_found(s: Seq<u8>, pos: int, end: int, names: Seq<NameEntry>, at: int)
    requires
        holds(s, pos, encode_names(names)),
        pos + encode_names(names).len() <= end <= s.len(),
        names_fit(names),
        first_host_name(names, at),
    ensures
        server_names(s, pos, end) == (Outcome {
            verdict: Verdict::HostName(names[at].name),
            consumed: pos + name_end(names, at),
        }),
    decreases at,
{
    let first: NameEntry = names[0];
    let rest: Seq<NameEntry> = names.drop_first();
    let len: int = first.name.len() as int;
    lemma_holds_split(s, pos, encode_name(first), encode_names(rest));
    lemma_holds_split(s, pos, seq![first.typ] + be16(len), first.name);
    lemma_holds_split(s, pos, seq![first.typ], be16(len));
    lemma_holds_byte(s, pos, first.typ);
    lemma_holds_u16(s, pos + 1, len);
    if at == 0 {
        lemma_holds_all(s, pos + 3, first.name);
    } else {
        assert forall|k: int| 0 <= k < rest.len() implies (#[trigger] rest[k]).name.len()
            <= 0xffff by {
            assert(rest[k] == names[k + 1]);
        }
        assert forall|k: int| 0 <= k < at - 1 implies (#[trigger] rest[k]).typ
            != NAME_TYPE_HOST_NAME by {
            assert(rest[k] == names[k + 1]);
        }
        assert(rest[at - 1] == names[at]);
        lemma_names_found(s, pos + 3 + len, end, rest, at - 1);
    }
}

/// The extensions before the first Server Name Indication are passed over,
/// and its body decides.
proof fn lemma_extensions_found(s: Seq<u8>, pos: int, end: int, list: Seq<Extension>, at: int)
    requires
        holds(s, pos, encode_extensions(list)),
        pos + encode_extensions(list).len() <= end <= s.len(),
        forall|k: int| 0 <= k < list.len() ==> (#[trigger] list[k]).body.len() <= 0xffff,
        first_sni(list, at),
    ensures
        holds(s, pos + body_start(list, at), list[at].body),
        extensions(s, pos, end) == server_name_list(
            s,
            pos + body_start(list, at),
            pos + body_start(list, at) + list[at].body.len(),
        ),
    decreases at,
{
    let first: Extension = list[0];
    let rest: Seq<Extension> = list.drop_first();
    let len: int = first.body.len() as int;
    lemma_holds_split(s, pos, encode_extension(first), encode_extensions(rest));
    lemma_holds_split(s, pos, be16(first.typ as int) + be16(len), first.body);
    lemma_holds_split(s, pos, be16(first.typ as int), be16(len));
    lemma_holds_u16(s, pos, first.typ as int);
    lemma_holds_u16(s, pos + 2, len);
    if at > 0 {
        assert forall|k: int| 0 <= k < rest.len() implies (#[trigger] rest[k]).body.len()
            <= 0xffff by {
            assert(rest[k] == list[k + 1]);
        }
        assert forall|k: int| 0 <= k < at - 1 implies (#[trigger] rest[k]).typ
            != EXTENSION_TYPE_SNI by {
            assert(rest[k] == list[k + 1]);
        }
        assert(rest[at - 1] == list[at]);
        lemma_extensions_found(s, pos + 4 + len, end, rest, at - 1);
    }
}

/// What holds a piece is long enough for it.
proof fn lemma_holds_fits(s: Seq<u8>, pos: int, piece: Seq<u8>)
    requires
        holds(s, pos, piece),
    ensures
        0 <= pos,
        pos + piece.len() <= s.len(),
{
    reveal(holds);
}

/// A stream holds what it starts with.
proof fn lemma_holds_prefix(head: Seq<u8>, trailing: Seq<u8>)
    ensures
        holds(head + trailing, 0, head),
{
    reveal(holds);
    let s: Seq<u8> = head + trailing;
    assert forall|i: int| 0 <= i < head.len() implies s[0 + i] == #[trigger] head[i] by {}
}

/// Where the body ends in `encode_hello`.
pub open spec fn body_end(hello: Hello) -> int {
    4 + encode_body(hello).len() as int
}

/// Where the extensions start in `encode_hello`.
pub open spec fn extensions_start(hello: Hello) -> int {
    4 + VERSION_AND_RANDOM_LEN + 1 + hello.session_id.len() + 2 + hello.cipher_suites.len() + 1
        + hello.compression_methods.len() + 2
}

/// Where the name of the first host-name entry ends in `encode_hello`,
/// when extension `sni` holds the list `names`.
pub open spec fn host_name_end(hello: Hello, sni: int, names: Seq<NameEntry>, at: int) -> int {
    extensions_start(hello) + body_start(hello.extensions, sni) + 2 + name_end(names, at)
}

/// The tag and the length of the body are read, and the body decides.
proof fn lemma_header_found(s: Seq<u8>, hello: Hello)
    requires
        holds(s, 0, encode_hello(hello)),
        hello_fits(hello),
    ensures
        holds(s, 4, encode_body(hello)),
        client_hello(s) == hello_body(s, 4, body_end(hello)),
{
    let body: Seq<u8> = encode_body(hello);
    lemma_holds_fits(s, 0, encode_hello(hello));
    lemma_holds_split(s, 0, seq![HANDSHAKE_TYPE_CLIENT_HELLO] + be24(body.len() as int), body);
    lemma_holds_split(s, 0, seq![HANDSHAKE_TYPE_CLIENT_HELLO], be24(body.len() as int));
    lemma_holds_byte(s, 0, HANDSHAKE_TYPE_CLIENT_HELLO);
    lemma_holds_u24(s, 1, body.len() as int);
}

/// The fields before the extensions are passed over.
proof fn lemma_body_found(s: Seq<u8>, hello: Hello)
    requires
        holds(s, 4, encode_body(hello)),
        hello_fits(hello),
    ensures
        holds(s, extensions_start(hello), encode_extensions(hello.extensions)),
        extensions_start(hello) + encode_extensions(hello.extensions).len() == body_end(hello),
        hello_body(s, 4, body_end(hello)) == extensions(s, extensions_start(hello), body_end(hello)),
{
    let list: Seq<u8> = encode_extensions(hello.extensions);
    let sid: int = hello.session_id.len() as int;
    let cs: int = hello.cipher_suites.len() as int;
    let cm: int = hello.compression_methods.len() as int;
    let at_session_id: int = 4 + VERSION_AND_RANDOM_LEN;
    let at_cipher_suites: int = at_session_id + 1 + sid;
    let at_compression: int = at_cipher_suites + 2 + cs;
    let at_extensions: int = at_compression + 1 + cm;
    let upto_random: Seq<u8> = hello.version_and_random;
    let upto_session_len: Seq<u8> = upto_random + seq![sid as u8];
    let upto_session_id: Seq<u8> = upto_session_len + hello.session_id;
    let upto_suites_len: Seq<u8> = upto_session_id + be16(cs);
    let upto_suites: Seq<u8> = upto_suites_len + hello.cipher_suites;
    let upto_compression_len: Seq<u8> = upto_suites + seq![cm as u8];
    let upto_compression: Seq<u8> = upto_compression_len + hello.compression_methods;
    let upto_extensions_len: Seq<u8> = upto_compression + be16(list.len() as int);
    lemma_holds_fits(s, 4, encode_body(hello));
    lemma_holds_split(s, 4, upto_extensions_len, list);
    lemma_holds_split(s, 4, upto_compression, be16(list.len() as int));
    lemma_holds_split(s, 4, upto_compression_len, hello.compression_methods);
    lemma_holds_split(s, 4, upto_suites, seq![cm as u8]);
    lemma_holds_split(s, 4, upto_suites_len, hello.cipher_suites);
    lemma_holds_split(s, 4, upto_session_id, be16(cs));
    lemma_holds_split(s, 4, upto_session_len, hello.session_id);
    lemma_holds_split(s, 4, upto_random, seq![sid as u8]);
    lemma_holds_byte(s, at_session_id, sid as u8);
    lemma_holds_u16(s, at_cipher_suites, cs);
    lemma_holds_byte(s, at_compression, cm as u8);
    lemma_holds_u16(s, at_extensions, list.len() as int);
}

/// The list of names in the body of the extension is entered, and its
/// first host name is the answer.
proof fn lemma_list_found(s: Seq<u8>, pos: int, names: Seq<NameEntry>, at: int)
    requires
        holds(s, pos, encode_name_list(names)),
        names_fit(names),
        first_host_name(names, at),
    ensures
        server_name_list(s, pos, pos + encode_name_list(names).len()) == (Outcome {
            verdict: Verdict::HostName(names[at].name),
            consumed: pos + 2 + name_end(names, at),
        }),
        2 + name_end(names, at) <= encode_name_list(names).len(),
{
    let inner: Seq<u8> = encode_names(names);
    lemma_holds_fits(s, pos, encode_name_list(names));
    lemma_holds_split(s, pos, be16(inner.len() as int), inner);
    lemma_holds_u16(s, pos, inner.len() as int);
    lemma_name_end_in_names(names, at);
    lemma_names_found(s, pos + 2, pos + 2 + inner.len(), names, at);
}

/// The same of any stream that holds the message at its start.
proof fn lemma_found_in_stream(
    s: Seq<u8>,
    hello: Hello,
    sni: int,
    names: Seq<NameEntry>,
    at: int,
)
    requires
        holds(s, 0, encode_hello(hello)),
        hello_fits(hello),
        first_sni(hello.extensions, sni),
        hello.extensions[sni].body == encode_name_list(names),
        names_fit(names),
        first_host_name(names, at),
    ensures
        client_hello(s) == (Outcome {
            verdict: Verdict::HostName(names[at].name),
            consumed: host_name_end(hello, sni, names, at),
        }),
        host_name_end(hello, sni, names, at) <= body_end(hello),
{
    let start: int = extensions_start(hello);
    let inner: int = start + body_start(hello.extensions, sni);
    let body: Seq<u8> = hello.extensions[sni].body;
    assert(holds(s, 4, encode_body(hello)) && client_hello(s) == hello_body(
        s,
        4,
        body_end(hello),
    )) by {
        lemma_header_found(s, hello);
    }
    lemma_body_found(s, hello);
    assert(inner + body.len() <= body_end(hello)) by {
        lemma_body_in_extensions(hello.extensions, sni);
    }
    assert(holds(s, inner, body) && extensions(s, start, body_end(hello)) == server_name_list(
        s,
        inner,
        inner + body.len(),
    )) by {
        lemma_holds_fits(s, start, encode_extensions(hello.extensions));
        lemma_extensions_found(s, start, body_end(hello), hello.extensions, sni);
    }
    lemma_list_found(s, inner, names, at);
}

/// In a well-formed ClientHello, the extraction finds the first host name
/// of the first Server Name Indication extension: that name and no other,
/// whatever extensions and entries of other types come before it, and
/// whatever comes after it, in the message or behind it in the stream.
pub proof fn lemma_host_name_found(
    hello: Hello,
    sni: int,
    names: Seq<NameEntry>,
    at: int,
    trailing: Seq<u8>,
)
    requires
        hello_fits(hello),
        first_sni(hello.extensions, sni),
        hello.extensions[sni].body == encode_name_list(names),
        names_fit(names),
        first_host_name(names, at),
    ensures
        client_hello(encode_hello(hello) + trailing) == (Outcome {
            verdict: Verdict::HostName(names[at].name),
            consumed: host_name_end(hello, sni, names, at),
        }),
        host_name_end(hello, sni, names, at) <= encode_hello(hello).len(),
{
    lemma_holds_prefix(encode_hello(hello), trailing);
    lemma_found_in_stream(encode_hello(hello) + trailing, hello, sni, names, at);
}

/// A well-formed ClientHello that is cut off anywhere before the end of that
/// host name is reported as truncated.
pub proof fn lemma_cut_hello_is_truncated(
    hello: Hello,
    sni: int,
    names: Seq<NameEntry>,
    at: int,
    cut: int,
)
    requires
        hello_fits(hello),
        first_sni(hello.extensions, sni),
        hello.extensions[sni].body == encode_name_list(names),
        names_fit(names),
        first_host_name(names, at),
        0 <= cut < host_name_end(hello, sni, names, at),
    ensures
        client_hello(encode_hello(hello).take(cut)).verdict is Truncated,
        client_hello(encode_hello(hello).take(cut)).consumed == cut,
{
    lemma_host_name_found(hello, sni, names, at, Seq::empty());
    assert(encode_hello(hello) + Seq::<u8>::empty() =~= encode_hello(hello));
    lemma_cut_short(encode_hello(hello), cut);
}

} // verus!
