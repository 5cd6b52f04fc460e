//! Framing a minimal ClientHello, and the law that ties it to the parser.
use crate::tls::{be16, be24, spec_extensions, spec_handshake, spec_hello_body, spec_name_entries, spec_parse_client_hello, spec_server_name, valid_hostname, ClientHello, HelloView};
use vstd::prelude::*;

verus! {

/// Longest host name whose ClientHello still fits the record length field.
pub const MAX_ENCODED_NAME: usize = 65475;

/// Bytes of the framing that precede the extensions.
pub const PRELUDE_LEN: usize = 52;

/// The two bytes of `n`, high byte first.
pub open spec fn u16_bytes(n: int) -> Seq<u8> {
    seq![(n / 256) as u8, (n % 256) as u8]
}

/// A `server_name` extension with the single host name `name`.
pub open spec fn spec_server_name_extension(name: Seq<u8>) -> Seq<u8> {
    seq![0u8, 0u8] + u16_bytes(name.len() + 5 as int) + u16_bytes(name.len() + 3 as int) + seq![0u8] + u16_bytes(
        name.len() as int,
    ) + name
}

/// An empty `early_data` extension.
pub open spec fn spec_early_data_extension() -> Seq<u8> {
    seq![0u8, 42u8, 0u8, 0u8]
}

/// The extension block of `hello`: the server name first, if any, then the
/// early data marker, if set.
pub open spec fn spec_encode_extensions(hello: HelloView) -> Seq<u8> {
    (match hello.server_name {
        Some(name) => spec_server_name_extension(name),
        None => Seq::<u8>::empty(),
    }) + (if hello.early_data {
        spec_early_data_extension()
    } else {
        Seq::<u8>::empty()
    })
}

/// Everything before the extensions, for an extension block of `ext_len`
/// bytes: a TLS 1.0 record header, the handshake header, version 3.3, a zero
/// random, no session id, one cipher suite, the null compression method and
/// the length of the block.
pub open spec fn spec_prelude(ext_len: int) -> Seq<u8> {
    seq![22u8, 3u8, 1u8] + u16_bytes(ext_len + 47) + seq![1u8, 0u8] + u16_bytes(ext_len + 43)
        + seq![3u8, 3u8] + Seq::new(32, |i: int| 0u8) + seq![0u8, 0u8, 2u8, 0x13u8, 0x01u8, 1u8, 0u8]
        + u16_bytes(ext_len)
}

/// The bytes of a ClientHello that says exactly `hello`.
pub open spec fn spec_serialize_client_hello(hello: HelloView) -> Seq<u8> {
    spec_prelude(spec_encode_extensions(hello).len() as int) + spec_encode_extensions(hello)
}

/// Whether `hello` can be framed: its name, if any, is short enough.
pub open spec fn encodable(hello: HelloView) -> bool {
    hello.server_name is Some ==> hello.server_name.unwrap().len() <= MAX_ENCODED_NAME
}

fn push_u16(out: &mut Vec<u8>, n: usize)
    requires
        n <= 0xffff,
    ensures
        final(out)@ == old(out)@ + u16_bytes(n as int),
{
    out.push((n / 256) as u8);
    out.push((n % 256) as u8);
    assert(out@ =~= old(out)@ + u16_bytes(n as int));
}

fn push_all(out: &mut Vec<u8>, bytes: &[u8])
    ensures
        final(out)@ == old(out)@ + bytes@,
{
    let mut i: usize = 0;
    while i < bytes.len()
        invariant
            i <= bytes@.len(),
            out@ == old(out)@ + bytes@.subrange(0, i as int),
        decreases bytes@.len() - i,
    {
        out.push(bytes[i]);
        i += 1;
        assert(out@ =~= old(out)@ + bytes@.subrange(0, i as int));
    }
    assert(bytes@.subrange(0, i as int) =~= bytes@);
}

fn encode_extensions(hello: &ClientHello) -> (out: Vec<u8>)
    requires
        encodable(hello@),
    ensures
        out@ == spec_encode_extensions(hello@),
        out@.len() <= MAX_ENCODED_NAME + 13,
{
    let mut out: Vec<u8> = Vec::new();
    match &hello.server_name {
        Some(name) => {
            let n: usize = name.len();
            out.push(0);
            out.push(0);
            push_u16(&mut out, n + 5);
            push_u16(&mut out, n + 3);
            out.push(0);
            push_u16(&mut out, n);
            push_all(&mut out, name.as_bytes());
            assert(out@ =~= spec_server_name_extension(name@));
        },
        None => {},
    }
    let ghost first = out@;
    if hello.early_data {
        out.push(0);
        out.push(42);
        out.push(0);
        out.push(0);
        assert(out@ =~= first + spec_early_data_extension());
    } else {
        assert(out@ =~= first + Seq::<u8>::empty());
    }
    out
}

/// Frames `hello` as the bytes of a ClientHello record.
///
/// `None` exactly when the name is longer than [`MAX_ENCODED_NAME`];
/// otherwise the bytes are [`spec_serialize_client_hello`] of `hello`.
pub fn serialize_client_hello(hello: &ClientHello) -> (res: Option<Vec<u8>>)
    ensures
        res is Some <==> encodable(hello@),
        res is Some ==> res.unwrap()@ == spec_serialize_client_hello(hello@),
{
    match &hello.server_name {
        Some(name) => {
            if name.len() > MAX_ENCODED_NAME {
                return None;
            }
        },
        None => {},
    }
    let exts = encode_extensions(hello);
    let e: usize = exts.len();
    let mut out: Vec<u8> = Vec::with_capacity(PRELUDE_LEN + e);
    out.push(22);
    out.push(3);
    out.push(1);
    push_u16(&mut out, e + 47);
    out.push(1);
    out.push(0);
    push_u16(&mut out, e + 43);
    out.push(3);
    out.push(3);
    let ghost head = out@;
    let mut i: usize = 0;
    while i < 32
        invariant
            i <= 32,
            out@ == head + Seq::new(i as nat, |j: int| 0u8),
        decreases 32 - i,
    {
        out.push(0);
        i += 1;
        assert(out@ =~= head + Seq::new(i as nat, |j: int| 0u8));
    }
    out.push(0);
    out.push(0);
    out.push(2);
    out.push(0x13);
    out.push(0x01);
    out.push(1);
    out.push(0);
    push_u16(&mut out, e);
    assert(out@ =~= spec_prelude(e as int));
    push_all(&mut out, exts.as_slice());
    Some(out)
}

/// Where the fields of a framed ClientHello with a server name lie in `s`,
/// and what they hold.
pub open spec fn framed_with_name(s: Seq<u8>, name: Seq<u8>, early_data: bool) -> bool {
    let n = name.len() as int;
    let e = n + 9 + if early_data { 4int } else { 0int };
    &&& s.len() == 52 + e
    &&& s[0] == 22
    &&& be16(s, 1) == 0x0301
    &&& be16(s, 3) == 47 + e
    &&& s[5] == 1
    &&& be24(s, 6) == 43 + e
    &&& s[43] == 0
    &&& be16(s, 44) == 2
    &&& s[48] == 1
    &&& be16(s, 50) == e
    &&& be16(s, 52) == 0
    &&& be16(s, 54) == n + 5
    &&& be16(s, 56) == n + 3
    &&& s[58] == 0
    &&& be16(s, 59) == n
    &&& s.subrange(61, 61 + n) == name
    &&& early_data ==> be16(s, 61 + n) == 42 && be16(s, 63 + n) == 0
}

proof fn lemma_prelude_layout(ext: Seq<u8>)
    requires
        ext.len() <= MAX_ENCODED_NAME + 13,
    ensures
        ({
            let s = spec_prelude(ext.len() as int) + ext;
            &&& s.len() == 52 + ext.len()
            &&& s[0] == 22
            &&& be16(s, 1) == 0x0301
            &&& be16(s, 3) == 47 + ext.len()
            &&& s[5] == 1
            &&& be24(s, 6) == 43 + ext.len()
            &&& s[43] == 0
            &&& be16(s, 44) == 2
            &&& s[48] == 1
            &&& be16(s, 50) == ext.len()
            &&& forall|j: int| 52 <= j < 52 + ext.len() ==> #[trigger] s[j] == ext[j - 52]
        }),
{
    let e = ext.len() as int;
    let p = spec_prelude(e);
    let s = p + ext;
    assert(p.len() == 52);
    assert(p[3] == ((e + 47) / 256) as u8);
    assert(p[4] == ((e + 47) % 256) as u8);
    assert(p[6] == 0);
    assert(p[7] == ((e + 43) / 256) as u8);
    assert(p[8] == ((e + 43) % 256) as u8);
    assert(p[50] == (e / 256) as u8);
    assert(p[51] == (e % 256) as u8);
    assert(p[0] == 22 && p[1] == 3 && p[2] == 1 && p[5] == 1);
    assert(p[43] == 0 && p[44] == 0 && p[45] == 2 && p[48] == 1);
}

proof fn lemma_extensions_layout(name: Seq<u8>, early_data: bool)
    requires
        name.len() <= MAX_ENCODED_NAME,
    ensures
        ({
            let x = spec_encode_extensions(HelloView { server_name: Some(name), early_data });
            let n = name.len() as int;
            &&& x.len() == n + 9 + if early_data { 4int } else { 0int }
            &&& be16(x, 0) == 0
            &&& be16(x, 2) == n + 5
            &&& be16(x, 4) == n + 3
            &&& x[6] == 0
            &&& be16(x, 7) == n
            &&& x.subrange(9, 9 + n) == name
            &&& early_data ==> be16(x, 9 + n) == 42 && be16(x, 11 + n) == 0
        }),
{
    let x = spec_encode_extensions(HelloView { server_name: Some(name), early_data });
    let n = name.len() as int;
    let sni = spec_server_name_extension(name);
    assert(sni.len() == n + 9);
    assert(sni[0] == 0 && sni[1] == 0);
    assert(sni[2] == ((n + 5) / 256) as u8 && sni[3] == ((n + 5) % 256) as u8);
    assert(sni[4] == ((n + 3) / 256) as u8 && sni[5] == ((n + 3) % 256) as u8);
    assert(sni[6] == 0);
    assert(sni[7] == (n / 256) as u8 && sni[8] == (n % 256) as u8);
    assert(x.subrange(9, 9 + n) =~= name);
    if early_data {
        let ed = spec_early_data_extension();
        assert(x[9 + n] == ed[0] && x[10 + n] == ed[1] && x[11 + n] == ed[2] && x[12 + n] == ed[3]);
    }
}

proof fn lemma_serialize_is_framed(name: Seq<u8>, early_data: bool)
    requires
        name.len() <= MAX_ENCODED_NAME,
    ensures
        framed_with_name(
            spec_serialize_client_hello(HelloView { server_name: Some(name), early_data }),
            name,
            early_data,
        ),
{
    let x = spec_encode_extensions(HelloView { server_name: Some(name), early_data });
    let s = spec_prelude(x.len() as int) + x;
    let n = name.len() as int;
    lemma_extensions_layout(name, early_data);
    lemma_prelude_layout(x);
    assert(s[52] == x[0] && s[53] == x[1] && s[54] == x[2] && s[55] == x[3]);
    assert(s[56] == x[4] && s[57] == x[5] && s[58] == x[6] && s[59] == x[7] && s[60] == x[8]);
    assert(s.subrange(61, 61 + n) =~= x.subrange(9, 9 + n));
    if early_data {
        assert(s[61 + n] == x[9 + n] && s[62 + n] == x[10 + n]);
        assert(s[63 + n] == x[11 + n] && s[64 + n] == x[12 + n]);
    }
}

proof fn lemma_framed_parses(s: Seq<u8>, name: Seq<u8>, early_data: bool)
    requires
        valid_hostname(name),
        framed_with_name(s, name, early_data),
    ensures
        spec_parse_client_hello(s) == Some(HelloView { server_name: Some(name), early_data }),
{
    let hello = HelloView { server_name: Some(name), early_data };
    let n = name.len() as int;
    let end = s.len() as int;
    let init = HelloView { server_name: None, early_data: false };
    let mid = HelloView { server_name: Some(name), early_data: false };
    assert(spec_name_entries(s, 58, 61 + n) == Some(Some(name)));
    assert(spec_server_name(s, 56, 61 + n) == Some(Some(name)));
    assert(spec_extensions(s, 52, end, init) == spec_extensions(s, 61 + n, end, mid));
    if early_data {
        assert(spec_extensions(s, 65 + n, end, hello) == Some(hello));
        assert(spec_extensions(s, 61 + n, end, mid) == Some(hello));
    } else {
        assert(spec_extensions(s, 61 + n, end, mid) == Some(hello));
    }
    assert(spec_hello_body(s, 9, end) == Some(hello));
    assert(spec_handshake(s, 5, end) == Some(hello));
}

/// Parsing undoes framing: a framed hello with a valid host name and any
/// early data flag parses back to exactly that name and flag.
pub proof fn lemma_parse_serialize_roundtrip(name: Seq<u8>, early_data: bool)
    requires
        valid_hostname(name),
        name.len() <= MAX_ENCODED_NAME,
    ensures
        spec_parse_client_hello(
            spec_serialize_client_hello(HelloView { server_name: Some(name), early_data }),
        ) == Some(HelloView { server_name: Some(name), early_data }),
{
    lemma_serialize_is_framed(name, early_data);
    lemma_framed_parses(
        spec_serialize_client_hello(HelloView { server_name: Some(name), early_data }),
        name,
        early_data,
    );
}

/// Parsing undoes framing where no server name is given, too.
pub proof fn lemma_parse_serialize_roundtrip_unnamed(early_data: bool)
    ensures
        spec_parse_client_hello(
            spec_serialize_client_hello(HelloView { server_name: None, early_data }),
        ) == Some(HelloView { server_name: None, early_data }),
{
    let hello = HelloView { server_name: None, early_data };
    let x = spec_encode_extensions(hello);
    let s = spec_serialize_client_hello(hello);
    let init = HelloView { server_name: None, early_data: false };
    lemma_prelude_layout(x);
    if early_data {
        let ed = spec_early_data_extension();
        assert(x.len() == 4);
        assert(x[0] == ed[0] && x[1] == ed[1] && x[2] == ed[2] && x[3] == ed[3]);
        assert(s[52] == x[0] && s[53] == x[1] && s[54] == x[2] && s[55] == x[3]);
        assert(be16(s, 52) == 42 && be16(s, 54) == 0);
        assert(spec_extensions(s, 56, 56, hello) == Some(hello));
        assert(spec_extensions(s, 52, 56, init) == Some(hello));
    } else {
        assert(x.len() == 0);
        assert(spec_extensions(s, 52, 52, init) == Some(hello));
    }
    assert(spec_hello_body(s, 9, s.len() as int) == Some(hello));
    assert(spec_handshake(s, 5, s.len() as int) == Some(hello));
}

/// Every hello that can be framed parses back to itself.
pub proof fn lemma_parse_undoes_serialize(hello: HelloView)
    requires
        encodable(hello),
        hello.server_name is Some ==> valid_hostname(hello.server_name.unwrap()),
    ensures
        spec_parse_client_hello(spec_serialize_client_hello(hello)) == Some(hello),
{
    match hello.server_name {
        Some(name) => lemma_parse_serialize_roundtrip(name, hello.early_data),
        None => lemma_parse_serialize_roundtrip_unnamed(hello.early_data),
    }
}

} // verus!
