//! What is said to an upstream proxy to open a tunnel, and how its answer
//! is judged.
//!
//! SOCKS5 is spoken without authentication and with the CONNECT command
//! only; HTTP is a bare CONNECT request.
use crate::dest::{Address, AddressView, Destination, DestinationView};
use vstd::prelude::*;

verus! {

/// Longest host name a SOCKS5 request can carry.
pub const SOCKS5_MAX_NAME: usize = 255;

/// Bytes of a SOCKS5 answer read before its bound address: the method
/// selection and the head of the reply.
pub const SOCKS5_REPLY_HEAD: usize = 6;

/// What is left to read of a SOCKS5 reply after its head.
#[derive(Clone, Copy, Debug, PartialEq, Eq, Structural)]
pub enum ReplyTail {
    /// This many bytes: an address and a port.
    Fixed(usize),
    /// One byte that counts the bytes of a name, then the name and a port.
    Named,
}

/// The decimal digits of `n`, as ASCII.
pub open spec fn spec_decimal(n: nat) -> Seq<u8>
    decreases n,
{
    if n < 10 {
        seq![(48 + n) as u8]
    } else {
        spec_decimal(n / 10).push((48 + n % 10) as u8)
    }
}

/// The lower-case hexadecimal digit of `n`, as ASCII.
pub open spec fn spec_hex_digit(n: int) -> u8 {
    if n < 10 {
        (48 + n) as u8
    } else {
        (87 + n) as u8
    }
}

/// The four hexadecimal digits of two octets.
pub open spec fn spec_hex_group(hi: u8, lo: u8) -> Seq<u8> {
    seq![
        spec_hex_digit(hi as int / 16),
        spec_hex_digit(hi as int % 16),
        spec_hex_digit(lo as int / 16),
        spec_hex_digit(lo as int % 16),
    ]
}

/// The first `n` groups of an IPv6 address, written in full and joined by
/// colons.
pub open spec fn spec_v6_groups(octets: Seq<u8>, n: nat) -> Seq<u8>
    decreases n,
{
    if n == 0 {
        Seq::empty()
    } else if n == 1 {
        spec_hex_group(octets[0], octets[1])
    } else {
        spec_v6_groups(octets, (n - 1) as nat).push(0x3au8) + spec_hex_group(
            octets[2 * n - 2],
            octets[2 * n - 1],
        )
    }
}

/// A host as text: dotted decimal, bracketed hexadecimal without
/// abbreviation, or the name itself.
pub open spec fn spec_host_text(host: AddressView) -> Seq<u8> {
    match host {
        AddressView::V4(o) => spec_decimal(o[0] as nat).push(0x2eu8) + spec_decimal(
            o[1] as nat,
        ).push(0x2eu8) + spec_decimal(o[2] as nat).push(0x2eu8) + spec_decimal(o[3] as nat),
        AddressView::V6(o) => seq![0x5bu8] + spec_v6_groups(o, 8).push(0x5du8),
        AddressView::Domain(name) => name,
    }
}

/// Host, colon, port.
pub open spec fn spec_target(dest: DestinationView) -> Seq<u8> {
    spec_host_text(dest.host).push(0x3au8) + spec_decimal(dest.port as nat)
}

/// The text `CONNECT `.
pub open spec fn connect_word() -> Seq<u8> {
    seq![0x43u8, 0x4fu8, 0x4eu8, 0x4eu8, 0x45u8, 0x43u8, 0x54u8, 0x20u8]
}

/// The text ` HTTP/1.1`, a line end, and `Host: `.
pub open spec fn version_and_host() -> Seq<u8> {
    seq![
        0x20u8,
        0x48u8,
        0x54u8,
        0x54u8,
        0x50u8,
        0x2fu8,
        0x31u8,
        0x2eu8,
        0x31u8,
        0x0du8,
        0x0au8,
        0x48u8,
        0x6fu8,
        0x73u8,
        0x74u8,
        0x3au8,
        0x20u8,
    ]
}

/// Two line ends.
pub open spec fn blank_line() -> Seq<u8> {
    seq![0x0du8, 0x0au8, 0x0du8, 0x0au8]
}

/// An HTTP CONNECT request for `dest`: the request line, a `Host` header
/// and nothing more.
pub open spec fn spec_http_request(dest: DestinationView) -> Seq<u8> {
    connect_word() + spec_target(dest) + version_and_host() + spec_target(dest) + blank_line()
}

/// The address of a SOCKS5 request: its type, then octets, or a counted
/// name.
pub open spec fn spec_socks5_address(host: AddressView) -> Seq<u8> {
    match host {
        AddressView::V4(o) => seq![1u8] + o,
        AddressView::V6(o) => seq![4u8] + o,
        AddressView::Domain(name) => seq![3u8, name.len() as u8] + name,
    }
}

/// A SOCKS5 greeting that offers no authentication, followed at once by a
/// CONNECT request for `dest`.
pub open spec fn spec_socks5_request(dest: DestinationView) -> Seq<u8> {
    seq![5u8, 1u8, 0u8, 5u8, 1u8, 0u8] + spec_socks5_address(dest.host) + seq![
        (dest.port / 256) as u8,
        (dest.port % 256) as u8,
    ]
}

/// Whether SOCKS5 can carry the destination: a name must fit one length
/// byte.
pub open spec fn spec_socks5_fits(dest: DestinationView) -> bool {
    match dest.host {
        AddressView::Domain(name) => name.len() <= SOCKS5_MAX_NAME,
        _ => true,
    }
}

/// How a SOCKS5 answer that begins with `head` goes on, or `None` if the
/// upstream refused: the head must select no authentication and report
/// success, and its address type tells what follows.
pub open spec fn spec_socks5_reply(head: Seq<u8>) -> Option<ReplyTail> {
    if head.len() != SOCKS5_REPLY_HEAD || head[0] != 5 || head[1] != 0 || head[2] != 5 || head[3]
        != 0 {
        None
    } else if head[5] == 1 {
        Some(ReplyTail::Fixed(6))
    } else if head[5] == 4 {
        Some(ReplyTail::Fixed(18))
    } else if head[5] == 3 {
        Some(ReplyTail::Named)
    } else {
        None
    }
}

/// Whether an HTTP response that begins with `head` accepts the tunnel: it
/// is an HTTP/1 status line with a status of the form 2xx.
pub open spec fn spec_http_accepts(head: Seq<u8>) -> bool {
    &&& head.len() >= 12
    &&& head[0] == 0x48
    &&& head[1] == 0x54
    &&& head[2] == 0x54
    &&& head[3] == 0x50
    &&& head[4] == 0x2f
    &&& head[5] == 0x31
    &&& head[6] == 0x2e
    &&& head[8] == 0x20
    &&& head[9] == 0x32
}

fn push_decimal(out: &mut Vec<u8>, n: u16)
    ensures
        final(out)@ == old(out)@ + spec_decimal(n as nat),
    decreases n,
{
    if n >= 10 {
        push_decimal(out, n / 10);
    }
    let digit: u8 = (n % 10) as u8;
    out.push(48 + digit);
    assert(out@ =~= old(out)@ + spec_decimal(n as nat));
}

fn hex_digit(n: u8) -> (d: u8)
    requires
        n < 16,
    ensures
        d == spec_hex_digit(n as int),
{
    if n < 10 {
        48 + n
    } else {
        87 + n
    }
}

fn push_hex_group(out: &mut Vec<u8>, hi: u8, lo: u8)
    ensures
        final(out)@ == old(out)@ + spec_hex_group(hi, lo),
{
    out.push(hex_digit(hi / 16));
    out.push(hex_digit(hi % 16));
    out.push(hex_digit(lo / 16));
    out.push(hex_digit(lo % 16));
    assert(out@ =~= old(out)@ + spec_hex_group(hi, lo));
}

fn push_host_text(out: &mut Vec<u8>, host: &Address)
    ensures
        final(out)@ == old(out)@ + spec_host_text(host@),
{
    match host {
        Address::V4(o) => {
            push_decimal(out, o[0] as u16);
            out.push(0x2e);
            push_decimal(out, o[1] as u16);
            out.push(0x2e);
            push_decimal(out, o[2] as u16);
            out.push(0x2e);
            push_decimal(out, o[3] as u16);
            assert(out@ =~= old(out)@ + spec_host_text(host@));
        },
        Address::V6(o) => {
            out.push(0x5b);
            let ghost base = out@;
            let mut i: usize = 0;
            while i < 8
                invariant
                    i <= 8,
                    out@ == base + spec_v6_groups(o@, i as nat),
                decreases 8 - i,
            {
                if i > 0 {
                    out.push(0x3a);
                }
                push_hex_group(out, o[2 * i], o[2 * i + 1]);
                i += 1;
                assert(out@ =~= base + spec_v6_groups(o@, i as nat));
            }
            out.push(0x5d);
            assert(out@ =~= old(out)@ + spec_host_text(host@));
        },
        Address::Domain(name) => {
            out.extend_from_slice(name.as_bytes());
        },
    }
}

fn push_target(out: &mut Vec<u8>, dest: &Destination)
    ensures
        final(out)@ == old(out)@ + spec_target(dest@),
{
    push_host_text(out, &dest.host);
    out.push(0x3a);
    push_decimal(out, dest.port);
    assert(out@ =~= old(out)@ + spec_target(dest@));
}

/// The destination as `host:port`.
pub fn target_text(dest: &Destination) -> (out: Vec<u8>)
    ensures
        out@ == spec_target(dest@),
{
    let mut out: Vec<u8> = Vec::new();
    push_target(&mut out, dest);
    assert(out@ =~= spec_target(dest@));
    out
}

/// The bytes that ask an HTTP proxy for a tunnel to `dest`.
pub fn http_request(dest: &Destination) -> (out: Vec<u8>)
    ensures
        out@ == spec_http_request(dest@),
{
    let connect: [u8; 8] = [0x43, 0x4f, 0x4e, 0x4e, 0x45, 0x43, 0x54, 0x20];
    let middle: [u8; 17] = [
        0x20,
        0x48,
        0x54,
        0x54,
        0x50,
        0x2f,
        0x31,
        0x2e,
        0x31,
        0x0d,
        0x0a,
        0x48,
        0x6f,
        0x73,
        0x74,
        0x3a,
        0x20,
    ];
    let end: [u8; 4] = [0x0d, 0x0a, 0x0d, 0x0a];
    assert(connect@ =~= connect_word());
    assert(middle@ =~= version_and_host());
    assert(end@ =~= blank_line());
    let mut out: Vec<u8> = Vec::new();
    out.extend_from_slice(connect.as_slice());
    push_target(&mut out, dest);
    out.extend_from_slice(middle.as_slice());
    push_target(&mut out, dest);
    out.extend_from_slice(end.as_slice());
    assert(out@ =~= spec_http_request(dest@));
    out
}

/// The bytes that ask a SOCKS5 proxy for a tunnel to `dest`; `None`
/// exactly when `dest` names a host longer than [`SOCKS5_MAX_NAME`].
pub fn socks5_request(dest: &Destination) -> (res: Option<Vec<u8>>)
    ensures
        res is Some <==> spec_socks5_fits(dest@),
        res is Some ==> res.unwrap()@ == spec_socks5_request(dest@),
{
    let mut out: Vec<u8> = Vec::new();
    out.push(5);
    out.push(1);
    out.push(0);
    out.push(5);
    out.push(1);
    out.push(0);
    match &dest.host {
        Address::V4(o) => {
            out.push(1);
            out.extend_from_slice(o.as_slice());
        },
        Address::V6(o) => {
            out.push(4);
            out.extend_from_slice(o.as_slice());
        },
        Address::Domain(name) => {
            if name.len() > SOCKS5_MAX_NAME {
                return None;
            }
            out.push(3);
            out.push(name.len() as u8);
            out.extend_from_slice(name.as_bytes());
        },
    }
    out.push((dest.port / 256) as u8);
    out.push((dest.port % 256) as u8);
    assert(out@ =~= spec_socks5_request(dest@));
    Some(out)
}

/// Judges the first [`SOCKS5_REPLY_HEAD`] bytes of a SOCKS5 answer; see
/// [`spec_socks5_reply`].
pub fn socks5_reply(head: &[u8]) -> (res: Option<ReplyTail>)
    ensures
        res == spec_socks5_reply(head@),
{
    if head.len() != SOCKS5_REPLY_HEAD {
        return None;
    }
    if head[0] != 5 || head[1] != 0 || head[2] != 5 || head[3] != 0 {
        return None;
    }
    if head[5] == 1 {
        Some(ReplyTail::Fixed(6))
    } else if head[5] == 4 {
        Some(ReplyTail::Fixed(18))
    } else if head[5] == 3 {
        Some(ReplyTail::Named)
    } else {
        None
    }
}

/// Judges the head of an HTTP response; see [`spec_http_accepts`].
pub fn http_accepts(head: &[u8]) -> (ok: bool)
    ensures
        ok == spec_http_accepts(head@),
{
    head.len() >= 12 && head[0] == 0x48 && head[1] == 0x54 && head[2] == 0x54 && head[3] == 0x50
        && head[4] == 0x2f && head[5] == 0x31 && head[6] == 0x2e && head[8] == 0x20 && head[9]
        == 0x32
}

} // verus!
