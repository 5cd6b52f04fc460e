//! Defensive decoding of the first TLS record a client sends.
//!
//! Only as much of a ClientHello is understood as is needed to learn the
//! requested server name and whether early data was announced. Every length
//! field is checked against the bytes that enclose it before it is followed.
use vstd::prelude::*;

verus! {

/// Content type of a TLS handshake record.
pub const RECORD_HANDSHAKE: u8 = 22;

/// Lowest record version accepted (TLS 1.0).
pub const MIN_RECORD_VERSION: u16 = 0x0301;

/// Handshake message type of a ClientHello.
pub const HANDSHAKE_CLIENT_HELLO: u8 = 1;

/// Extension number of `server_name`.
pub const EXT_SERVER_NAME: u16 = 0;

/// Extension number of `early_data`.
pub const EXT_EARLY_DATA: u16 = 42;

/// Entry type of a DNS host name inside the `server_name` extension.
pub const NAME_TYPE_HOST: u8 = 0;

/// A host name taken from a ClientHello: non-empty and ASCII only.
#[derive(Clone, Debug, PartialEq, Eq)]
pub struct Hostname {
    bytes: Vec<u8>,
}

/// Why a byte prefix is not a ClientHello. The parser gives no finer reason.
#[derive(Clone, Copy, Debug, PartialEq, Eq)]
pub struct ParseError;

/// What the proxy learns from a ClientHello.
#[derive(Clone, Debug, PartialEq, Eq)]
pub struct ClientHello {
    pub server_name: Option<Hostname>,
    pub early_data: bool,
}

/// Mathematical content of a [`ClientHello`].
pub struct HelloView {
    pub server_name: Option<Seq<u8>>,
    pub early_data: bool,
}

/// All bytes are below 0x80.
pub open spec fn is_ascii_bytes(s: Seq<u8>) -> bool {
    forall|i: int| 0 <= i < s.len() ==> #[trigger] s[i] < 0x80
}

/// A sequence of bytes that may stand as a host name.
pub open spec fn valid_hostname(s: Seq<u8>) -> bool {
    s.len() >= 1 && is_ascii_bytes(s)
}

impl View for Hostname {
    type V = Seq<u8>;

    closed spec fn view(&self) -> Seq<u8> {
        self.bytes@
    }
}

impl Hostname {
    /// The invariant of the type.
    pub open spec fn wf(&self) -> bool {
        valid_hostname(self@)
    }

    /// Checks `bytes` and wraps them; `None` exactly when they are empty or
    /// hold a byte outside ASCII.
    pub fn new(bytes: Vec<u8>) -> (res: Option<Hostname>)
        ensures
            res is Some <==> valid_hostname(bytes@),
            res is Some ==> res.unwrap()@ == bytes@ && res.unwrap().wf(),
    {
        if bytes.len() == 0 {
            return None;
        }
        let mut i: usize = 0;
        while i < bytes.len()
            invariant
                i <= bytes.len(),
                forall|j: int| 0 <= j < i ==> #[trigger] bytes@[j] < 0x80,
            decreases bytes.len() - i,
        {
            if bytes[i] >= 0x80 {
                return None;
            }
            i += 1;
        }
        Some(Hostname { bytes })
    }

    /// The name's bytes.
    pub fn as_bytes(&self) -> (res: &[u8])
        ensures
            res@ == self@,
    {
        self.bytes.as_slice()
    }

    /// Number of bytes in the name.
    pub fn len(&self) -> (n: usize)
        ensures
            n == self@.len(),
    {
        self.bytes.len()
    }
}

impl ClientHello {
    /// The invariant of the type: a name, if present, is a valid host name.
    pub open spec fn wf(&self) -> bool {
        self.server_name is Some ==> self.server_name.unwrap().wf()
    }
}

impl View for ClientHello {
    type V = HelloView;

    open spec fn view(&self) -> HelloView {
        HelloView {
            server_name: match self.server_name {
                Some(name) => Some(name@),
                None => None,
            },
            early_data: self.early_data,
        }
    }
}

/// Big-endian 16-bit number at `s[i..i + 2]`.
pub open spec fn be16(s: Seq<u8>, i: int) -> int {
    s[i] as int * 256 + s[i + 1] as int
}

/// Big-endian 24-bit number at `s[i..i + 3]`.
pub open spec fn be24(s: Seq<u8>, i: int) -> int {
    s[i] as int * 65536 + s[i + 1] as int * 256 + s[i + 2] as int
}

/// The entries of a server name list in `s[pos..end]`: the name of the first
/// entry of type host name, `Some(None)` if the list holds no such entry, and
/// `None` if an entry overruns the list or the name found is empty or not
/// ASCII.
pub open spec fn spec_name_entries(s: Seq<u8>, pos: int, end: int) -> Option<Option<Seq<u8>>>
    decreases end - pos,
{
    if pos >= end {
        Some(None)
    } else if pos + 3 > end || pos + 3 + be16(s, pos + 1) > end {
        None
    } else if s[pos] == NAME_TYPE_HOST {
        let name = s.subrange(pos + 3, pos + 3 + be16(s, pos + 1));
        if valid_hostname(name) {
            Some(Some(name))
        } else {
            None
        }
    } else {
        spec_name_entries(s, pos + 3 + be16(s, pos + 1), end)
    }
}

/// The body of a `server_name` extension in `s[pos..end]`: a two-byte list
/// length, then the list.
pub open spec fn spec_server_name(s: Seq<u8>, pos: int, end: int) -> Option<Option<Seq<u8>>> {
    if pos + 2 > end || pos + 2 + be16(s, pos) > end {
        None
    } else {
        spec_name_entries(s, pos + 2, pos + 2 + be16(s, pos))
    }
}

/// The extensions in `s[pos..end]`, read front to back with `acc` holding
/// what the extensions before `pos` gave. The first host name found stays;
/// any `early_data` extension sets the flag. `None` if an extension overruns
/// the block or a `server_name` extension is malformed.
pub open spec fn spec_extensions(s: Seq<u8>, pos: int, end: int, acc: HelloView) -> Option<HelloView>
    decreases end - pos,
{
    if pos >= end {
        Some(acc)
    } else if pos + 4 > end || pos + 4 + be16(s, pos + 2) > end {
        None
    } else {
        let kind = be16(s, pos);
        let next = pos + 4 + be16(s, pos + 2);
        if kind == EXT_SERVER_NAME {
            match spec_server_name(s, pos + 4, next) {
                None => None,
                Some(found) => spec_extensions(
                    s,
                    next,
                    end,
                    HelloView {
                        server_name: if acc.server_name is Some {
                            acc.server_name
                        } else {
                            found
                        },
                        early_data: acc.early_data,
                    },
                ),
            }
        } else if kind == EXT_EARLY_DATA {
            spec_extensions(
                s,
                next,
                end,
                HelloView { server_name: acc.server_name, early_data: true },
            )
        } else {
            spec_extensions(s, next, end, acc)
        }
    }
}

/// A ClientHello message body in `s[pos..end]`: version and random (34
/// bytes), session id, cipher suites, compression methods, then either the
/// end of the message or a block of extensions.
pub open spec fn spec_hello_body(s: Seq<u8>, pos: int, end: int) -> Option<HelloView> {
    let session_at = pos + 34;
    if session_at + 1 > end {
        None
    } else {
        let suites_at = session_at + 1 + s[session_at] as int;
        if suites_at + 2 > end {
            None
        } else {
            let compression_at = suites_at + 2 + be16(s, suites_at);
            if compression_at + 1 > end {
                None
            } else {
                let extensions_at = compression_at + 1 + s[compression_at] as int;
                if extensions_at > end {
                    None
                } else if extensions_at == end {
                    Some(HelloView { server_name: None, early_data: false })
                } else if extensions_at + 2 > end || extensions_at + 2 + be16(s, extensions_at) > end {
                    None
                } else {
                    spec_extensions(
                        s,
                        extensions_at + 2,
                        extensions_at + 2 + be16(s, extensions_at),
                        HelloView { server_name: None, early_data: false },
                    )
                }
            }
        }
    }
}

/// A handshake message in `s[pos..end]`: type ClientHello, a three-byte
/// length that stays inside the record, then the body.
pub open spec fn spec_handshake(s: Seq<u8>, pos: int, end: int) -> Option<HelloView> {
    if pos + 4 > end || s[pos] != HANDSHAKE_CLIENT_HELLO || pos + 4 + be24(s, pos + 1) > end {
        None
    } else {
        spec_hello_body(s, pos + 4, pos + 4 + be24(s, pos + 1))
    }
}

/// What a byte prefix says as a ClientHello, or `None` if it is none: a
/// handshake record of version 3.1 or later that lies wholly inside the
/// prefix and carries a ClientHello.
pub open spec fn spec_parse_client_hello(s: Seq<u8>) -> Option<HelloView> {
    if s.len() < 5 || s[0] != RECORD_HANDSHAKE || be16(s, 1) < MIN_RECORD_VERSION || 5 + be16(s, 3)
        > s.len() {
        None
    } else {
        spec_handshake(s, 5, 5 + be16(s, 3))
    }
}

fn read_u16(data: &[u8], pos: usize) -> (v: usize)
    requires
        pos + 2 <= data@.len(),
    ensures
        v == be16(data@, pos as int),
        v <= 0xffff,
{
    let hi: usize = data[pos] as usize;
    let lo: usize = data[pos + 1] as usize;
    hi * 256 + lo
}

fn read_u24(data: &[u8], pos: usize) -> (v: usize)
    requires
        pos + 3 <= data@.len(),
    ensures
        v == be24(data@, pos as int),
        v <= 0xffffff,
{
    let hi: usize = data[pos] as usize;
    let mid: usize = data[pos + 1] as usize;
    let lo: usize = data[pos + 2] as usize;
    hi * 65536 + mid * 256 + lo
}

/// Copies `data[start..end]` into a host name if it is one.
fn read_hostname(data: &[u8], start: usize, end: usize) -> (res: Option<Hostname>)
    requires
        start <= end <= data@.len(),
    ensures
        res is Some <==> valid_hostname(data@.subrange(start as int, end as int)),
        res is Some ==> res.unwrap()@ == data@.subrange(start as int, end as int)
            && res.unwrap().wf(),
{
    let mut bytes: Vec<u8> = Vec::with_capacity(end - start);
    let mut i: usize = start;
    while i < end
        invariant
            start <= i <= end <= data@.len(),
            bytes@ == data@.subrange(start as int, i as int),
        decreases end - i,
    {
        bytes.push(data[i]);
        i += 1;
        assert(bytes@ =~= data@.subrange(start as int, i as int));
    }
    Hostname::new(bytes)
}

fn parse_name_entries(data: &[u8], start: usize, end: usize) -> (res: Result<
    Option<Hostname>,
    ParseError,
>)
    requires
        start <= end <= data@.len(),
    ensures
        match res {
            Ok(Some(name)) => spec_name_entries(data@, start as int, end as int) == Some(
                Some(name@),
            ) && name.wf(),
            Ok(None) => spec_name_entries(data@, start as int, end as int) == Some(
                None::<Seq<u8>>,
            ),
            Err(_) => spec_name_entries(data@, start as int, end as int) is None,
        },
{
    let mut pos: usize = start;
    while pos < end
        invariant
            start <= pos <= end <= data@.len(),
            spec_name_entries(data@, pos as int, end as int) == spec_name_entries(
                data@,
                start as int,
                end as int,
            ),
        decreases end - pos,
    {
        if end - pos < 3 {
            return Err(ParseError);
        }
        let len: usize = read_u16(data, pos + 1);
        if end - pos - 3 < len {
            return Err(ParseError);
        }
        if data[pos] == NAME_TYPE_HOST {
            return match read_hostname(data, pos + 3, pos + 3 + len) {
                Some(name) => Ok(Some(name)),
                None => Err(ParseError),
            };
        }
        pos = pos + 3 + len;
    }
    Ok(None)
}

fn parse_server_name(data: &[u8], start: usize, end: usize) -> (res: Result<
    Option<Hostname>,
    ParseError,
>)
    requires
        start <= end <= data@.len(),
    ensures
        match res {
            Ok(Some(name)) => spec_server_name(data@, start as int, end as int) == Some(
                Some(name@),
            ) && name.wf(),
            Ok(None) => spec_server_name(data@, start as int, end as int) == Some(
                None::<Seq<u8>>,
            ),
            Err(_) => spec_server_name(data@, start as int, end as int) is None,
        },
{
    if end - start < 2 {
        return Err(ParseError);
    }
    let len: usize = read_u16(data, start);
    if end - start - 2 < len {
        return Err(ParseError);
    }
    parse_name_entries(data, start + 2, start + 2 + len)
}

fn parse_extensions(data: &[u8], start: usize, end: usize) -> (res: Result<
    ClientHello,
    ParseError,
>)
    requires
        start <= end <= data@.len(),
    ensures
        match res {
            Ok(hello) => spec_extensions(
                data@,
                start as int,
                end as int,
                HelloView { server_name: None, early_data: false },
            ) == Some(hello@) && hello.wf(),
            Err(_) => spec_extensions(
                data@,
                start as int,
                end as int,
                HelloView { server_name: None, early_data: false },
            ) is None,
        },
{
    let mut hello = ClientHello { server_name: None, early_data: false };
    let mut pos: usize = start;
    while pos < end
        invariant
            start <= pos <= end <= data@.len(),
            hello.wf(),
            spec_extensions(data@, pos as int, end as int, hello@) == spec_extensions(
                data@,
                start as int,
                end as int,
                HelloView { server_name: None, early_data: false },
            ),
        decreases end - pos,
    {
        if end - pos < 4 {
            return Err(ParseError);
        }
        let kind: usize = read_u16(data, pos);
        let len: usize = read_u16(data, pos + 2);
        if end - pos - 4 < len {
            return Err(ParseError);
        }
        let next: usize = pos + 4 + len;
        if kind == EXT_SERVER_NAME as usize {
            match parse_server_name(data, pos + 4, next) {
                Err(e) => {
                    return Err(e);
                },
                Ok(found) => {
                    if hello.server_name.is_none() {
                        hello.server_name = found;
                    }
                },
            }
        } else if kind == EXT_EARLY_DATA as usize {
            hello.early_data = true;
        }
        pos = next;
    }
    Ok(hello)
}

fn parse_hello_body(data: &[u8], start: usize, end: usize) -> (res: Result<
    ClientHello,
    ParseError,
>)
    requires
        start <= end <= data@.len(),
    ensures
        match res {
            Ok(hello) => spec_hello_body(data@, start as int, end as int) == Some(hello@)
                && hello.wf(),
            Err(_) => spec_hello_body(data@, start as int, end as int) is None,
        },
{
    if end - start < 35 {
        return Err(ParseError);
    }
    let session_at: usize = start + 34;
    let session_len: usize = data[session_at] as usize;
    if end - session_at - 1 < session_len || end - session_at - 1 - session_len < 2 {
        return Err(ParseError);
    }
    let suites_at: usize = session_at + 1 + session_len;
    let suites_len: usize = read_u16(data, suites_at);
    if end - suites_at - 2 < suites_len || end - suites_at - 2 - suites_len < 1 {
        return Err(ParseError);
    }
    let compression_at: usize = suites_at + 2 + suites_len;
    let compression_len: usize = data[compression_at] as usize;
    if end - compression_at - 1 < compression_len {
        return Err(ParseError);
    }
    let extensions_at: usize = compression_at + 1 + compression_len;
    if extensions_at == end {
        return Ok(ClientHello { server_name: None, early_data: false });
    }
    if end - extensions_at < 2 {
        return Err(ParseError);
    }
    let ext_len: usize = read_u16(data, extensions_at);
    if end - extensions_at - 2 < ext_len {
        return Err(ParseError);
    }
    parse_extensions(data, extensions_at + 2, extensions_at + 2 + ext_len)
}

/// Reads a client's first bytes as a TLS ClientHello.
///
/// Succeeds exactly when [`spec_parse_client_hello`] gives a value, and then
/// returns that value. Never reads outside `data` nor past a declared length.
pub fn parse_client_hello(data: &[u8]) -> (res: Result<ClientHello, ParseError>)
    ensures
        match res {
            Ok(hello) => spec_parse_client_hello(data@) == Some(hello@) && hello.wf(),
            Err(_) => spec_parse_client_hello(data@) is None,
        },
{
    if data.len() < 5 {
        return Err(ParseError);
    }
    if data[0] != RECORD_HANDSHAKE {
        return Err(ParseError);
    }
    let version: usize = read_u16(data, 1);
    if version < MIN_RECORD_VERSION as usize {
        return Err(ParseError);
    }
    let record_len: usize = read_u16(data, 3);
    if data.len() - 5 < record_len {
        return Err(ParseError);
    }
    let end: usize = 5 + record_len;
    if record_len < 4 {
        return Err(ParseError);
    }
    if data[5] != HANDSHAKE_CLIENT_HELLO {
        return Err(ParseError);
    }
    let message_len: usize = read_u24(data, 6);
    if end - 9 < message_len {
        return Err(ParseError);
    }
    parse_hello_body(data, 9, 9 + message_len)
}

} // verus!
