//! Rules for the list of upstreams given at startup.
//!
//! Texts are taken as bytes; reading files and arguments, and parsing
//! socket addresses, is left to the caller.
use vstd::prelude::*;

verus! {

/// The protocol an upstream proxy speaks.
#[derive(Clone, Copy, Debug, PartialEq, Eq, Structural)]
pub enum ProxyProto {
    Socks5,
    Http,
}

/// Why a list of upstreams is refused.
#[derive(Clone, Copy, Debug, PartialEq, Eq, Structural)]
pub enum ConfigError {
    /// A section has no `address`.
    AddressMissing,
    /// A section has no `protocol`.
    ProtocolMissing,
    /// A section's `protocol` is neither `socks5` nor `http`.
    UnknownProtocol,
    /// No upstream is configured at all.
    NoServers,
}

/// One upstream as configured.
#[derive(Clone, Debug, PartialEq, Eq)]
pub struct ServerConfig {
    pub tag: Option<Vec<u8>>,
    pub address: Vec<u8>,
    pub proto: ProxyProto,
    pub score_base: Option<i32>,
    pub test_ip: Vec<u8>,
}

/// The keys of one section of the list file, each as found or absent.
#[derive(Clone, Debug, PartialEq, Eq)]
pub struct Section {
    pub name: Option<Vec<u8>>,
    pub tag: Option<Vec<u8>>,
    pub address: Option<Vec<u8>>,
    pub protocol: Option<Vec<u8>>,
    pub score_base: Option<i32>,
    pub test_ip: Option<Vec<u8>>,
}

/// The text `socks5`.
pub open spec fn socks5_name() -> Seq<u8> {
    seq![0x73u8, 0x6fu8, 0x63u8, 0x6bu8, 0x73u8, 0x35u8]
}

/// The text `http`.
pub open spec fn http_name() -> Seq<u8> {
    seq![0x68u8, 0x74u8, 0x74u8, 0x70u8]
}

/// The text `127.0.0.1:`.
pub open spec fn loopback_prefix() -> Seq<u8> {
    seq![0x31u8, 0x32u8, 0x37u8, 0x2eu8, 0x30u8, 0x2eu8, 0x30u8, 0x2eu8, 0x31u8, 0x3au8]
}

/// The protocol that `name` spells, if any.
pub open spec fn spec_parse_proto(name: Seq<u8>) -> Option<ProxyProto> {
    if name == socks5_name() {
        Some(ProxyProto::Socks5)
    } else if name == http_name() {
        Some(ProxyProto::Http)
    } else {
        None
    }
}

/// The address text of an upstream given on the command line: as written
/// if it holds a colon, else read as a port on the local host.
pub open spec fn spec_server_address(text: Seq<u8>) -> Seq<u8> {
    if text.contains(0x3au8) {
        text
    } else {
        loopback_prefix() + text
    }
}

/// The tag of a section: its `tag` key, else its name.
pub open spec fn spec_pick_tag(tag: Option<Vec<u8>>, name: Option<Vec<u8>>) -> Option<Vec<u8>> {
    if tag is Some {
        tag
    } else {
        name
    }
}

/// What a section is refused for, if it is: a missing address before a
/// missing protocol before an unknown one.
pub open spec fn spec_section_error(section: Section) -> Option<ConfigError> {
    if section.address is None {
        Some(ConfigError::AddressMissing)
    } else if section.protocol is None {
        Some(ConfigError::ProtocolMissing)
    } else if spec_parse_proto(section.protocol.unwrap()@) is None {
        Some(ConfigError::UnknownProtocol)
    } else {
        None
    }
}

fn bytes_equal(a: &[u8], b: &[u8]) -> (eq: bool)
    ensures
        eq == (a@ == b@),
{
    if a.len() != b.len() {
        return false;
    }
    let mut i: usize = 0;
    while i < a.len()
        invariant
            i <= a@.len(),
            a@.len() == b@.len(),
            forall|j: int| 0 <= j < i ==> a@[j] == b@[j],
        decreases a@.len() - i,
    {
        if a[i] != b[i] {
            return false;
        }
        i += 1;
    }
    assert(a@ =~= b@);
    true
}

/// Reads a protocol name: `socks5` or `http`, in lower case.
pub fn parse_proto(name: &[u8]) -> (res: Option<ProxyProto>)
    ensures
        res == spec_parse_proto(name@),
{
    let socks5: [u8; 6] = [0x73, 0x6f, 0x63, 0x6b, 0x73, 0x35];
    let http: [u8; 4] = [0x68, 0x74, 0x74, 0x70];
    assert(socks5@ =~= socks5_name());
    assert(http@ =~= http_name());
    if bytes_equal(name, socks5.as_slice()) {
        Some(ProxyProto::Socks5)
    } else if bytes_equal(name, http.as_slice()) {
        Some(ProxyProto::Http)
    } else {
        None
    }
}

/// Completes the address of an upstream given on the command line; see
/// [`spec_server_address`].
pub fn parse_server(text: &[u8]) -> (res: Vec<u8>)
    ensures
        res@ == spec_server_address(text@),
{
    let mut has_colon = false;
    let mut i: usize = 0;
    while i < text.len()
        invariant
            i <= text@.len(),
            has_colon == exists|j: int| 0 <= j < i && text@[j] == 0x3au8,
        decreases text@.len() - i,
    {
        if text[i] == 0x3a {
            has_colon = true;
        }
        i += 1;
    }
    assert(has_colon == text@.contains(0x3au8));
    let mut out: Vec<u8> = Vec::new();
    if !has_colon {
        let prefix: [u8; 10] = [0x31, 0x32, 0x37, 0x2e, 0x30, 0x2e, 0x30, 0x2e, 0x31, 0x3a];
        assert(prefix@ =~= loopback_prefix());
        out.extend_from_slice(prefix.as_slice());
    }
    out.extend_from_slice(text);
    assert(out@ =~= spec_server_address(text@));
    out
}

/// Makes an upstream from one section of the list file. The section's
/// `tag` key overrides its name as the tag, and `default_test_ip` stands in
/// for a missing `test ip`.
pub fn server_from_section(section: Section, default_test_ip: Vec<u8>) -> (res: Result<
    ServerConfig,
    ConfigError,
>)
    ensures
        match res {
            Ok(server) => spec_section_error(section) is None && server.tag == spec_pick_tag(
                section.tag,
                section.name,
            ) && server.address == section.address.unwrap() && Some(server.proto)
                == spec_parse_proto(section.protocol.unwrap()@) && server.score_base
                == section.score_base && server.test_ip == if section.test_ip is Some {
                section.test_ip.unwrap()
            } else {
                default_test_ip
            },
            Err(e) => spec_section_error(section) == Some(e),
        },
{
    let Section { name, tag, address, protocol, score_base, test_ip } = section;
    let address = match address {
        Some(a) => a,
        None => {
            return Err(ConfigError::AddressMissing);
        },
    };
    let protocol = match protocol {
        Some(p) => p,
        None => {
            return Err(ConfigError::ProtocolMissing);
        },
    };
    let proto = match parse_proto(protocol.as_slice()) {
        Some(p) => p,
        None => {
            return Err(ConfigError::UnknownProtocol);
        },
    };
    let tag = match tag {
        Some(t) => Some(t),
        None => name,
    };
    let test_ip = match test_ip {
        Some(ip) => ip,
        None => default_test_ip,
    };
    Ok(ServerConfig { tag, address, proto, score_base, test_ip })
}

/// Startup needs at least one upstream.
pub fn check_server_count(n_servers: usize) -> (res: Result<(), ConfigError>)
    ensures
        res == if n_servers == 0 {
            Err::<(), ConfigError>(ConfigError::NoServers)
        } else {
            Ok::<(), ConfigError>(())
        },
{
    if n_servers == 0 {
        Err(ConfigError::NoServers)
    } else {
        Ok(())
    }
}

} // verus!
