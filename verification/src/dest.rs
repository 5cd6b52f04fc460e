//! Where a client wanted to go before its connection was redirected here.
use crate::tls::Hostname;
use vstd::prelude::*;

verus! {

/// The host part of a destination.
#[derive(Clone, Debug, PartialEq, Eq)]
pub enum Address {
    /// The four octets of an IPv4 address, first octet first.
    V4([u8; 4]),
    /// The sixteen octets of an IPv6 address, first octet first.
    V6([u8; 16]),
    /// A host name that the upstream proxy resolves.
    Domain(Hostname),
}

/// A target address: a host and a TCP port.
#[derive(Clone, Debug, PartialEq, Eq)]
pub struct Destination {
    pub host: Address,
    pub port: u16,
}

/// An IPv4 socket address as the kernel stores it: all bytes in network
/// order.
#[derive(Clone, Copy, Debug, PartialEq, Eq)]
pub struct RawAddrV4 {
    pub addr: [u8; 4],
    pub port: [u8; 2],
}

/// An IPv6 socket address as the kernel stores it: all bytes in network
/// order.
#[derive(Clone, Copy, Debug, PartialEq, Eq)]
pub struct RawAddrV6 {
    pub addr: [u8; 16],
    pub port: [u8; 2],
}

/// Neither address family knows a redirection for the socket.
#[derive(Clone, Copy, Debug, PartialEq, Eq)]
pub struct NoRedirection;

/// Mathematical content of an [`Address`].
pub enum AddressView {
    V4(Seq<u8>),
    V6(Seq<u8>),
    Domain(Seq<u8>),
}

/// Mathematical content of a [`Destination`].
pub struct DestinationView {
    pub host: AddressView,
    pub port: int,
}

impl View for Address {
    type V = AddressView;

    open spec fn view(&self) -> AddressView {
        match *self {
            Address::V4(octets) => AddressView::V4(octets@),
            Address::V6(octets) => AddressView::V6(octets@),
            Address::Domain(name) => AddressView::Domain(name@),
        }
    }
}

impl View for Destination {
    type V = DestinationView;

    open spec fn view(&self) -> DestinationView {
        DestinationView { host: self.host@, port: self.port as int }
    }
}

/// The port that two bytes in network order spell.
pub open spec fn spec_port(bytes: Seq<u8>) -> int {
    bytes[0] as int * 256 + bytes[1] as int
}

/// The destination that a redirection lookup gave: the IPv4 answer if there
/// is one, else the IPv6 answer.
pub open spec fn spec_original_dest(v4: Option<RawAddrV4>, v6: Option<RawAddrV6>) -> Option<
    DestinationView,
> {
    match v4 {
        Some(raw) => Some(
            DestinationView { host: AddressView::V4(raw.addr@), port: spec_port(raw.port@) },
        ),
        None => match v6 {
            Some(raw) => Some(
                DestinationView { host: AddressView::V6(raw.addr@), port: spec_port(raw.port@) },
            ),
            None => None,
        },
    }
}

/// The destination `dest` with its host replaced by `name`, if there is one.
pub open spec fn spec_redirect(dest: DestinationView, name: Option<Seq<u8>>) -> DestinationView {
    match name {
        Some(n) => DestinationView { host: AddressView::Domain(n), port: dest.port },
        None => dest,
    }
}

/// Turns a port in network byte order into a number.
pub fn port_from_network_order(bytes: [u8; 2]) -> (port: u16)
    ensures
        port as int == spec_port(bytes@),
{
    let hi: u16 = bytes[0] as u16;
    let lo: u16 = bytes[1] as u16;
    hi * 256 + lo
}

/// Picks the original destination from what the two lookups returned,
/// IPv4 first. Fails exactly when both lookups failed.
pub fn original_dest(v4: Option<RawAddrV4>, v6: Option<RawAddrV6>) -> (res: Result<
    Destination,
    NoRedirection,
>)
    ensures
        match res {
            Ok(dest) => spec_original_dest(v4, v6) == Some(dest@),
            Err(_) => spec_original_dest(v4, v6) is None,
        },
{
    match v4 {
        Some(raw) => Ok(
            Destination { host: Address::V4(raw.addr), port: port_from_network_order(raw.port) },
        ),
        None => match v6 {
            Some(raw) => Ok(
                Destination {
                    host: Address::V6(raw.addr),
                    port: port_from_network_order(raw.port),
                },
            ),
            None => Err(NoRedirection),
        },
    }
}

impl Destination {
    /// A destination is well formed when a host name in it is a valid one.
    pub open spec fn wf(&self) -> bool {
        match self.host {
            Address::Domain(name) => name.wf(),
            _ => true,
        }
    }

    /// The same port on the host `name`.
    pub fn with_server_name(self, name: Hostname) -> (res: Destination)
        requires
            name.wf(),
        ensures
            res@ == spec_redirect(self@, Some(name@)),
            res.wf(),
    {
        Destination { host: Address::Domain(name), port: self.port }
    }

    /// Whether the host is a name rather than a literal address.
    pub fn is_domain(&self) -> (b: bool)
        ensures
            b == (self@.host is Domain),
    {
        match &self.host {
            Address::Domain(_) => true,
            _ => false,
        }
    }
}

} // verus!
