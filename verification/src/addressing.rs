//! Routing addresses of mix nodes and their fixed wire form: a version byte,
//! the octets of the IP address and the port, high byte first.

use vstd::prelude::*;

verus! {

/// The version byte of an IPv4 address.
pub const IPV4_VERSION: u8 = 4;

/// The version byte of an IPv6 address.
pub const IPV6_VERSION: u8 = 6;

/// Length in bytes of an encoded IPv4 routing address.
pub const IPV4_ADDRESS_LEN: usize = 7;

/// Length in bytes of an encoded IPv6 routing address.
pub const IPV6_ADDRESS_LEN: usize = 19;

/// Why bytes do not start with a routing address.
#[derive(Debug, Clone, Copy, PartialEq, Eq, Structural)]
pub enum NymNodeRoutingAddressError {
    /// There are no bytes at all.
    NoBytesProvided,
    /// The version byte names an address that the bytes are too few to hold.
    TooShortBytesRepresentation,
    /// The version byte is that of no known address family.
    InvalidIpVersion { received: u8 },
}

/// The socket address at which a mix node takes packets.
#[derive(Debug, Clone, Copy, PartialEq, Eq)]
#[allow(inconsistent_fields)]
pub enum NymNodeRoutingAddress {
    V4 { octets: [u8; 4], port: u16 },
    V6 { octets: [u8; 16], port: u16 },
}

/// A routing address as mathematics: the octets of its IP address, four or
/// sixteen of them, and its port.
pub struct RoutingAddressView {
    pub octets: Seq<u8>,
    pub port: u16,
}

impl View for NymNodeRoutingAddress {
    type V = RoutingAddressView;

    open spec fn view(&self) -> RoutingAddressView {
        match *self {
            NymNodeRoutingAddress::V4 { octets, port } => RoutingAddressView {
                octets: octets@,
                port,
            },
            NymNodeRoutingAddress::V6 { octets, port } => RoutingAddressView {
                octets: octets@,
                port,
            },
        }
    }
}

impl RoutingAddressView {
    /// Whether the octets are those of an IPv4 or of an IPv6 address.
    pub open spec fn valid(self) -> bool {
        self.octets.len() == 4 || self.octets.len() == 16
    }

    /// The version byte that the wire form starts with.
    pub open spec fn version(self) -> u8 {
        if self.octets.len() == 4 {
            IPV4_VERSION
        } else {
            IPV6_VERSION
        }
    }

    /// The wire form: version, octets, port.
    pub open spec fn bytes(self) -> Seq<u8> {
        seq![self.version()] + self.octets + seq![(self.port / 256) as u8, (self.port % 256) as u8]
    }
}

/// The port that two bytes stand for, high byte first.
pub open spec fn spec_port(high: u8, low: u8) -> u16 {
    (high * 256 + low) as u16
}

/// The address that `b` starts with, or the reason for which it starts with
/// none. Bytes after the address are left alone.
pub open spec fn spec_try_from_bytes(b: Seq<u8>) -> Result<
    RoutingAddressView,
    NymNodeRoutingAddressError,
> {
    if b.len() == 0 {
        Err(NymNodeRoutingAddressError::NoBytesProvided)
    } else if b[0] == IPV4_VERSION {
        if b.len() < IPV4_ADDRESS_LEN {
            Err(NymNodeRoutingAddressError::TooShortBytesRepresentation)
        } else {
            Ok(RoutingAddressView { octets: b.subrange(1, 5), port: spec_port(b[5], b[6]) })
        }
    } else if b[0] == IPV6_VERSION {
        if b.len() < IPV6_ADDRESS_LEN {
            Err(NymNodeRoutingAddressError::TooShortBytesRepresentation)
        } else {
            Ok(RoutingAddressView { octets: b.subrange(1, 17), port: spec_port(b[17], b[18]) })
        }
    } else {
        Err(NymNodeRoutingAddressError::InvalidIpVersion { received: b[0] })
    }
}

/// Whether an exec result of reading an address is the one that the model
/// gives.
pub open spec fn address_read_as(
    result: Result<NymNodeRoutingAddress, NymNodeRoutingAddressError>,
    model: Result<RoutingAddressView, NymNodeRoutingAddressError>,
) -> bool {
    match result {
        Ok(address) => model == Ok::<RoutingAddressView, NymNodeRoutingAddressError>(address@),
        Err(e) => model == Err::<RoutingAddressView, NymNodeRoutingAddressError>(e),
    }
}

impl NymNodeRoutingAddress {
    /// An IPv4 address from its octets and port.
    pub fn new_v4(octets: [u8; 4], port: u16) -> (address: NymNodeRoutingAddress)
        ensures
            address == (NymNodeRoutingAddress::V4 { octets, port }),
    {
        NymNodeRoutingAddress::V4 { octets, port }
    }

    /// An IPv6 address from its octets and port.
    pub fn new_v6(octets: [u8; 16], port: u16) -> (address: NymNodeRoutingAddress)
        ensures
            address == (NymNodeRoutingAddress::V6 { octets, port }),
    {
        NymNodeRoutingAddress::V6 { octets, port }
    }

    /// The number of bytes that the wire form of this address takes.
    pub fn bytes_min_len(&self) -> (len: usize)
        ensures
            len == self@.bytes().len(),
            len == IPV4_ADDRESS_LEN || len == IPV6_ADDRESS_LEN,
    {
        match self {
            NymNodeRoutingAddress::V4 { .. } => IPV4_ADDRESS_LEN,
            NymNodeRoutingAddress::V6 { .. } => IPV6_ADDRESS_LEN,
        }
    }

    /// The wire form of this address.
    pub fn as_bytes(&self) -> (bytes: Vec<u8>)
        ensures
            bytes@ == self@.bytes(),
    {
        let mut bytes: Vec<u8> = Vec::new();
        match self {
            NymNodeRoutingAddress::V4 { octets, port } => {
                bytes.push(IPV4_VERSION);
                bytes.extend_from_slice(octets.as_slice());
                bytes.push((*port / 256) as u8);
                bytes.push((*port % 256) as u8);
            },
            NymNodeRoutingAddress::V6 { octets, port } => {
                bytes.push(IPV6_VERSION);
                bytes.extend_from_slice(octets.as_slice());
                bytes.push((*port / 256) as u8);
                bytes.push((*port % 256) as u8);
            },
        }
        assert(bytes@ =~= self@.bytes());
        bytes
    }

    /// Reads the address that `b` starts with. Bytes after it are ignored, so
    /// that an address can be read off the front of a longer message.
    pub fn try_from_bytes(b: &[u8]) -> (result: Result<
        NymNodeRoutingAddress,
        NymNodeRoutingAddressError,
    >)
        ensures
            address_read_as(result, spec_try_from_bytes(b@)),
    {
        if b.len() == 0 {
            return Err(NymNodeRoutingAddressError::NoBytesProvided);
        }
        let version = b[0];
        if version == IPV4_VERSION {
            if b.len() < IPV4_ADDRESS_LEN {
                return Err(NymNodeRoutingAddressError::TooShortBytesRepresentation);
            }
            let octets: [u8; 4] = [b[1], b[2], b[3], b[4]];
            let port: u16 = (b[5] as u16) * 256 + (b[6] as u16);
            assert(octets@ =~= b@.subrange(1, 5));
            Ok(NymNodeRoutingAddress::V4 { octets, port })
        } else if version == IPV6_VERSION {
            if b.len() < IPV6_ADDRESS_LEN {
                return Err(NymNodeRoutingAddressError::TooShortBytesRepresentation);
            }
            let octets: [u8; 16] = [
                b[1], b[2], b[3], b[4], b[5], b[6], b[7], b[8],
                b[9], b[10], b[11], b[12], b[13], b[14], b[15], b[16],
            ];
            let port: u16 = (b[17] as u16) * 256 + (b[18] as u16);
            assert(octets@ =~= b@.subrange(1, 17));
            Ok(NymNodeRoutingAddress::V6 { octets, port })
        } else {
            Err(NymNodeRoutingAddressError::InvalidIpVersion { received: version })
        }
    }
}

/// Reading the wire form of an address gives the address back, whatever
/// follows it.
pub proof fn lemma_address_round_trip(address: RoutingAddressView, rest: Seq<u8>)
    requires
        address.valid(),
    ensures
        spec_try_from_bytes(address.bytes() + rest) == Ok::<
            RoutingAddressView,
            NymNodeRoutingAddressError,
        >(address),
        (address.bytes() + rest).subrange(address.bytes().len() as int, (address.bytes() + rest).len() as int) == rest,
{
    let b = address.bytes() + rest;
    let n = address.octets.len() as int;
    assert(b.subrange(1, 1 + n) =~= address.octets);
    assert(spec_port(b[1 + n], b[2 + n]) == address.port);
    assert(b.subrange(address.bytes().len() as int, b.len() as int) =~= rest);
}

/// An address that was read stands at the front of the bytes it was read
/// from.
pub proof fn lemma_address_is_prefix(b: Seq<u8>)
    requires
        spec_try_from_bytes(b) is Ok,
    ensures
        spec_try_from_bytes(b)->Ok_0.valid(),
        spec_try_from_bytes(b)->Ok_0.bytes().len() <= b.len(),
        spec_try_from_bytes(b)->Ok_0.bytes() == b.subrange(
            0,
            spec_try_from_bytes(b)->Ok_0.bytes().len() as int,
        ),
{
    let address = spec_try_from_bytes(b)->Ok_0;
    assert(address.bytes() =~= b.subrange(0, address.bytes().len() as int));
}

} // verus!
