//! Sphinx packets as this library sees them: byte strings of one of a few
//! fixed lengths.

use vstd::prelude::*;
use vstd::slice::slice_to_vec;
use crate::primitives::{sphinx_packet_parses, SPHINX_HEADER_SIZE, SPHINX_PAYLOAD_OVERHEAD_SIZE};

verus! {

/// Length in bytes of a packet that carries an ordinary message.
pub const REGULAR_PACKET_SIZE: usize = 2413;

/// Length in bytes of a packet that carries an acknowledgement.
pub const ACK_PACKET_SIZE: usize = 386;

/// Length in bytes of a packet that carries a large message.
pub const EXTENDED_PACKET_SIZE: usize = 33133;

/// The least number of bytes that parse as a sphinx packet: a header and a
/// payload that carries an empty message.
pub const MIN_SPHINX_PACKET_SIZE: usize = SPHINX_HEADER_SIZE + SPHINX_PAYLOAD_OVERHEAD_SIZE;

/// Raised for a length that no packet size class has.
#[derive(Debug, Clone, Copy, PartialEq, Eq, Structural)]
pub struct InvalidPacketSize;

/// Raised for bytes that do not parse as a sphinx packet.
#[derive(Debug, Clone, Copy, PartialEq, Eq, Structural)]
pub struct MalformedSphinxPacket;

/// The size classes of packets. Every packet on the wire has the length of
/// one of them, so that lengths tell an observer nothing.
#[derive(Debug, Clone, Copy, PartialEq, Eq, Structural)]
pub enum PacketSize {
    /// An ordinary message.
    RegularPacket,
    /// An acknowledgement.
    ACKPacket,
    /// A large message.
    ExtendedPacket,
}

impl PacketSize {
    /// The length in bytes of a packet of this class.
    pub open spec fn spec_size(self) -> usize {
        match self {
            PacketSize::RegularPacket => REGULAR_PACKET_SIZE,
            PacketSize::ACKPacket => ACK_PACKET_SIZE,
            PacketSize::ExtendedPacket => EXTENDED_PACKET_SIZE,
        }
    }

    /// The class whose packets are `size` bytes long, if there is one.
    pub open spec fn spec_get_type(size: int) -> Option<PacketSize> {
        if size == REGULAR_PACKET_SIZE {
            Some(PacketSize::RegularPacket)
        } else if size == ACK_PACKET_SIZE {
            Some(PacketSize::ACKPacket)
        } else if size == EXTENDED_PACKET_SIZE {
            Some(PacketSize::ExtendedPacket)
        } else {
            None
        }
    }

    /// The length in bytes of a packet of this class.
    pub fn size(self) -> (size: usize)
        ensures
            size == self.spec_size(),
    {
        match self {
            PacketSize::RegularPacket => REGULAR_PACKET_SIZE,
            PacketSize::ACKPacket => ACK_PACKET_SIZE,
            PacketSize::ExtendedPacket => EXTENDED_PACKET_SIZE,
        }
    }

    /// The class whose packets are `size` bytes long. A length of no class is
    /// refused.
    pub fn get_type(size: usize) -> (result: Result<PacketSize, InvalidPacketSize>)
        ensures
            result == match PacketSize::spec_get_type(size as int) {
                Some(class) => Ok::<PacketSize, InvalidPacketSize>(class),
                None => Err::<PacketSize, InvalidPacketSize>(InvalidPacketSize),
            },
    {
        if PacketSize::RegularPacket.size() == size {
            Ok(PacketSize::RegularPacket)
        } else if PacketSize::ACKPacket.size() == size {
            Ok(PacketSize::ACKPacket)
        } else if PacketSize::ExtendedPacket.size() == size {
            Ok(PacketSize::ExtendedPacket)
        } else {
            Err(InvalidPacketSize)
        }
    }
}

/// Whether bytes of this length parse as a sphinx packet.
pub open spec fn spec_sphinx_parses(len: nat) -> bool {
    len >= MIN_SPHINX_PACKET_SIZE
}

/// A sphinx packet in its serialized form. What is inside is sealed in
/// layers that only the nodes on its route can open; here it is carried, never
/// read or changed.
#[derive(Debug)]
pub struct SphinxPacket {
    bytes: Vec<u8>,
}

impl View for SphinxPacket {
    type V = Seq<u8>;

    closed spec fn view(&self) -> Seq<u8> {
        self.bytes@
    }
}

impl SphinxPacket {
    #[verifier::type_invariant]
    spec fn well_formed(self) -> bool {
        spec_sphinx_parses(self.bytes@.len())
    }

    /// Takes `bytes` as a packet if they parse as one.
    pub fn from_bytes(bytes: &[u8]) -> (result: Result<SphinxPacket, MalformedSphinxPacket>)
        ensures
            result is Ok <==> spec_sphinx_parses(bytes@.len()),
            result matches Ok(packet) ==> packet@ == bytes@,
    {
        if sphinx_packet_parses(bytes) {
            Ok(SphinxPacket { bytes: slice_to_vec(bytes) })
        } else {
            Err(MalformedSphinxPacket)
        }
    }

    /// The serialized packet.
    pub fn to_bytes(&self) -> (bytes: Vec<u8>)
        ensures
            bytes@ == self@,
    {
        self.bytes.clone()
    }

    /// The serialized packet, without a copy.
    pub fn as_bytes(&self) -> (bytes: &[u8])
        ensures
            bytes@ == self@,
    {
        self.bytes.as_slice()
    }

    /// The length in bytes of the serialized packet.
    pub fn len(&self) -> (len: usize)
        ensures
            len == self@.len(),
            spec_sphinx_parses(self@.len()),
    {
        proof {
            use_type_invariant(self);
        }
        self.bytes.len()
    }
}

} // verus!
