use gateway_requests::packet::{
    InvalidPacketSize, MalformedSphinxPacket, PacketSize, SphinxPacket, ACK_PACKET_SIZE,
    EXTENDED_PACKET_SIZE, MIN_SPHINX_PACKET_SIZE, REGULAR_PACKET_SIZE,
};
use gateway_requests::primitives::{SPHINX_HEADER_SIZE, SPHINX_PAYLOAD_OVERHEAD_SIZE};

#[test]
fn header_and_overhead_are_those_of_the_sphinx_crate() {
    assert_eq!(SPHINX_HEADER_SIZE, sphinx_packet::header::HEADER_SIZE);
    assert_eq!(
        SPHINX_PAYLOAD_OVERHEAD_SIZE,
        sphinx_packet::payload::PAYLOAD_OVERHEAD_SIZE
    );
    assert_eq!(MIN_SPHINX_PACKET_SIZE, 365);
}

#[test]
fn size_classes_have_their_sizes() {
    assert_eq!(PacketSize::ACKPacket.size(), 386);
    assert_eq!(PacketSize::RegularPacket.size(), 2413);
    assert_eq!(PacketSize::ExtendedPacket.size(), 33133);
    assert_eq!(ACK_PACKET_SIZE, 348 + 17 + 16 + 5);
    assert_eq!(REGULAR_PACKET_SIZE, 348 + 17 + 2 * 1024);
    assert_eq!(EXTENDED_PACKET_SIZE, 348 + 17 + 32 * 1024);
}

#[test]
fn size_class_is_found_for_its_size_only() {
    assert_eq!(PacketSize::get_type(386), Ok(PacketSize::ACKPacket));
    assert_eq!(PacketSize::get_type(2413), Ok(PacketSize::RegularPacket));
    assert_eq!(PacketSize::get_type(33133), Ok(PacketSize::ExtendedPacket));
    for size in [0usize, 1, 385, 387, 2412, 2414, 33132, 33134, usize::MAX] {
        assert_eq!(PacketSize::get_type(size), Err(InvalidPacketSize));
    }
}

#[test]
fn packet_needs_a_header_and_a_least_payload() {
    assert_eq!(
        SphinxPacket::from_bytes(&[]).unwrap_err(),
        MalformedSphinxPacket
    );
    assert_eq!(
        SphinxPacket::from_bytes(&[0u8; 364]).unwrap_err(),
        MalformedSphinxPacket
    );
    assert!(SphinxPacket::from_bytes(&[0u8; 365]).is_ok());
}

#[test]
fn packet_parses_where_the_sphinx_crate_parses() {
    for len in [0usize, 1, 348, 364, 365, 366, 386, 2413, 33133] {
        let bytes: Vec<u8> = (0..len).map(|i| (i % 251) as u8).collect();
        assert_eq!(
            SphinxPacket::from_bytes(&bytes).is_ok(),
            sphinx_packet::SphinxPacket::from_bytes(&bytes).is_ok()
        );
    }
}

#[test]
fn packet_keeps_the_bytes_that_the_sphinx_crate_writes() {
    let bytes: Vec<u8> = (0..2413usize).map(|i| (i * 31 % 256) as u8).collect();
    let outside = sphinx_packet::SphinxPacket::from_bytes(&bytes).unwrap();
    let packet = SphinxPacket::from_bytes(&outside.to_bytes()).unwrap();
    assert_eq!(packet.to_bytes(), bytes);
    assert_eq!(packet.as_bytes(), &bytes[..]);
    assert_eq!(packet.len(), 2413);
    assert_eq!(packet.len(), outside.len());
}
