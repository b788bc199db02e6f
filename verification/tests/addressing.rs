use gateway_requests::addressing::{NymNodeRoutingAddress, NymNodeRoutingAddressError};

const V6_OCTETS: [u8; 16] = [
    0x20, 0x01, 0x0d, 0xb8, 0, 0, 0, 0, 0, 0, 0, 0, 0, 0, 0, 0x01,
];

#[test]
fn ipv4_address_is_version_octets_port() {
    let address = NymNodeRoutingAddress::new_v4([1, 2, 3, 4], 1789);
    assert_eq!(address.as_bytes(), vec![4, 1, 2, 3, 4, 0x06, 0xfd]);
    assert_eq!(address.bytes_min_len(), 7);
}

#[test]
fn ipv6_address_is_version_octets_port() {
    let address = NymNodeRoutingAddress::new_v6(V6_OCTETS, 0xabcd);
    let mut expected = vec![6u8];
    expected.extend_from_slice(&V6_OCTETS);
    expected.extend_from_slice(&[0xab, 0xcd]);
    assert_eq!(address.as_bytes(), expected);
    assert_eq!(address.bytes_min_len(), 19);
}

#[test]
fn port_extremes_are_written_high_byte_first() {
    assert_eq!(
        NymNodeRoutingAddress::new_v4([0, 0, 0, 0], 0).as_bytes(),
        vec![4, 0, 0, 0, 0, 0, 0]
    );
    assert_eq!(
        NymNodeRoutingAddress::new_v4([255, 255, 255, 255], 65535).as_bytes(),
        vec![4, 255, 255, 255, 255, 255, 255]
    );
    assert_eq!(
        NymNodeRoutingAddress::new_v4([10, 0, 0, 1], 256).as_bytes(),
        vec![4, 10, 0, 0, 1, 1, 0]
    );
}

#[test]
fn address_reads_back_from_its_bytes() {
    let v4 = NymNodeRoutingAddress::new_v4([192, 168, 1, 77], 8080);
    assert_eq!(NymNodeRoutingAddress::try_from_bytes(&v4.as_bytes()), Ok(v4));
    let v6 = NymNodeRoutingAddress::new_v6(V6_OCTETS, 443);
    assert_eq!(NymNodeRoutingAddress::try_from_bytes(&v6.as_bytes()), Ok(v6));
}

#[test]
fn address_reads_off_the_front_of_longer_bytes() {
    let v4 = NymNodeRoutingAddress::new_v4([192, 168, 1, 77], 8080);
    let mut bytes = v4.as_bytes();
    bytes.extend_from_slice(&[9, 9, 9, 9, 9]);
    assert_eq!(NymNodeRoutingAddress::try_from_bytes(&bytes), Ok(v4));
}

#[test]
fn no_bytes_are_no_address() {
    assert_eq!(
        NymNodeRoutingAddress::try_from_bytes(&[]),
        Err(NymNodeRoutingAddressError::NoBytesProvided)
    );
}

#[test]
fn unknown_version_is_refused_with_the_version() {
    assert_eq!(
        NymNodeRoutingAddress::try_from_bytes(&[5, 1, 2, 3, 4, 5, 6, 7]),
        Err(NymNodeRoutingAddressError::InvalidIpVersion { received: 5 })
    );
    assert_eq!(
        NymNodeRoutingAddress::try_from_bytes(&[0]),
        Err(NymNodeRoutingAddressError::InvalidIpVersion { received: 0 })
    );
}

#[test]
fn too_few_bytes_for_the_version_are_refused() {
    assert_eq!(
        NymNodeRoutingAddress::try_from_bytes(&[4, 1, 2, 3, 4, 5]),
        Err(NymNodeRoutingAddressError::TooShortBytesRepresentation)
    );
    assert_eq!(
        NymNodeRoutingAddress::try_from_bytes(&[4]),
        Err(NymNodeRoutingAddressError::TooShortBytesRepresentation)
    );
    assert_eq!(
        NymNodeRoutingAddress::try_from_bytes(&[6; 18]),
        Err(NymNodeRoutingAddressError::TooShortBytesRepresentation)
    );
    assert!(NymNodeRoutingAddress::try_from_bytes(&[6; 19]).is_ok());
    assert!(NymNodeRoutingAddress::try_from_bytes(&[4; 7]).is_ok());
}
