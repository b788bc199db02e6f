use gateway_requests::addressing::NymNodeRoutingAddressError;
use gateway_requests::error::GatewayRequestsError;

#[test]
fn errors_say_what_went_wrong() {
    assert_eq!(
        GatewayRequestsError::TooShortRequest.to_string(),
        "the request is too short"
    );
    assert_eq!(
        GatewayRequestsError::InvalidMAC.to_string(),
        "provided MAC is invalid"
    );
    assert_eq!(
        GatewayRequestsError::IncorrectlyEncodedAddress.to_string(),
        "address field was incorrectly encoded"
    );
    assert_eq!(
        GatewayRequestsError::MalformedSphinxPacket.to_string(),
        "received sphinx packet was malformed"
    );
    assert_eq!(
        GatewayRequestsError::MalformedEncryption.to_string(),
        "the received encrypted data was malformed"
    );
}

#[test]
fn invalid_size_names_the_size_and_the_three_expected() {
    assert_eq!(
        GatewayRequestsError::RequestOfInvalidSize(1234).to_string(),
        "received request had invalid size. (actual: 1234, but expected one of: 386 (ACK), 2413 (REGULAR), 33133 (EXTENDED))"
    );
    assert_eq!(
        GatewayRequestsError::RequestOfInvalidSize(0).to_string(),
        "received request had invalid size. (actual: 0, but expected one of: 386 (ACK), 2413 (REGULAR), 33133 (EXTENDED))"
    );
}

#[test]
fn sizes_are_written_as_std_writes_them() {
    for n in [0usize, 9, 10, 99, 100, 101, 1000, 65535, 4294967295, usize::MAX] {
        let text = GatewayRequestsError::RequestOfInvalidSize(n).to_string();
        assert_eq!(
            text,
            format!(
                "received request had invalid size. (actual: {}, but expected one of: {} (ACK), {} (REGULAR), {} (EXTENDED))",
                n, 386, 2413, 33133
            )
        );
    }
}

#[test]
fn every_address_error_becomes_incorrectly_encoded_address() {
    for e in [
        NymNodeRoutingAddressError::NoBytesProvided,
        NymNodeRoutingAddressError::TooShortBytesRepresentation,
        NymNodeRoutingAddressError::InvalidIpVersion { received: 9 },
    ] {
        assert_eq!(
            GatewayRequestsError::from(e),
            GatewayRequestsError::IncorrectlyEncodedAddress
        );
    }
}
