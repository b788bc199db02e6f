use gateway_requests::addressing::NymNodeRoutingAddress;
use gateway_requests::binary::{BinaryRequest, BinaryResponse, WsMessage};
use gateway_requests::error::GatewayRequestsError;
use gateway_requests::packet::SphinxPacket;
use gateway_requests::shared_keys::SharedKeys;

fn keys() -> SharedKeys {
    let bytes: Vec<u8> = (100u8..132).collect();
    SharedKeys::try_from_bytes(&bytes).ok().unwrap()
}

fn other_keys() -> SharedKeys {
    SharedKeys::try_from_bytes(&[7u8; 32]).ok().unwrap()
}

fn packet_bytes(len: usize) -> Vec<u8> {
    (0..len).map(|i| (i * 13 + 5) as u8).collect()
}

fn v4() -> NymNodeRoutingAddress {
    NymNodeRoutingAddress::new_v4([10, 20, 30, 40], 1789)
}

fn v6() -> NymNodeRoutingAddress {
    NymNodeRoutingAddress::new_v6(
        [0xfe, 0x80, 0, 0, 0, 0, 0, 0, 1, 2, 3, 4, 5, 6, 7, 8],
        9000,
    )
}

fn forward(address: NymNodeRoutingAddress, len: usize) -> BinaryRequest {
    BinaryRequest::new_forward_request(
        address,
        SphinxPacket::from_bytes(&packet_bytes(len)).unwrap(),
    )
}

fn assert_is_forward(request: BinaryRequest, address: NymNodeRoutingAddress, len: usize) {
    match request {
        BinaryRequest::ForwardSphinx {
            address: got,
            sphinx_packet,
        } => {
            assert_eq!(got, address);
            assert_eq!(sphinx_packet.to_bytes(), packet_bytes(len));
        }
    }
}

#[test]
fn forward_request_of_every_size_class_reads_back() {
    let keys = keys();
    for len in [386usize, 2413, 33133] {
        for address in [v4(), v6()] {
            let frame = forward(address, len).into_encrypted_tagged_bytes(&keys);
            assert_eq!(frame.len(), 32 + address.bytes_min_len() + len);
            let request = BinaryRequest::try_from_encrypted_tagged_bytes(frame, &keys).unwrap();
            assert_is_forward(request, address, len);
        }
    }
}

#[test]
fn forward_request_plaintext_is_address_then_packet() {
    let plaintext = forward(v4(), 386).into_plaintext();
    let mut expected = vec![4u8, 10, 20, 30, 40, 0x06, 0xfd];
    expected.extend_from_slice(&packet_bytes(386));
    assert_eq!(plaintext, expected);
}

#[test]
fn forward_request_frame_is_the_frame_of_its_plaintext() {
    let keys = keys();
    let plaintext = forward(v6(), 386).into_plaintext();
    let frame = forward(v6(), 386).into_encrypted_tagged_bytes(&keys);
    assert_eq!(frame, keys.encrypt_and_tag(&plaintext));
    assert_eq!(keys.decrypt_tagged(&frame).unwrap(), plaintext);
}

#[test]
fn packet_of_unknown_size_is_refused_with_its_size() {
    let keys = keys();
    for len in [365usize, 385, 387, 400, 2412, 2414, 33134] {
        let frame = forward(v4(), len).into_encrypted_tagged_bytes(&keys);
        match BinaryRequest::try_from_encrypted_tagged_bytes(frame, &keys) {
            Err(e) => assert_eq!(e, GatewayRequestsError::RequestOfInvalidSize(len)),
            Ok(_) => panic!("a packet of {} bytes was accepted", len),
        }
    }
}

#[test]
fn plaintext_with_too_short_a_packet_is_refused_with_its_size() {
    let keys = keys();
    for len in [0usize, 1, 364] {
        let mut plaintext = v4().as_bytes();
        plaintext.extend_from_slice(&packet_bytes(len));
        match BinaryRequest::try_from_plaintext(&plaintext) {
            Err(e) => assert_eq!(e, GatewayRequestsError::RequestOfInvalidSize(len)),
            Ok(_) => panic!("a packet of {} bytes was accepted", len),
        }
        let frame = keys.encrypt_and_tag(&plaintext);
        match BinaryRequest::try_from_encrypted_tagged_bytes(frame, &keys) {
            Err(e) => assert_eq!(e, GatewayRequestsError::RequestOfInvalidSize(len)),
            Ok(_) => panic!("a packet of {} bytes was accepted", len),
        }
    }
}

#[test]
fn plaintext_reads_as_forward_request() {
    let mut plaintext = v6().as_bytes();
    plaintext.extend_from_slice(&packet_bytes(2413));
    let request = BinaryRequest::try_from_plaintext(&plaintext).unwrap();
    assert_is_forward(request, v6(), 2413);
}

#[test]
fn plaintext_without_an_address_is_incorrectly_encoded() {
    let keys = keys();
    let mut unknown_version = vec![5u8];
    unknown_version.extend_from_slice(&packet_bytes(2413));
    for plaintext in [vec![], vec![4u8, 1, 2], vec![6u8; 18], unknown_version] {
        match BinaryRequest::try_from_plaintext(&plaintext) {
            Err(e) => assert_eq!(e, GatewayRequestsError::IncorrectlyEncodedAddress),
            Ok(_) => panic!("an address was read"),
        }
        let frame = keys.encrypt_and_tag(&plaintext);
        match BinaryRequest::try_from_encrypted_tagged_bytes(frame, &keys) {
            Err(e) => assert_eq!(e, GatewayRequestsError::IncorrectlyEncodedAddress),
            Ok(_) => panic!("an address was read"),
        }
    }
}

#[test]
fn short_request_is_too_short() {
    let keys = keys();
    for len in [0usize, 1, 16, 31] {
        match BinaryRequest::try_from_encrypted_tagged_bytes(vec![1u8; len], &keys) {
            Err(e) => assert_eq!(e, GatewayRequestsError::TooShortRequest),
            Ok(_) => panic!("a short request was accepted"),
        }
        match BinaryResponse::try_from_encrypted_tagged_bytes(vec![1u8; len], &keys) {
            Err(e) => assert_eq!(e, GatewayRequestsError::TooShortRequest),
            Ok(_) => panic!("a short response was accepted"),
        }
    }
}

#[test]
fn altered_request_has_an_invalid_mac() {
    let keys = keys();
    let frame = forward(v4(), 386).into_encrypted_tagged_bytes(&keys);
    for at in [0usize, 31, 32, 33, 38, 39, 200, frame.len() - 1] {
        let mut altered = frame.clone();
        altered[at] ^= 0x80;
        match BinaryRequest::try_from_encrypted_tagged_bytes(altered, &keys) {
            Err(e) => assert_eq!(e, GatewayRequestsError::InvalidMAC),
            Ok(_) => panic!("an altered request was accepted"),
        }
    }
}

#[test]
fn request_under_other_keys_has_an_invalid_mac() {
    let frame = forward(v4(), 386).into_encrypted_tagged_bytes(&keys());
    match BinaryRequest::try_from_encrypted_tagged_bytes(frame, &other_keys()) {
        Err(e) => assert_eq!(e, GatewayRequestsError::InvalidMAC),
        Ok(_) => panic!("a request under other keys was accepted"),
    }
}

#[test]
fn pushed_message_reads_back() {
    let keys = keys();
    for len in [0usize, 1, 33, 2048] {
        let message = packet_bytes(len);
        let frame =
            BinaryResponse::new_pushed_mix_message(message.clone()).into_encrypted_tagged_bytes(&keys);
        assert_eq!(frame.len(), 32 + len);
        assert_eq!(frame, keys.encrypt_and_tag(&message));
        match BinaryResponse::try_from_encrypted_tagged_bytes(frame, &keys).unwrap() {
            BinaryResponse::PushedMixMessage(got) => assert_eq!(got, message),
        }
    }
}

#[test]
fn altered_response_has_an_invalid_mac() {
    let keys = keys();
    let frame = BinaryResponse::new_pushed_mix_message(b"pushed".to_vec())
        .into_encrypted_tagged_bytes(&keys);
    for at in 0..frame.len() {
        let mut altered = frame.clone();
        altered[at] = altered[at].wrapping_add(1);
        match BinaryResponse::try_from_encrypted_tagged_bytes(altered, &keys) {
            Err(e) => assert_eq!(e, GatewayRequestsError::InvalidMAC),
            Ok(_) => panic!("an altered response was accepted"),
        }
    }
}

#[test]
fn websocket_message_is_binary_and_holds_the_frame() {
    let keys = keys();
    let frame = forward(v4(), 386).into_encrypted_tagged_bytes(&keys);
    match forward(v4(), 386).into_ws_message(&keys) {
        WsMessage::Binary(bytes) => assert_eq!(bytes, frame),
        WsMessage::Text(_) => panic!("a request went out as text"),
    }
    let frame = BinaryResponse::new_pushed_mix_message(vec![1, 2, 3])
        .into_encrypted_tagged_bytes(&keys);
    match BinaryResponse::new_pushed_mix_message(vec![1, 2, 3]).into_ws_message(&keys) {
        WsMessage::Binary(bytes) => assert_eq!(bytes, frame),
        WsMessage::Text(_) => panic!("a response went out as text"),
    }
}
