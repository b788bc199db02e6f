use gateway_requests::control::{
    AuthenticationIV, ClientControlRequest, DestinationAddressBytes, EncryptedAddressBytes,
    RegistrationHandshake, ServerResponse,
};

#[test]
fn handshake_payload_holds_its_data() {
    assert_eq!(
        RegistrationHandshake::new_payload(vec![1, 2, 3, 4, 5, 6]),
        RegistrationHandshake::HandshakePayload {
            data: vec![1, 2, 3, 4, 5, 6]
        }
    );
    assert_eq!(
        RegistrationHandshake::new_payload(vec![]),
        RegistrationHandshake::HandshakePayload { data: vec![] }
    );
}

#[test]
fn handshake_error_holds_its_message() {
    assert_eq!(
        RegistrationHandshake::new_error("no such key"),
        RegistrationHandshake::HandshakeError {
            message: "no such key".to_string()
        }
    );
    assert_eq!(
        RegistrationHandshake::new_error(String::from("owned")),
        RegistrationHandshake::HandshakeError {
            message: "owned".to_string()
        }
    );
}

#[test]
fn server_error_holds_its_message() {
    assert_eq!(
        ServerResponse::new_error("failed"),
        ServerResponse::Error {
            message: "failed".to_string()
        }
    );
}

#[test]
fn only_error_is_an_error() {
    assert!(ServerResponse::new_error("x").is_error());
    assert!(ServerResponse::Error {
        message: String::new()
    }
    .is_error());
    for status in [true, false] {
        assert!(!ServerResponse::Authenticate { status }.is_error());
        assert!(!ServerResponse::Register { status }.is_error());
        assert!(!ServerResponse::Send { status }.is_error());
    }
}

#[test]
fn only_successful_authenticate_and_register_imply_authentication() {
    assert!(ServerResponse::Authenticate { status: true }.implies_successful_authentication());
    assert!(ServerResponse::Register { status: true }.implies_successful_authentication());
    assert!(!ServerResponse::Authenticate { status: false }.implies_successful_authentication());
    assert!(!ServerResponse::Register { status: false }.implies_successful_authentication());
    assert!(!ServerResponse::Send { status: true }.implies_successful_authentication());
    assert!(!ServerResponse::Send { status: false }.implies_successful_authentication());
    assert!(!ServerResponse::new_error("authenticated").implies_successful_authentication());
    assert!(!ServerResponse::Error {
        message: String::new()
    }
    .implies_successful_authentication());
}

#[test]
fn authenticate_holds_base58_of_each_field() {
    let address: [u8; 32] = core::array::from_fn(|i| (i * 3 + 1) as u8);
    let enc_address: [u8; 32] = core::array::from_fn(|i| (255 - i) as u8);
    let iv: [u8; 16] = core::array::from_fn(|i| (i * i) as u8);
    let request = ClientControlRequest::new_authenticate(
        DestinationAddressBytes::from_bytes(address),
        EncryptedAddressBytes::from_bytes(enc_address),
        AuthenticationIV::from_bytes(iv),
    );
    assert_eq!(
        request,
        ClientControlRequest::Authenticate {
            address: bs58::encode(&address).into_string(),
            enc_address: bs58::encode(&enc_address).into_string(),
            iv: bs58::encode(&iv).into_string(),
        }
    );
}

#[test]
fn zero_bytes_are_ones_in_base58() {
    let request = ClientControlRequest::new_authenticate(
        DestinationAddressBytes::from_bytes([0u8; 32]),
        EncryptedAddressBytes::from_bytes([0u8; 32]),
        AuthenticationIV::from_bytes([0u8; 16]),
    );
    assert_eq!(
        request,
        ClientControlRequest::Authenticate {
            address: "1".repeat(32),
            enc_address: "1".repeat(32),
            iv: "1".repeat(16),
        }
    );
}

#[test]
fn base58_text_decodes_to_the_bytes() {
    let mut bytes = [0u8; 32];
    bytes[31] = 58;
    let address = DestinationAddressBytes::from_bytes(bytes);
    let text = address.to_base58_string();
    assert_eq!(text, format!("{}21", "1".repeat(31)));
    assert_eq!(bs58::decode(&text).into_vec().unwrap(), bytes.to_vec());
    assert_eq!(address.to_bytes(), bytes);

    let iv = AuthenticationIV::from_bytes([0xff; 16]);
    assert_eq!(
        bs58::decode(iv.to_base58_string()).into_vec().unwrap(),
        vec![0xff; 16]
    );
    assert_eq!(iv.to_bytes(), [0xff; 16]);

    let enc = EncryptedAddressBytes::from_bytes([9; 32]);
    assert_eq!(
        bs58::decode(enc.to_base58_string()).into_vec().unwrap(),
        vec![9; 32]
    );
    assert_eq!(enc.to_bytes(), [9; 32]);
}
