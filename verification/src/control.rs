//! The control channel: the messages that a client and its gateway exchange
//! as text before and beside the binary traffic.

use vstd::prelude::*;
use vstd::string::StringExecFns;
use crate::json::{
    fields_view, lemma_bytes_round_trip, lemma_fields_view, lemma_only_field, spec_field,
    spec_occurrences, JsonValue, JsonView,
};
use crate::primitives::{base58_encode, base58_text};

verus! {

/// Length in bytes of a client's address.
pub const DESTINATION_ADDRESS_LENGTH: usize = 32;

/// Length in bytes of a client's address once encrypted.
pub const ENCRYPTED_ADDRESS_SIZE: usize = 32;

/// Length in bytes of the vector that an address was encrypted with.
pub const AUTHENTICATION_IV_SIZE: usize = 16;

/// The address of a client: where the gateway delivers what is sent to it.
#[derive(Debug, Clone, Copy, PartialEq, Eq)]
pub struct DestinationAddressBytes {
    bytes: [u8; 32],
}

impl View for DestinationAddressBytes {
    type V = Seq<u8>;

    closed spec fn view(&self) -> Seq<u8> {
        self.bytes@
    }
}

impl DestinationAddressBytes {
    /// The address that these bytes are.
    pub fn from_bytes(bytes: [u8; 32]) -> (address: DestinationAddressBytes)
        ensures
            address@ == bytes@,
    {
        DestinationAddressBytes { bytes }
    }

    /// The bytes of this address.
    pub fn to_bytes(&self) -> (bytes: [u8; 32])
        ensures
            bytes@ == self@,
    {
        self.bytes
    }

    /// This address in base58.
    pub fn to_base58_string(&self) -> (text: String)
        ensures
            text@ == base58_text(self@),
    {
        base58_encode(self.bytes.as_slice())
    }
}

/// A client's address, encrypted under the keys it shares with the gateway:
/// proof that the client holds those keys.
#[derive(Debug, Clone, Copy, PartialEq, Eq)]
pub struct EncryptedAddressBytes {
    bytes: [u8; 32],
}

impl View for EncryptedAddressBytes {
    type V = Seq<u8>;

    closed spec fn view(&self) -> Seq<u8> {
        self.bytes@
    }
}

impl EncryptedAddressBytes {
    /// The encrypted address that these bytes are.
    pub fn from_bytes(bytes: [u8; 32]) -> (address: EncryptedAddressBytes)
        ensures
            address@ == bytes@,
    {
        EncryptedAddressBytes { bytes }
    }

    /// The bytes of this encrypted address.
    pub fn to_bytes(&self) -> (bytes: [u8; 32])
        ensures
            bytes@ == self@,
    {
        self.bytes
    }

    /// This encrypted address in base58.
    pub fn to_base58_string(&self) -> (text: String)
        ensures
            text@ == base58_text(self@),
    {
        base58_encode(self.bytes.as_slice())
    }
}

/// The initialisation vector that a client encrypted its address with.
#[derive(Debug, Clone, Copy, PartialEq, Eq)]
pub struct AuthenticationIV {
    bytes: [u8; 16],
}

impl View for AuthenticationIV {
    type V = Seq<u8>;

    closed spec fn view(&self) -> Seq<u8> {
        self.bytes@
    }
}

impl AuthenticationIV {
    /// The vector that these bytes are.
    pub fn from_bytes(bytes: [u8; 16]) -> (iv: AuthenticationIV)
        ensures
            iv@ == bytes@,
    {
        AuthenticationIV { bytes }
    }

    /// The bytes of this vector.
    pub fn to_bytes(&self) -> (bytes: [u8; 16])
        ensures
            bytes@ == self@,
    {
        self.bytes
    }

    /// This vector in base58.
    pub fn to_base58_string(&self) -> (text: String)
        ensures
            text@ == base58_text(self@),
    {
        base58_encode(self.bytes.as_slice())
    }
}

/// Why a JSON document is no control message of the kind asked for.
#[derive(Debug, Clone, Copy, PartialEq, Eq, Structural)]
pub enum ControlMessageError {
    /// The document is not an object.
    NotAnObject,
    /// The object lacks a field that the message needs. The discriminant
    /// `type` is such a field.
    MissingField,
    /// The object holds a field that the message needs, or the discriminant,
    /// more than once.
    DuplicateField,
    /// A field that the message needs holds a value of the wrong kind.
    InvalidField,
    /// The discriminant names no message of the kind asked for.
    UnknownVariant,
}

/// The value of the one field `name` of `doc`, or why there is none: the
/// document is no object, or it has no such field, or it has several of them.
pub open spec fn spec_only_field(doc: JsonView, name: Seq<char>) -> Result<
    JsonView,
    ControlMessageError,
> {
    if !(doc is Object) {
        Err(ControlMessageError::NotAnObject)
    } else if doc.occurrences(name) > 1 {
        Err(ControlMessageError::DuplicateField)
    } else {
        match doc.field(name) {
            None => Err(ControlMessageError::MissingField),
            Some(value) => Ok(value),
        }
    }
}

/// The text in the field `name` of `doc`, or why there is none.
pub open spec fn spec_text_field(doc: JsonView, name: Seq<char>) -> Result<
    Seq<char>,
    ControlMessageError,
> {
    match spec_only_field(doc, name) {
        Err(e) => Err(e),
        Ok(JsonView::Text(text)) => Ok(text),
        Ok(_) => Err(ControlMessageError::InvalidField),
    }
}

/// The truth value in the field `name` of `doc`, or why there is none.
pub open spec fn spec_bool_field(doc: JsonView, name: Seq<char>) -> Result<
    bool,
    ControlMessageError,
> {
    match spec_only_field(doc, name) {
        Err(e) => Err(e),
        Ok(JsonView::Bool(b)) => Ok(b),
        Ok(_) => Err(ControlMessageError::InvalidField),
    }
}

/// The bytes in the field `name` of `doc`, or why there are none.
pub open spec fn spec_bytes_field(doc: JsonView, name: Seq<char>) -> Result<
    Seq<u8>,
    ControlMessageError,
> {
    match spec_only_field(doc, name) {
        Err(e) => Err(e),
        Ok(value) => match value.bytes() {
            Some(bytes) => Ok(bytes),
            None => Err(ControlMessageError::InvalidField),
        },
    }
}

/// The document of a message: an object that starts with the discriminant
/// `type` and goes on with the message's own fields.
pub open spec fn spec_tagged(tag: Seq<char>, fields: Seq<(Seq<char>, JsonView)>) -> JsonView {
    JsonView::Object(seq![("type"@, JsonView::Text(tag))] + fields)
}

/// Reads the one field `name` of `doc`.
fn read_only_field<'a>(doc: &'a JsonValue, name: &str) -> (result: Result<
    &'a JsonValue,
    ControlMessageError,
>)
    ensures
        match result {
            Ok(value) => spec_only_field(doc@, name@) == Ok::<JsonView, ControlMessageError>(
                value@,
            ),
            Err(e) => spec_only_field(doc@, name@) == Err::<JsonView, ControlMessageError>(e),
        },
{
    if !doc.is_object() {
        return Err(ControlMessageError::NotAnObject);
    }
    if doc.occurrences(name) > 1 {
        return Err(ControlMessageError::DuplicateField);
    }
    match doc.field(name) {
        None => Err(ControlMessageError::MissingField),
        Some(value) => Ok(value),
    }
}

/// Reads the text in the field `name` of `doc`.
fn read_text(doc: &JsonValue, name: &str) -> (result: Result<String, ControlMessageError>)
    ensures
        match result {
            Ok(text) => spec_text_field(doc@, name@) == Ok::<Seq<char>, ControlMessageError>(text@),
            Err(e) => spec_text_field(doc@, name@) == Err::<Seq<char>, ControlMessageError>(e),
        },
{
    match read_only_field(doc, name) {
        Err(e) => Err(e),
        Ok(value) => match value.as_text() {
            Some(text) => Ok(text.clone()),
            None => Err(ControlMessageError::InvalidField),
        },
    }
}

/// Reads the truth value in the field `name` of `doc`.
fn read_bool(doc: &JsonValue, name: &str) -> (result: Result<bool, ControlMessageError>)
    ensures
        result == spec_bool_field(doc@, name@),
{
    match read_only_field(doc, name) {
        Err(e) => Err(e),
        Ok(value) => match value.as_bool() {
            Some(b) => Ok(b),
            None => Err(ControlMessageError::InvalidField),
        },
    }
}

/// Reads the bytes in the field `name` of `doc`.
fn read_bytes(doc: &JsonValue, name: &str) -> (result: Result<Vec<u8>, ControlMessageError>)
    ensures
        match result {
            Ok(bytes) => spec_bytes_field(doc@, name@) == Ok::<Seq<u8>, ControlMessageError>(bytes@),
            Err(e) => spec_bytes_field(doc@, name@) == Err::<Seq<u8>, ControlMessageError>(e),
        },
{
    match read_only_field(doc, name) {
        Err(e) => Err(e),
        Ok(value) => match value.as_bytes() {
            Some(bytes) => Ok(bytes),
            None => Err(ControlMessageError::InvalidField),
        },
    }
}

/// Whether `text` is `literal`.
fn text_is(text: &String, literal: &str) -> (b: bool)
    ensures
        b == (text@ == literal@),
{
    *text == String::from_str(literal)
}

/// The field that holds `value` under `name`.
fn named(name: &str, value: JsonValue) -> (field: (String, JsonValue))
    ensures
        field.0@ == name@,
        field.1 == value,
{
    (String::from_str(name), value)
}

/// The document of a message with the discriminant `tag` and these fields.
fn tagged(tag: &str, fields: Vec<(String, JsonValue)>) -> (doc: JsonValue)
    ensures
        doc@ == spec_tagged(tag@, fields_view(fields@)),
{
    let mut all: Vec<(String, JsonValue)> = Vec::new();
    all.push(named("type", JsonValue::from_text(tag)));
    let mut fields = fields;
    let ghost rest = fields@;
    all.append(&mut fields);
    proof {
        lemma_fields_view(all@);
        lemma_fields_view(rest);
        assert(fields_view(all@) =~= seq![("type"@, JsonView::Text(tag@))] + fields_view(rest));
    }
    JsonValue::Object(all)
}

/// The names that messages and their fields have on the wire differ from
/// one another.
proof fn lemma_names_differ()
    ensures
        "type"@ != "data"@,
        "type"@ != "message"@,
        "type"@ != "status"@,
        "type"@ != "address"@,
        "type"@ != "encAddress"@,
        "type"@ != "iv"@,
        "address"@ != "encAddress"@,
        "address"@ != "iv"@,
        "encAddress"@ != "iv"@,
        "handshakePayload"@ != "handshakeError"@,
        "handshakePayload"@ != "authenticate"@,
        "handshakePayload"@ != "registerHandshakeInitRequest"@,
        "authenticate"@ != "registerHandshakeInitRequest"@,
        "authenticate"@ != "register"@,
        "authenticate"@ != "send"@,
        "authenticate"@ != "error"@,
        "register"@ != "send"@,
        "register"@ != "error"@,
        "send"@ != "error"@,
{
    reveal_strlit("type");
    reveal_strlit("data");
    reveal_strlit("message");
    reveal_strlit("status");
    reveal_strlit("address");
    reveal_strlit("encAddress");
    reveal_strlit("iv");
    reveal_strlit("handshakePayload");
    reveal_strlit("handshakeError");
    reveal_strlit("authenticate");
    reveal_strlit("registerHandshakeInitRequest");
    reveal_strlit("register");
    reveal_strlit("send");
    reveal_strlit("error");
    assert("type"@.len() == 4 && "data"@.len() == 4 && "message"@.len() == 7);
    assert("status"@.len() == 6 && "address"@.len() == 7 && "encAddress"@.len() == 10);
    assert("iv"@.len() == 2 && "handshakePayload"@.len() == 16);
    assert("handshakeError"@.len() == 14 && "authenticate"@.len() == 12);
    assert("registerHandshakeInitRequest"@.len() == 28 && "register"@.len() == 8);
    assert("send"@.len() == 4 && "error"@.len() == 5);
    assert("type"@[0] != "data"@[0]);
}

/// In the document of a message whose fields have names of their own, each
/// field is the one field of its name, and the discriminant is the one field
/// `type`.
proof fn lemma_tagged_field(
    tag: Seq<char>,
    fields: Seq<(Seq<char>, JsonView)>,
    name: Seq<char>,
    at: int,
)
    requires
        0 <= at < fields.len(),
        fields[at].0 == name,
        forall|j: int| 0 <= j < fields.len() && j != at ==> fields[j].0 != name,
        forall|j: int| 0 <= j < fields.len() ==> fields[j].0 != "type"@,
    ensures
        spec_only_field(spec_tagged(tag, fields), name) == Ok::<JsonView, ControlMessageError>(
            fields[at].1,
        ),
        spec_only_field(spec_tagged(tag, fields), "type"@) == Ok::<JsonView, ControlMessageError>(
            JsonView::Text(tag),
        ),
{
    let all = seq![("type"@, JsonView::Text(tag))] + fields;
    assert(all[at + 1] == fields[at]);
    assert forall|j: int| 0 <= j < all.len() && j != at + 1 implies all[j].0 != name by {
        if j > 0 {
            assert(all[j] == fields[j - 1]);
        }
    }
    lemma_only_field(all, name, at + 1);
    assert forall|j: int| 0 <= j < all.len() && j != 0 implies all[j].0 != "type"@ by {
        assert(all[j] == fields[j - 1]);
    }
    lemma_only_field(all, "type"@, 0);
}

/// What the two sides send each other while they derive their shared keys.
#[derive(Debug, Clone, PartialEq, Eq)]
pub enum RegistrationHandshake {
    /// The next message of the key exchange.
    HandshakePayload { data: Vec<u8> },
    /// The key exchange failed.
    HandshakeError { message: String },
}

/// A [`RegistrationHandshake`] as mathematics.
pub enum RegistrationHandshakeView {
    HandshakePayload { data: Seq<u8> },
    HandshakeError { message: Seq<char> },
}

impl View for RegistrationHandshake {
    type V = RegistrationHandshakeView;

    open spec fn view(&self) -> RegistrationHandshakeView {
        match *self {
            RegistrationHandshake::HandshakePayload { data } => {
                RegistrationHandshakeView::HandshakePayload { data: data@ }
            },
            RegistrationHandshake::HandshakeError { message } => {
                RegistrationHandshakeView::HandshakeError { message: message@ }
            },
        }
    }
}

impl RegistrationHandshake {
    /// A handshake message that carries `data`.
    pub fn new_payload(data: Vec<u8>) -> (handshake: RegistrationHandshake)
        ensures
            handshake@ == (RegistrationHandshakeView::HandshakePayload { data: data@ }),
    {
        RegistrationHandshake::HandshakePayload { data }
    }

    /// A handshake message that reports a failure, in the words that
    /// `message` converts to.
    pub fn new_error<S: Into<String>>(message: S) -> (handshake: RegistrationHandshake)
        ensures
            handshake is HandshakeError,
            call_ensures(S::into, (message,), handshake->message),
    {
        RegistrationHandshake::HandshakeError { message: message.into() }
    }
}

/// What a client asks of its gateway over the control channel.
#[derive(Debug, Clone, PartialEq, Eq)]
pub enum ClientControlRequest {
    /// The client proves that it is the one that registered `address`. All
    /// three fields are base58 text.
    Authenticate { address: String, enc_address: String, iv: String },
    /// The client opens the key exchange with `data`.
    RegisterHandshakeInitRequest { data: Vec<u8> },
}

/// A [`ClientControlRequest`] as mathematics.
pub enum ClientControlRequestView {
    Authenticate { address: Seq<char>, enc_address: Seq<char>, iv: Seq<char> },
    RegisterHandshakeInitRequest { data: Seq<u8> },
}

impl View for ClientControlRequest {
    type V = ClientControlRequestView;

    open spec fn view(&self) -> ClientControlRequestView {
        match *self {
            ClientControlRequest::Authenticate { address, enc_address, iv } => {
                ClientControlRequestView::Authenticate {
                    address: address@,
                    enc_address: enc_address@,
                    iv: iv@,
                }
            },
            ClientControlRequest::RegisterHandshakeInitRequest { data } => {
                ClientControlRequestView::RegisterHandshakeInitRequest { data: data@ }
            },
        }
    }
}

impl ClientControlRequest {
    /// The request by which a client authenticates: its address, the address
    /// encrypted, and the vector of that encryption, each in base58.
    pub fn new_authenticate(
        address: DestinationAddressBytes,
        enc_address: EncryptedAddressBytes,
        iv: AuthenticationIV,
    ) -> (request: ClientControlRequest)
        ensures
            request@ == (ClientControlRequestView::Authenticate {
                address: base58_text(address@),
                enc_address: base58_text(enc_address@),
                iv: base58_text(iv@),
            }),
    {
        ClientControlRequest::Authenticate {
            address: address.to_base58_string(),
            enc_address: enc_address.to_base58_string(),
            iv: iv.to_base58_string(),
        }
    }
}

/// What a gateway answers over the control channel.
#[derive(Debug, Clone, PartialEq, Eq)]
pub enum ServerResponse {
    /// Whether the client is now authenticated.
    Authenticate { status: bool },
    /// Whether the client is now registered.
    Register { status: bool },
    /// Whether a packet was taken for forwarding.
    Send { status: bool },
    /// The request failed.
    Error { message: String },
}

/// A [`ServerResponse`] as mathematics.
pub enum ServerResponseView {
    Authenticate { status: bool },
    Register { status: bool },
    Send { status: bool },
    Error { message: Seq<char> },
}

impl View for ServerResponse {
    type V = ServerResponseView;

    open spec fn view(&self) -> ServerResponseView {
        match *self {
            ServerResponse::Authenticate { status } => ServerResponseView::Authenticate { status },
            ServerResponse::Register { status } => ServerResponseView::Register { status },
            ServerResponse::Send { status } => ServerResponseView::Send { status },
            ServerResponse::Error { message } => ServerResponseView::Error { message: message@ },
        }
    }
}

impl ServerResponse {
    /// A response that reports a failure, in the words that `msg` converts
    /// to.
    pub fn new_error<S: Into<String>>(msg: S) -> (response: ServerResponse)
        ensures
            response is Error,
            call_ensures(S::into, (msg,), response->message),
    {
        ServerResponse::Error { message: msg.into() }
    }

    /// Whether this response reports a failure.
    pub fn is_error(&self) -> (b: bool)
        ensures
            b == (self@ is Error),
    {
        match self {
            ServerResponse::Error { .. } => true,
            _ => false,
        }
    }

    /// Whether this response tells the client that it is authenticated: a
    /// successful authentication or a successful registration, and nothing
    /// else. A successful send says nothing of who sent.
    pub fn implies_successful_authentication(&self) -> (b: bool)
        ensures
            b == (self@ == (ServerResponseView::Authenticate { status: true }) || self@ == (
            ServerResponseView::Register { status: true })),
    {
        match self {
            ServerResponse::Authenticate { status, .. } => *status,
            ServerResponse::Register { status, .. } => *status,
            _ => false,
        }
    }
}

impl RegistrationHandshakeView {
    /// The document of this message.
    pub open spec fn to_json(self) -> JsonView {
        match self {
            RegistrationHandshakeView::HandshakePayload { data } => spec_tagged(
                "handshakePayload"@,
                seq![("data"@, JsonView::of_bytes(data))],
            ),
            RegistrationHandshakeView::HandshakeError { message } => spec_tagged(
                "handshakeError"@,
                seq![("message"@, JsonView::Text(message))],
            ),
        }
    }

    /// The message that a document holds, or why it holds none. The
    /// discriminant and each field that the message needs must stand once:
    /// one that stands twice is refused. Fields that the message does not
    /// need are ignored, however often they stand.
    pub open spec fn from_json(doc: JsonView) -> Result<
        RegistrationHandshakeView,
        ControlMessageError,
    > {
        match spec_text_field(doc, "type"@) {
            Err(e) => Err(e),
            Ok(tag) => if tag == "handshakePayload"@ {
                match spec_bytes_field(doc, "data"@) {
                    Err(e) => Err(e),
                    Ok(data) => Ok(RegistrationHandshakeView::HandshakePayload { data }),
                }
            } else if tag == "handshakeError"@ {
                match spec_text_field(doc, "message"@) {
                    Err(e) => Err(e),
                    Ok(message) => Ok(RegistrationHandshakeView::HandshakeError { message }),
                }
            } else {
                Err(ControlMessageError::UnknownVariant)
            },
        }
    }
}

/// Whether an exec result of reading a handshake message is the one that the
/// model gives.
pub open spec fn handshake_read_as(
    result: Result<RegistrationHandshake, ControlMessageError>,
    model: Result<RegistrationHandshakeView, ControlMessageError>,
) -> bool {
    match result {
        Ok(handshake) => model == Ok::<RegistrationHandshakeView, ControlMessageError>(handshake@),
        Err(e) => model == Err::<RegistrationHandshakeView, ControlMessageError>(e),
    }
}

impl RegistrationHandshake {
    /// The document of this message: the discriminant, then the fields.
    pub fn to_json(&self) -> (doc: JsonValue)
        ensures
            doc@ == self@.to_json(),
    {
        let mut fields: Vec<(String, JsonValue)> = Vec::new();
        match self {
            RegistrationHandshake::HandshakePayload { data } => {
                fields.push(named("data", JsonValue::from_bytes(data.as_slice())));
                proof {
                    lemma_fields_view(fields@);
                    assert(fields_view(fields@) =~= seq![("data"@, JsonView::of_bytes(data@))]);
                }
                tagged("handshakePayload", fields)
            },
            RegistrationHandshake::HandshakeError { message } => {
                fields.push(named("message", JsonValue::Text(message.clone())));
                proof {
                    lemma_fields_view(fields@);
                    assert(fields_view(fields@) =~= seq![("message"@, JsonView::Text(message@))]);
                }
                tagged("handshakeError", fields)
            },
        }
    }

    /// Reads a handshake message from its document.
    pub fn from_json(doc: &JsonValue) -> (result: Result<RegistrationHandshake, ControlMessageError>)
        ensures
            handshake_read_as(result, RegistrationHandshakeView::from_json(doc@)),
    {
        let tag = match read_text(doc, "type") {
            Ok(tag) => tag,
            Err(e) => {
                return Err(e);
            },
        };
        if text_is(&tag, "handshakePayload") {
            match read_bytes(doc, "data") {
                Ok(data) => Ok(RegistrationHandshake::HandshakePayload { data }),
                Err(e) => Err(e),
            }
        } else if text_is(&tag, "handshakeError") {
            match read_text(doc, "message") {
                Ok(message) => Ok(RegistrationHandshake::HandshakeError { message }),
                Err(e) => Err(e),
            }
        } else {
            Err(ControlMessageError::UnknownVariant)
        }
    }
}

/// The document of a handshake message reads back as that message.
pub proof fn lemma_handshake_round_trip(handshake: RegistrationHandshakeView)
    ensures
        RegistrationHandshakeView::from_json(handshake.to_json()) == Ok::<
            RegistrationHandshakeView,
            ControlMessageError,
        >(handshake),
{
    lemma_names_differ();
    match handshake {
        RegistrationHandshakeView::HandshakePayload { data } => {
            lemma_tagged_field(
                "handshakePayload"@,
                seq![("data"@, JsonView::of_bytes(data))],
                "data"@,
                0,
            );
            lemma_bytes_round_trip(data);
        },
        RegistrationHandshakeView::HandshakeError { message } => {
            lemma_tagged_field(
                "handshakeError"@,
                seq![("message"@, JsonView::Text(message))],
                "message"@,
                0,
            );
        },
    }
}

impl ClientControlRequestView {
    /// The document of this request.
    pub open spec fn to_json(self) -> JsonView {
        match self {
            ClientControlRequestView::Authenticate { address, enc_address, iv } => spec_tagged(
                "authenticate"@,
                seq![
                    ("address"@, JsonView::Text(address)),
                    ("encAddress"@, JsonView::Text(enc_address)),
                    ("iv"@, JsonView::Text(iv)),
                ],
            ),
            ClientControlRequestView::RegisterHandshakeInitRequest { data } => spec_tagged(
                "registerHandshakeInitRequest"@,
                seq![("data"@, JsonView::of_bytes(data))],
            ),
        }
    }

    /// The request that a document holds, or why it holds none. The request
    /// that opens the key exchange is taken under its own discriminant and
    /// under that of a handshake payload, which older clients send. The
    /// discriminant and each field that the request needs must stand once:
    /// one that stands twice is refused. Fields that the request does not
    /// need are ignored, however often they stand.
    pub open spec fn from_json(doc: JsonView) -> Result<
        ClientControlRequestView,
        ControlMessageError,
    > {
        match spec_text_field(doc, "type"@) {
            Err(e) => Err(e),
            Ok(tag) => if tag == "authenticate"@ {
                match spec_text_field(doc, "address"@) {
                    Err(e) => Err(e),
                    Ok(address) => match spec_text_field(doc, "encAddress"@) {
                        Err(e) => Err(e),
                        Ok(enc_address) => match spec_text_field(doc, "iv"@) {
                            Err(e) => Err(e),
                            Ok(iv) => Ok(
                                ClientControlRequestView::Authenticate { address, enc_address, iv },
                            ),
                        },
                    },
                }
            } else if tag == "registerHandshakeInitRequest"@ || tag == "handshakePayload"@ {
                match spec_bytes_field(doc, "data"@) {
                    Err(e) => Err(e),
                    Ok(data) => Ok(ClientControlRequestView::RegisterHandshakeInitRequest { data }),
                }
            } else {
                Err(ControlMessageError::UnknownVariant)
            },
        }
    }
}

/// Whether an exec result of reading a control request is the one that the
/// model gives.
pub open spec fn control_request_read_as(
    result: Result<ClientControlRequest, ControlMessageError>,
    model: Result<ClientControlRequestView, ControlMessageError>,
) -> bool {
    match result {
        Ok(request) => model == Ok::<ClientControlRequestView, ControlMessageError>(request@),
        Err(e) => model == Err::<ClientControlRequestView, ControlMessageError>(e),
    }
}

impl ClientControlRequest {
    /// The document of this request: the discriminant, then the fields. The
    /// request that opens the key exchange always goes out under its own
    /// discriminant.
    pub fn to_json(&self) -> (doc: JsonValue)
        ensures
            doc@ == self@.to_json(),
    {
        let mut fields: Vec<(String, JsonValue)> = Vec::new();
        match self {
            ClientControlRequest::Authenticate { address, enc_address, iv } => {
                fields.push(named("address", JsonValue::Text(address.clone())));
                fields.push(named("encAddress", JsonValue::Text(enc_address.clone())));
                fields.push(named("iv", JsonValue::Text(iv.clone())));
                proof {
                    lemma_fields_view(fields@);
                    assert(fields_view(fields@) =~= seq![
                        ("address"@, JsonView::Text(address@)),
                        ("encAddress"@, JsonView::Text(enc_address@)),
                        ("iv"@, JsonView::Text(iv@)),
                    ]);
                }
                tagged("authenticate", fields)
            },
            ClientControlRequest::RegisterHandshakeInitRequest { data } => {
                fields.push(named("data", JsonValue::from_bytes(data.as_slice())));
                proof {
                    lemma_fields_view(fields@);
                    assert(fields_view(fields@) =~= seq![("data"@, JsonView::of_bytes(data@))]);
                }
                tagged("registerHandshakeInitRequest", fields)
            },
        }
    }

    /// Reads a control request from its document.
    pub fn from_json(doc: &JsonValue) -> (result: Result<ClientControlRequest, ControlMessageError>)
        ensures
            control_request_read_as(result, ClientControlRequestView::from_json(doc@)),
    {
        let tag = match read_text(doc, "type") {
            Ok(tag) => tag,
            Err(e) => {
                return Err(e);
            },
        };
        if text_is(&tag, "authenticate") {
            let address = match read_text(doc, "address") {
                Ok(address) => address,
                Err(e) => {
                    return Err(e);
                },
            };
            let enc_address = match read_text(doc, "encAddress") {
                Ok(enc_address) => enc_address,
                Err(e) => {
                    return Err(e);
                },
            };
            match read_text(doc, "iv") {
                Ok(iv) => Ok(ClientControlRequest::Authenticate { address, enc_address, iv }),
                Err(e) => Err(e),
            }
        } else if text_is(&tag, "registerHandshakeInitRequest") || text_is(
            &tag,
            "handshakePayload",
        ) {
            match read_bytes(doc, "data") {
                Ok(data) => Ok(ClientControlRequest::RegisterHandshakeInitRequest { data }),
                Err(e) => Err(e),
            }
        } else {
            Err(ControlMessageError::UnknownVariant)
        }
    }
}

/// The document of a control request reads back as that request.
pub proof fn lemma_control_request_round_trip(request: ClientControlRequestView)
    ensures
        ClientControlRequestView::from_json(request.to_json()) == Ok::<
            ClientControlRequestView,
            ControlMessageError,
        >(request),
{
    lemma_names_differ();
    match request {
        ClientControlRequestView::Authenticate { address, enc_address, iv } => {
            let fields = seq![
                ("address"@, JsonView::Text(address)),
                ("encAddress"@, JsonView::Text(enc_address)),
                ("iv"@, JsonView::Text(iv)),
            ];
            lemma_tagged_field("authenticate"@, fields, "address"@, 0);
            lemma_tagged_field("authenticate"@, fields, "encAddress"@, 1);
            lemma_tagged_field("authenticate"@, fields, "iv"@, 2);
        },
        ClientControlRequestView::RegisterHandshakeInitRequest { data } => {
            lemma_tagged_field(
                "registerHandshakeInitRequest"@,
                seq![("data"@, JsonView::of_bytes(data))],
                "data"@,
                0,
            );
            lemma_bytes_round_trip(data);
        },
    }
}

/// A document under the discriminant of a handshake payload reads as the
/// request that opens the key exchange, just as it does under that request's
/// own discriminant: two documents that differ in nothing but this give one
/// result.
pub proof fn lemma_legacy_discriminant(fields: Seq<(Seq<char>, JsonView)>)
    ensures
        ClientControlRequestView::from_json(spec_tagged("handshakePayload"@, fields))
            == ClientControlRequestView::from_json(
            spec_tagged("registerHandshakeInitRequest"@, fields),
        ),
{
    lemma_names_differ();
    let legacy = seq![("type"@, JsonView::Text("handshakePayload"@))] + fields;
    let canonical = seq![("type"@, JsonView::Text("registerHandshakeInitRequest"@))] + fields;
    reveal_with_fuel(spec_field, 2);
    reveal_with_fuel(spec_occurrences, 2);
    assert(legacy.drop_first() =~= fields);
    assert(canonical.drop_first() =~= fields);
}

/// The document of a handshake payload reads as the request that opens the
/// key exchange with the payload's data.
pub proof fn lemma_handshake_payload_reads_as_init_request(data: Seq<u8>)
    ensures
        ClientControlRequestView::from_json(
            (RegistrationHandshakeView::HandshakePayload { data }).to_json(),
        ) == Ok::<ClientControlRequestView, ControlMessageError>(
            ClientControlRequestView::RegisterHandshakeInitRequest { data },
        ),
{
    lemma_legacy_discriminant(seq![("data"@, JsonView::of_bytes(data))]);
    lemma_control_request_round_trip(ClientControlRequestView::RegisterHandshakeInitRequest { data });
}

impl ServerResponseView {
    /// The document of this response.
    pub open spec fn to_json(self) -> JsonView {
        match self {
            ServerResponseView::Authenticate { status } => spec_tagged(
                "authenticate"@,
                seq![("status"@, JsonView::Bool(status))],
            ),
            ServerResponseView::Register { status } => spec_tagged(
                "register"@,
                seq![("status"@, JsonView::Bool(status))],
            ),
            ServerResponseView::Send { status } => spec_tagged(
                "send"@,
                seq![("status"@, JsonView::Bool(status))],
            ),
            ServerResponseView::Error { message } => spec_tagged(
                "error"@,
                seq![("message"@, JsonView::Text(message))],
            ),
        }
    }

    /// The response that a document holds, or why it holds none. The
    /// discriminant and each field that the response needs must stand once:
    /// one that stands twice is refused. Fields that the response does not
    /// need are ignored, however often they stand.
    pub open spec fn from_json(doc: JsonView) -> Result<ServerResponseView, ControlMessageError> {
        match spec_text_field(doc, "type"@) {
            Err(e) => Err(e),
            Ok(tag) => if tag == "authenticate"@ {
                match spec_bool_field(doc, "status"@) {
                    Err(e) => Err(e),
                    Ok(status) => Ok(ServerResponseView::Authenticate { status }),
                }
            } else if tag == "register"@ {
                match spec_bool_field(doc, "status"@) {
                    Err(e) => Err(e),
                    Ok(status) => Ok(ServerResponseView::Register { status }),
                }
            } else if tag == "send"@ {
                match spec_bool_field(doc, "status"@) {
                    Err(e) => Err(e),
                    Ok(status) => Ok(ServerResponseView::Send { status }),
                }
            } else if tag == "error"@ {
                match spec_text_field(doc, "message"@) {
                    Err(e) => Err(e),
                    Ok(message) => Ok(ServerResponseView::Error { message }),
                }
            } else {
                Err(ControlMessageError::UnknownVariant)
            },
        }
    }
}

/// Whether an exec result of reading a server response is the one that the
/// model gives.
pub open spec fn server_response_read_as(
    result: Result<ServerResponse, ControlMessageError>,
    model: Result<ServerResponseView, ControlMessageError>,
) -> bool {
    match result {
        Ok(response) => model == Ok::<ServerResponseView, ControlMessageError>(response@),
        Err(e) => model == Err::<ServerResponseView, ControlMessageError>(e),
    }
}

impl ServerResponse {
    /// The document of this response: the discriminant, then the fields.
    pub fn to_json(&self) -> (doc: JsonValue)
        ensures
            doc@ == self@.to_json(),
    {
        let mut fields: Vec<(String, JsonValue)> = Vec::new();
        match self {
            ServerResponse::Authenticate { status } => {
                fields.push(named("status", JsonValue::Bool(*status)));
                proof {
                    lemma_fields_view(fields@);
                    assert(fields_view(fields@) =~= seq![("status"@, JsonView::Bool(*status))]);
                }
                tagged("authenticate", fields)
            },
            ServerResponse::Register { status } => {
                fields.push(named("status", JsonValue::Bool(*status)));
                proof {
                    lemma_fields_view(fields@);
                    assert(fields_view(fields@) =~= seq![("status"@, JsonView::Bool(*status))]);
                }
                tagged("register", fields)
            },
            ServerResponse::Send { status } => {
                fields.push(named("status", JsonValue::Bool(*status)));
                proof {
                    lemma_fields_view(fields@);
                    assert(fields_view(fields@) =~= seq![("status"@, JsonView::Bool(*status))]);
                }
                tagged("send", fields)
            },
            ServerResponse::Error { message } => {
                fields.push(named("message", JsonValue::Text(message.clone())));
                proof {
                    lemma_fields_view(fields@);
                    assert(fields_view(fields@) =~= seq![("message"@, JsonView::Text(message@))]);
                }
                tagged("error", fields)
            },
        }
    }

    /// Reads a server response from its document.
    pub fn from_json(doc: &JsonValue) -> (result: Result<ServerResponse, ControlMessageError>)
        ensures
            server_response_read_as(result, ServerResponseView::from_json(doc@)),
    {
        let tag = match read_text(doc, "type") {
            Ok(tag) => tag,
            Err(e) => {
                return Err(e);
            },
        };
        if text_is(&tag, "authenticate") {
            match read_bool(doc, "status") {
                Ok(status) => Ok(ServerResponse::Authenticate { status }),
                Err(e) => Err(e),
            }
        } else if text_is(&tag, "register") {
            match read_bool(doc, "status") {
                Ok(status) => Ok(ServerResponse::Register { status }),
                Err(e) => Err(e),
            }
        } else if text_is(&tag, "send") {
            match read_bool(doc, "status") {
                Ok(status) => Ok(ServerResponse::Send { status }),
                Err(e) => Err(e),
            }
        } else if text_is(&tag, "error") {
            match read_text(doc, "message") {
                Ok(message) => Ok(ServerResponse::Error { message }),
                Err(e) => Err(e),
            }
        } else {
            Err(ControlMessageError::UnknownVariant)
        }
    }
}

/// The document of a server response reads back as that response.
pub proof fn lemma_server_response_round_trip(response: ServerResponseView)
    ensures
        ServerResponseView::from_json(response.to_json()) == Ok::<
            ServerResponseView,
            ControlMessageError,
        >(response),
{
    lemma_names_differ();
    match response {
        ServerResponseView::Authenticate { status } => {
            lemma_tagged_field(
                "authenticate"@,
                seq![("status"@, JsonView::Bool(status))],
                "status"@,
                0,
            );
        },
        ServerResponseView::Register { status } => {
            lemma_tagged_field("register"@, seq![("status"@, JsonView::Bool(status))], "status"@, 0);
        },
        ServerResponseView::Send { status } => {
            lemma_tagged_field("send"@, seq![("status"@, JsonView::Bool(status))], "status"@, 0);
        },
        ServerResponseView::Error { message } => {
            lemma_tagged_field(
                "error"@,
                seq![("message"@, JsonView::Text(message))],
                "message"@,
                0,
            );
        },
    }
}

} // verus!
