//! The binary channel: requests to forward a sphinx packet and messages
//! pushed back by the gateway, each inside a tagged, encrypted frame.
//!
//! A frame carries no type tag of its own. While there is one kind of request
//! the plaintext needs none; a second kind has to bring a discriminant inside
//! the plaintext, where the tag covers it.

use vstd::prelude::*;
use vstd::slice::slice_subrange;
use crate::addressing::{
    lemma_address_is_prefix, lemma_address_round_trip, spec_try_from_bytes, NymNodeRoutingAddress,
    RoutingAddressView,
};
use crate::error::GatewayRequestsError;
use crate::packet::{spec_sphinx_parses, PacketSize, SphinxPacket};
use crate::primitives::MAC_SIZE;
use crate::shared_keys::{
    spec_decrypt_tagged, spec_encrypt_and_tag, SharedKeys, SharedKeysView,
};

verus! {

/// A message as the websocket carries it.
#[derive(Debug)]
pub enum WsMessage {
    /// A text frame: control messages.
    Text(String),
    /// A binary frame: tagged, encrypted messages.
    Binary(Vec<u8>),
}

/// What a client asks of its gateway over the binary channel.
#[derive(Debug)]
pub enum BinaryRequest {
    /// Forward `sphinx_packet` to the mix node at `address`.
    ForwardSphinx { address: NymNodeRoutingAddress, sphinx_packet: SphinxPacket },
}

/// A [`BinaryRequest`] as mathematics.
pub enum BinaryRequestView {
    ForwardSphinx { address: RoutingAddressView, sphinx_packet: Seq<u8> },
}

impl View for BinaryRequest {
    type V = BinaryRequestView;

    open spec fn view(&self) -> BinaryRequestView {
        match *self {
            BinaryRequest::ForwardSphinx { address, sphinx_packet } => {
                BinaryRequestView::ForwardSphinx { address: address@, sphinx_packet: sphinx_packet@ }
            },
        }
    }
}

impl BinaryRequestView {
    /// What is encrypted: the address, then the packet.
    pub open spec fn plaintext(self) -> Seq<u8> {
        match self {
            BinaryRequestView::ForwardSphinx { address, sphinx_packet } => address.bytes()
                + sphinx_packet,
        }
    }

    /// The request that a plaintext holds, or the reason for which it holds
    /// none: the address is read off the front, and what is left must have
    /// the length of a packet size class and parse as a packet.
    pub open spec fn from_plaintext(plaintext: Seq<u8>) -> Result<
        BinaryRequestView,
        GatewayRequestsError,
    > {
        match spec_try_from_bytes(plaintext) {
            Err(_) => Err(GatewayRequestsError::IncorrectlyEncodedAddress),
            Ok(address) => {
                let sphinx_packet = plaintext.subrange(
                    address.bytes().len() as int,
                    plaintext.len() as int,
                );
                if PacketSize::spec_get_type(sphinx_packet.len() as int) is None {
                    Err(GatewayRequestsError::RequestOfInvalidSize(sphinx_packet.len() as usize))
                } else if !spec_sphinx_parses(sphinx_packet.len()) {
                    Err(GatewayRequestsError::MalformedSphinxPacket)
                } else {
                    Ok(BinaryRequestView::ForwardSphinx { address, sphinx_packet })
                }
            },
        }
    }

    /// The request that a frame holds under `keys`, or the reason for which
    /// the frame is rejected.
    pub open spec fn from_encrypted_tagged_bytes(keys: SharedKeysView, raw_req: Seq<u8>) -> Result<
        BinaryRequestView,
        GatewayRequestsError,
    > {
        match spec_decrypt_tagged(keys, raw_req) {
            Err(e) => Err(e),
            Ok(plaintext) => BinaryRequestView::from_plaintext(plaintext),
        }
    }
}

/// Whether an exec result of reading a request is the one that the model
/// gives.
pub open spec fn request_read_as(
    result: Result<BinaryRequest, GatewayRequestsError>,
    model: Result<BinaryRequestView, GatewayRequestsError>,
) -> bool {
    match result {
        Ok(request) => model == Ok::<BinaryRequestView, GatewayRequestsError>(request@),
        Err(e) => model == Err::<BinaryRequestView, GatewayRequestsError>(e),
    }
}

impl BinaryRequest {
    /// Reads a request from a decrypted plaintext.
    pub fn try_from_plaintext(plaintext: &[u8]) -> (result: Result<
        BinaryRequest,
        GatewayRequestsError,
    >)
        ensures
            request_read_as(result, BinaryRequestView::from_plaintext(plaintext@)),
            result matches Ok(request) ==> request@.plaintext() == plaintext@,
    {
        let address = match NymNodeRoutingAddress::try_from_bytes(plaintext) {
            Ok(address) => address,
            Err(e) => {
                return Err(GatewayRequestsError::from(e));
            },
        };
        proof {
            lemma_address_is_prefix(plaintext@);
        }
        let addr_offset = address.bytes_min_len();
        let sphinx_packet_data = slice_subrange(plaintext, addr_offset, plaintext.len());
        let packet_size = sphinx_packet_data.len();
        if PacketSize::get_type(packet_size).is_err() {
            Err(GatewayRequestsError::RequestOfInvalidSize(packet_size))
        } else {
            match SphinxPacket::from_bytes(sphinx_packet_data) {
                Ok(sphinx_packet) => Ok(BinaryRequest::ForwardSphinx { address, sphinx_packet }),
                Err(_) => Err(GatewayRequestsError::MalformedSphinxPacket),
            }
        }
    }

    /// Opens a frame under the shared keys and reads the request in it. The
    /// checks come in a fixed order: the length of the frame, its tag, the
    /// address, the size of the packet, the packet itself.
    pub fn try_from_encrypted_tagged_bytes(raw_req: Vec<u8>, shared_keys: &SharedKeys) -> (result:
        Result<BinaryRequest, GatewayRequestsError>)
        ensures
            request_read_as(
                result,
                BinaryRequestView::from_encrypted_tagged_bytes(shared_keys@, raw_req@),
            ),
            raw_req@.len() < MAC_SIZE ==> result is Err
                && result->Err_0 == GatewayRequestsError::TooShortRequest,
            result matches Ok(request) ==> request@.plaintext().len() == raw_req@.len() - MAC_SIZE,
    {
        match shared_keys.decrypt_tagged(raw_req.as_slice()) {
            Err(e) => Err(e),
            Ok(plaintext) => BinaryRequest::try_from_plaintext(plaintext.as_slice()),
        }
    }

    /// What is encrypted for this request: the address, then the packet.
    pub fn into_plaintext(self) -> (plaintext: Vec<u8>)
        ensures
            plaintext@ == self@.plaintext(),
    {
        match self {
            BinaryRequest::ForwardSphinx { address, sphinx_packet } => {
                let mut forwarding_data = address.as_bytes();
                forwarding_data.extend_from_slice(sphinx_packet.as_bytes());
                forwarding_data
            },
        }
    }

    /// The frame of this request under the shared keys. Read back under the
    /// same keys it gives this request, provided that the packet has the
    /// length of a size class; a packet of another length is refused with
    /// that length.
    pub fn into_encrypted_tagged_bytes(self, shared_key: &SharedKeys) -> (bytes: Vec<u8>)
        ensures
            bytes@ == spec_encrypt_and_tag(shared_key@, self@.plaintext()),
            bytes@.len() == MAC_SIZE + self@.plaintext().len(),
            BinaryRequestView::from_encrypted_tagged_bytes(shared_key@, bytes@)
                == BinaryRequestView::from_plaintext(self@.plaintext()),
            BinaryRequestView::from_plaintext(self@.plaintext()) == request_read_back(self@),
    {
        proof {
            lemma_request_round_trip(self@);
        }
        let forwarding_data = self.into_plaintext();
        shared_key.encrypt_and_tag(forwarding_data.as_slice())
    }

    /// A request to forward `sphinx_packet` to `address`.
    pub fn new_forward_request(address: NymNodeRoutingAddress, sphinx_packet: SphinxPacket) -> (request:
        BinaryRequest)
        ensures
            request@ == (BinaryRequestView::ForwardSphinx {
                address: address@,
                sphinx_packet: sphinx_packet@,
            }),
    {
        BinaryRequest::ForwardSphinx { address, sphinx_packet }
    }

    /// The binary websocket message that carries this request's frame.
    pub fn into_ws_message(self, shared_key: &SharedKeys) -> (message: WsMessage)
        ensures
            message matches WsMessage::Binary(bytes) && bytes@ == spec_encrypt_and_tag(
                shared_key@,
                self@.plaintext(),
            ) && bytes@.len() == MAC_SIZE + self@.plaintext().len(),
    {
        WsMessage::Binary(self.into_encrypted_tagged_bytes(shared_key))
    }
}

/// What reading the plaintext of `request` gives: the request itself where
/// its packet has the length of a size class, and else that length as the
/// reason for refusing it.
pub open spec fn request_read_back(request: BinaryRequestView) -> Result<
    BinaryRequestView,
    GatewayRequestsError,
> {
    match request {
        BinaryRequestView::ForwardSphinx { address, sphinx_packet } => {
            if PacketSize::spec_get_type(sphinx_packet.len() as int) is Some {
                Ok(request)
            } else {
                Err(GatewayRequestsError::RequestOfInvalidSize(sphinx_packet.len() as usize))
            }
        },
    }
}

/// Reading the plaintext of a request gives the request back where its packet
/// has the length of a size class; a packet of any other length is refused
/// with exactly that length.
pub proof fn lemma_request_round_trip(request: BinaryRequestView)
    requires
        request->address.valid(),
    ensures
        BinaryRequestView::from_plaintext(request.plaintext()) == request_read_back(request),
{
    lemma_address_round_trip(request->address, request->sphinx_packet);
}

/// No plaintext is refused for a malformed packet: bytes of every size class
/// are long enough to parse as a packet, and a packet is not looked into any
/// further.
pub proof fn lemma_known_sizes_parse(plaintext: Seq<u8>)
    ensures
        BinaryRequestView::from_plaintext(plaintext) != Err::<
            BinaryRequestView,
            GatewayRequestsError,
        >(GatewayRequestsError::MalformedSphinxPacket),
{
}

/// What a gateway sends its client over the binary channel.
#[derive(Debug)]
pub enum BinaryResponse {
    /// A message that reached the gateway for this client.
    PushedMixMessage(Vec<u8>),
}

/// A [`BinaryResponse`] as mathematics.
pub enum BinaryResponseView {
    PushedMixMessage(Seq<u8>),
}

impl View for BinaryResponse {
    type V = BinaryResponseView;

    open spec fn view(&self) -> BinaryResponseView {
        match *self {
            BinaryResponse::PushedMixMessage(message) => BinaryResponseView::PushedMixMessage(
                message@,
            ),
        }
    }
}

impl BinaryResponseView {
    /// What is encrypted: the message as it is.
    pub open spec fn plaintext(self) -> Seq<u8> {
        self->0
    }

    /// The response that a frame holds under `keys`, or the reason for which
    /// the frame is rejected.
    pub open spec fn from_encrypted_tagged_bytes(keys: SharedKeysView, raw_req: Seq<u8>) -> Result<
        BinaryResponseView,
        GatewayRequestsError,
    > {
        match spec_decrypt_tagged(keys, raw_req) {
            Err(e) => Err(e),
            Ok(plaintext) => Ok(BinaryResponseView::PushedMixMessage(plaintext)),
        }
    }
}

/// Whether an exec result of reading a response is the one that the model
/// gives.
pub open spec fn response_read_as(
    result: Result<BinaryResponse, GatewayRequestsError>,
    model: Result<BinaryResponseView, GatewayRequestsError>,
) -> bool {
    match result {
        Ok(response) => model == Ok::<BinaryResponseView, GatewayRequestsError>(response@),
        Err(e) => model == Err::<BinaryResponseView, GatewayRequestsError>(e),
    }
}

impl BinaryResponse {
    /// Opens a frame under the shared keys and takes its plaintext as a
    /// pushed message.
    pub fn try_from_encrypted_tagged_bytes(raw_req: Vec<u8>, shared_keys: &SharedKeys) -> (result:
        Result<BinaryResponse, GatewayRequestsError>)
        ensures
            response_read_as(
                result,
                BinaryResponseView::from_encrypted_tagged_bytes(shared_keys@, raw_req@),
            ),
            raw_req@.len() < MAC_SIZE ==> result is Err
                && result->Err_0 == GatewayRequestsError::TooShortRequest,
            result matches Ok(response) ==> response@.plaintext().len() == raw_req@.len()
                - MAC_SIZE,
    {
        match shared_keys.decrypt_tagged(raw_req.as_slice()) {
            Err(e) => Err(e),
            Ok(plaintext) => Ok(BinaryResponse::PushedMixMessage(plaintext)),
        }
    }

    /// The frame of this response under the shared keys. Read back under the
    /// same keys it gives this response.
    pub fn into_encrypted_tagged_bytes(self, shared_key: &SharedKeys) -> (bytes: Vec<u8>)
        ensures
            bytes@ == spec_encrypt_and_tag(shared_key@, self@.plaintext()),
            bytes@.len() == MAC_SIZE + self@.plaintext().len(),
            BinaryResponseView::from_encrypted_tagged_bytes(shared_key@, bytes@) == Ok::<
                BinaryResponseView,
                GatewayRequestsError,
            >(self@),
    {
        match self {
            BinaryResponse::PushedMixMessage(message) => shared_key.encrypt_and_tag(
                message.as_slice(),
            ),
        }
    }

    /// A response that pushes `msg` to the client.
    pub fn new_pushed_mix_message(msg: Vec<u8>) -> (response: BinaryResponse)
        ensures
            response@ == BinaryResponseView::PushedMixMessage(msg@),
    {
        BinaryResponse::PushedMixMessage(msg)
    }

    /// The binary websocket message that carries this response's frame.
    pub fn into_ws_message(self, shared_key: &SharedKeys) -> (message: WsMessage)
        ensures
            message matches WsMessage::Binary(bytes) && bytes@ == spec_encrypt_and_tag(
                shared_key@,
                self@.plaintext(),
            ) && bytes@.len() == MAC_SIZE + self@.plaintext().len(),
    {
        WsMessage::Binary(self.into_encrypted_tagged_bytes(shared_key))
    }
}

} // verus!
