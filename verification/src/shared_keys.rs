//! The symmetric keys that a client and its gateway share, and the frame they
//! protect every binary message with: an authentication tag followed by the
//! ciphertext it covers.

use vstd::prelude::*;
use vstd::slice::{slice_subrange, slice_to_vec};
use crate::error::GatewayRequestsError;
use crate::primitives::{
    apply_stream_cipher, compute_keyed_hmac, keyed_mac, recompute_keyed_hmac_and_verify_tag,
    stream_cipher_output, CIPHER_IV_SIZE, CIPHER_KEY_SIZE, MAC_SIZE,
};

verus! {

/// Length in bytes of the key that tags are computed under.
pub const MAC_KEY_SIZE: usize = 16;

/// Length in bytes of the two keys laid side by side.
pub const SHARED_KEY_SIZE: usize = 32;

/// Why bytes could not be taken as shared keys.
#[derive(Debug, Clone, Copy, PartialEq, Eq, Structural)]
pub enum SharedKeyConversionError {
    /// The bytes are not exactly as long as the two keys together.
    BytesOfInvalidLengthError,
}

/// The keys derived once per connection: one to encrypt under, one to
/// authenticate under. They are never serialized for the wire and cannot be
/// printed.
pub struct SharedKeys {
    encryption_key: Vec<u8>,
    mac_key: Vec<u8>,
}

/// What a [`SharedKeys`] holds, as mathematical byte sequences.
pub struct SharedKeysView {
    pub encryption_key: Seq<u8>,
    pub mac_key: Seq<u8>,
}

impl View for SharedKeys {
    type V = SharedKeysView;

    closed spec fn view(&self) -> SharedKeysView {
        SharedKeysView { encryption_key: self.encryption_key@, mac_key: self.mac_key@ }
    }
}

/// The initialisation vector that every frame is encrypted with: all zeroes.
///
/// One vector for every frame is sound only while no two plaintexts under one
/// key are equal. Sphinx packets carry their own randomness; a message type
/// that does not must bring a vector of its own.
pub open spec fn zero_iv() -> Seq<u8> {
    Seq::new(CIPHER_IV_SIZE as nat, |i: int| 0u8)
}

/// The frame of `plaintext` under `keys`: the tag of the ciphertext, then the
/// ciphertext.
pub open spec fn spec_encrypt_and_tag(keys: SharedKeysView, plaintext: Seq<u8>) -> Seq<u8> {
    let ciphertext = stream_cipher_output(keys.encryption_key, zero_iv(), plaintext);
    keyed_mac(keys.mac_key, ciphertext) + ciphertext
}

/// The tag that a frame carries in front. Meaningful for frames of at least
/// `MAC_SIZE` bytes.
pub open spec fn frame_tag(frame: Seq<u8>) -> Seq<u8> {
    frame.subrange(0, MAC_SIZE as int)
}

/// The ciphertext that follows a frame's tag.
pub open spec fn frame_ciphertext(frame: Seq<u8>) -> Seq<u8> {
    frame.subrange(MAC_SIZE as int, frame.len() as int)
}

/// What opening `frame` under `keys` gives: the plaintext, or the reason for
/// which the frame is rejected.
pub open spec fn spec_decrypt_tagged(keys: SharedKeysView, frame: Seq<u8>) -> Result<
    Seq<u8>,
    GatewayRequestsError,
> {
    if frame.len() < MAC_SIZE {
        Err(GatewayRequestsError::TooShortRequest)
    } else if frame_tag(frame) != keyed_mac(keys.mac_key, frame_ciphertext(frame)) {
        Err(GatewayRequestsError::InvalidMAC)
    } else {
        Ok(stream_cipher_output(keys.encryption_key, zero_iv(), frame_ciphertext(frame)))
    }
}

/// Whether an exec result of opening a frame is the one that the model gives.
pub open spec fn decrypted_as(
    result: Result<Vec<u8>, GatewayRequestsError>,
    model: Result<Seq<u8>, GatewayRequestsError>,
) -> bool {
    match result {
        Ok(plaintext) => model == Ok::<Seq<u8>, GatewayRequestsError>(plaintext@),
        Err(e) => model == Err::<Seq<u8>, GatewayRequestsError>(e),
    }
}

impl SharedKeys {
    #[verifier::type_invariant]
    spec fn well_formed(self) -> bool {
        &&& self.encryption_key@.len() == CIPHER_KEY_SIZE
        &&& self.mac_key@.len() == MAC_KEY_SIZE
    }

    /// Takes the first half of `bytes` as the encryption key and the second
    /// half as the MAC key. Bytes of any other length than both keys together
    /// are refused.
    pub fn try_from_bytes(bytes: &[u8]) -> (result: Result<SharedKeys, SharedKeyConversionError>)
        ensures
            bytes@.len() == SHARED_KEY_SIZE <==> result is Ok,
            result matches Ok(keys) ==> {
                &&& keys@.encryption_key == bytes@.subrange(0, CIPHER_KEY_SIZE as int)
                &&& keys@.mac_key == bytes@.subrange(CIPHER_KEY_SIZE as int, SHARED_KEY_SIZE as int)
            },
            result matches Err(e) ==> e == SharedKeyConversionError::BytesOfInvalidLengthError,
    {
        if bytes.len() != SHARED_KEY_SIZE {
            return Err(SharedKeyConversionError::BytesOfInvalidLengthError);
        }
        let encryption_key = slice_to_vec(slice_subrange(bytes, 0, CIPHER_KEY_SIZE));
        let mac_key = slice_to_vec(slice_subrange(bytes, CIPHER_KEY_SIZE, SHARED_KEY_SIZE));
        Ok(SharedKeys { encryption_key, mac_key })
    }

    /// The two keys side by side, encryption key first: what
    /// [`SharedKeys::try_from_bytes`] reads.
    pub fn to_bytes(&self) -> (bytes: Vec<u8>)
        ensures
            bytes@ == self@.encryption_key + self@.mac_key,
            bytes@.len() == SHARED_KEY_SIZE,
    {
        proof {
            use_type_invariant(self);
        }
        let mut bytes = self.encryption_key.clone();
        bytes.extend_from_slice(self.mac_key.as_slice());
        bytes
    }

    /// The key that frames are encrypted under.
    pub fn encryption_key(&self) -> (key: &[u8])
        ensures
            key@ == self@.encryption_key,
            key@.len() == CIPHER_KEY_SIZE,
    {
        proof {
            use_type_invariant(self);
        }
        self.encryption_key.as_slice()
    }

    /// The key that tags are computed under.
    pub fn mac_key(&self) -> (key: &[u8])
        ensures
            key@ == self@.mac_key,
            key@.len() == MAC_KEY_SIZE,
    {
        proof {
            use_type_invariant(self);
        }
        self.mac_key.as_slice()
    }

    /// Encrypts `plaintext` with the zero vector and puts the tag of the
    /// ciphertext in front of it. Opening the frame under the same keys gives
    /// `plaintext` back.
    pub fn encrypt_and_tag(&self, plaintext: &[u8]) -> (frame: Vec<u8>)
        ensures
            frame@ == spec_encrypt_and_tag(self@, plaintext@),
            frame@.len() == MAC_SIZE + plaintext@.len(),
            spec_decrypt_tagged(self@, frame@) == Ok::<Seq<u8>, GatewayRequestsError>(plaintext@),
    {
        let iv = zero_iv_bytes();
        let ciphertext = apply_stream_cipher(self.encryption_key(), iv.as_slice(), plaintext);
        let mut frame = compute_keyed_hmac(self.mac_key(), ciphertext.as_slice());
        let ghost tag = frame@;
        frame.extend_from_slice(ciphertext.as_slice());
        proof {
            assert(frame_tag(frame@) == tag);
            assert(frame_ciphertext(frame@) == ciphertext@);
        }
        frame
    }

    /// Opens a frame: checks its length, verifies the tag over the ciphertext
    /// in constant time, and only then decrypts.
    pub fn decrypt_tagged(&self, frame: &[u8]) -> (result: Result<Vec<u8>, GatewayRequestsError>)
        ensures
            decrypted_as(result, spec_decrypt_tagged(self@, frame@)),
            frame@.len() < MAC_SIZE ==> result is Err
                && result->Err_0 == GatewayRequestsError::TooShortRequest,
            result matches Ok(plaintext) ==> plaintext@.len() == frame@.len() - MAC_SIZE,
    {
        if frame.len() < MAC_SIZE {
            return Err(GatewayRequestsError::TooShortRequest);
        }
        let mac_tag = slice_subrange(frame, 0, MAC_SIZE);
        let message_bytes = slice_subrange(frame, MAC_SIZE, frame.len());
        if !recompute_keyed_hmac_and_verify_tag(self.mac_key(), message_bytes, mac_tag) {
            return Err(GatewayRequestsError::InvalidMAC);
        }
        let iv = zero_iv_bytes();
        Ok(apply_stream_cipher(self.encryption_key(), iv.as_slice(), message_bytes))
    }
}

/// A frame that opens stops opening once a byte of its tag is altered: it is
/// rejected for its MAC, wherever in the tag the byte stands.
pub proof fn lemma_altered_tag_is_rejected(keys: SharedKeysView, frame: Seq<u8>, at: int, byte: u8)
    requires
        spec_decrypt_tagged(keys, frame) is Ok,
        0 <= at < MAC_SIZE,
        byte != frame[at],
    ensures
        spec_decrypt_tagged(keys, frame.update(at, byte)) == Err::<Seq<u8>, GatewayRequestsError>(
            GatewayRequestsError::InvalidMAC,
        ),
{
    let altered = frame.update(at, byte);
    assert(frame_ciphertext(altered) =~= frame_ciphertext(frame));
    assert(frame_tag(altered)[at] == byte);
    assert(frame_tag(frame)[at] == frame[at]);
}

/// A frame that opens and has a byte of its ciphertext altered is rejected
/// for its MAC, unless the altered ciphertext has the very tag of the old
/// one: only a collision of the MAC lets it through.
pub proof fn lemma_altered_ciphertext_is_rejected(
    keys: SharedKeysView,
    frame: Seq<u8>,
    at: int,
    byte: u8,
)
    requires
        spec_decrypt_tagged(keys, frame) is Ok,
        MAC_SIZE <= at < frame.len(),
        byte != frame[at],
    ensures
        frame_ciphertext(frame.update(at, byte)) != frame_ciphertext(frame),
        keyed_mac(keys.mac_key, frame_ciphertext(frame.update(at, byte))) != keyed_mac(
            keys.mac_key,
            frame_ciphertext(frame),
        ) ==> spec_decrypt_tagged(keys, frame.update(at, byte)) == Err::<
            Seq<u8>,
            GatewayRequestsError,
        >(GatewayRequestsError::InvalidMAC),
{
    let altered = frame.update(at, byte);
    assert(frame_tag(altered) =~= frame_tag(frame));
    assert(frame_ciphertext(altered)[at - MAC_SIZE] == byte);
    assert(frame_ciphertext(frame)[at - MAC_SIZE] == frame[at]);
}

/// The zero initialisation vector as bytes.
fn zero_iv_bytes() -> (iv: Vec<u8>)
    ensures
        iv@ == zero_iv(),
{
    let mut iv: Vec<u8> = Vec::new();
    while iv.len() < CIPHER_IV_SIZE
        invariant
            iv@.len() <= CIPHER_IV_SIZE,
            forall|i: int| 0 <= i < iv@.len() ==> iv@[i] == 0u8,
        decreases CIPHER_IV_SIZE - iv@.len(),
    {
        iv.push(0u8);
    }
    assert(iv@ =~= zero_iv());
    iv
}

} // verus!
