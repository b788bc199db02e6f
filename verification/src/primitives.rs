//! The primitives that other crates supply: the keyed MAC, the stream cipher,
//! base58 text and the sphinx packet parser.
//!
//! Nothing in this file is proved. Each function states what the crate it
//! calls documents, and the rest of the library is verified against that.

use vstd::prelude::*;
use ctr::cipher::{KeyIvInit, StreamCipher};
use hmac::{KeyInit, Mac};

verus! {

/// Length in bytes of an authentication tag.
pub const MAC_SIZE: usize = 32;

/// Length in bytes of a stream cipher key.
pub const CIPHER_KEY_SIZE: usize = 16;

/// Length in bytes of a stream cipher initialisation vector.
pub const CIPHER_IV_SIZE: usize = 16;

/// Length in bytes of a serialized sphinx header.
pub const SPHINX_HEADER_SIZE: usize = 348;

/// Bytes that a sphinx payload holds besides the message it carries.
pub const SPHINX_PAYLOAD_OVERHEAD_SIZE: usize = 17;

/// The HMAC of `data` under `key`, with BLAKE3 as its hash function.
pub uninterp spec fn keyed_mac(key: Seq<u8>, data: Seq<u8>) -> Seq<u8>;

/// What AES-128 in counter mode (128-bit big-endian counter) makes of `data`
/// when started from `iv` under `key`: `data` XORed with the keystream.
pub uninterp spec fn stream_cipher_output(key: Seq<u8>, iv: Seq<u8>, data: Seq<u8>) -> Seq<u8>;

/// The base58 text (Bitcoin alphabet) of `bytes`.
pub uninterp spec fn base58_text(bytes: Seq<u8>) -> Seq<char>;

/// Calls `hmac::SimpleHmac::<blake3::Hasher>`: `new_from_slice`, `update`, then
/// `finalize`. The result is the tag of `data` under `key`; it depends on
/// nothing else and is `MAC_SIZE` bytes long, the output size of BLAKE3.
/// HMAC takes a key of any length.
#[verifier::external_body]
pub(crate) fn compute_keyed_hmac(key: &[u8], data: &[u8]) -> (tag: Vec<u8>)
    ensures
        tag@ == keyed_mac(key@, data@),
        tag@.len() == MAC_SIZE,
{
    let mut mac = hmac::SimpleHmac::<blake3::Hasher>::new_from_slice(key)
        .expect("HMAC takes a key of any length");
    mac.update(data);
    mac.finalize().into_bytes().to_vec()
}

/// Calls `hmac::Mac::verify_slice` on a `SimpleHmac::<blake3::Hasher>` that
/// was fed `data` under `key`. It answers `true` exactly when `tag` is the
/// whole tag of `data`, and compares in constant time.
#[verifier::external_body]
pub(crate) fn recompute_keyed_hmac_and_verify_tag(key: &[u8], data: &[u8], tag: &[u8]) -> (ok: bool)
    ensures
        ok == (tag@ == keyed_mac(key@, data@)),
{
    let mut mac = hmac::SimpleHmac::<blake3::Hasher>::new_from_slice(key)
        .expect("HMAC takes a key of any length");
    mac.update(data);
    mac.verify_slice(tag).is_ok()
}

/// Calls `apply_keystream` of `ctr::Ctr128BE<aes::Aes128>` on a copy of `data`.
/// The cipher XORs `data` with a keystream that `key` and `iv` fix, so the
/// result is as long as `data`, and the same call on the result gives `data`
/// back: encryption and decryption are one operation. A cipher that was just
/// made has keystream left for any length a slice can have.
#[verifier::external_body]
pub(crate) fn apply_stream_cipher(key: &[u8], iv: &[u8], data: &[u8]) -> (out: Vec<u8>)
    requires
        key@.len() == CIPHER_KEY_SIZE,
        iv@.len() == CIPHER_IV_SIZE,
    ensures
        out@ == stream_cipher_output(key@, iv@, data@),
        out@.len() == data@.len(),
        stream_cipher_output(key@, iv@, out@) == data@,
{
    let mut cipher = ctr::Ctr128BE::<aes::Aes128>::new_from_slices(key, iv)
        .expect("key and iv have the cipher's sizes");
    let mut out = data.to_vec();
    cipher.apply_keystream(&mut out);
    out
}

/// Calls `bs58::encode(..).into_string()`, which uses the Bitcoin alphabet.
#[verifier::external_body]
pub(crate) fn base58_encode(bytes: &[u8]) -> (text: String)
    ensures
        text@ == base58_text(bytes@),
{
    bs58::encode(bytes).into_string()
}

/// Calls `sphinx_packet::SphinxPacket::from_bytes` and says whether it gave a
/// packet. It splits off a header of `SPHINX_HEADER_SIZE` bytes, which always
/// parses, and takes the rest as the payload, which must hold at least
/// `SPHINX_PAYLOAD_OVERHEAD_SIZE` bytes: only the length decides.
#[verifier::external_body]
pub(crate) fn sphinx_packet_parses(bytes: &[u8]) -> (ok: bool)
    ensures
        ok == (bytes@.len() >= SPHINX_HEADER_SIZE + SPHINX_PAYLOAD_OVERHEAD_SIZE),
{
    sphinx_packet::SphinxPacket::from_bytes(bytes).is_ok()
}

} // verus!
