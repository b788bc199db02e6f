//! Client-to-gateway transport of a mixnet: the authenticated, encrypted wire
//! protocol between a client and its entry gateway, and the policy by which
//! outbound packets are handed to the gateway connection.
//!
//! Binary messages travel in frames, a tag followed by the ciphertext it
//! authenticates ([`shared_keys`]); a frame holds a request to forward a
//! sphinx packet or a message pushed by the gateway ([`binary`]). Control
//! messages are JSON documents with a discriminant ([`control`], [`json`]).
//! The dispatch policy and its count of failed sends are in [`mix_traffic`].
//! What other crates compute is behind the functions of [`primitives`].

pub mod addressing;
pub mod binary;
pub mod control;
pub mod error;
pub mod json;
pub mod mix_traffic;
pub mod packet;
pub mod primitives;
pub mod shared_keys;
