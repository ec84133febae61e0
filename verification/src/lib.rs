//! Requester and responder engines of the Security Protocol and Data Model (SPDM).
//!
//! A requester fetches and anchors the certificate chain of a responder and asks for
//! its measurements; a responder answers, and finishes the handshake of a session that
//! rests on a pre-shared key. Both record what they exchange in bounded transcripts and
//! protect the messages of a session with its keys. The channel, the framing of the
//! transport and every cryptographic primitive are the embedder's: the engine reaches
//! them through the traits in `common` and `crypto` and checks what comes back.
//!
//! Each transcript keeps the bytes that were exchanged; there is no mode that keeps
//! running digests in their place.

pub mod config;
pub mod error;
pub mod codec;
pub mod protocol;
pub mod transcript;
pub mod message;
pub mod crypto;
pub mod session;
pub mod key_schedule;
pub mod common;
pub mod requester;
pub mod responder;
