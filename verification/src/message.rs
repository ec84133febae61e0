//! The typed payloads of the messages, with how each is written and read.

pub mod header;
pub mod certificate;
pub mod measurement;
pub mod error_response;
pub mod psk_finish;
