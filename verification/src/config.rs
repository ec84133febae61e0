//! Compile-time sizing of every working buffer of the engine.

use vstd::prelude::*;

verus! {

/// Capacity of a send buffer, of a receive buffer and of each transcript accumulator.
pub const MAX_SPDM_MESSAGE_BUFFER_SIZE: usize = 0x1200;

/// Capacity of the buffer that holds one framed message on its way to or from the device.
pub const MAX_SPDM_TRANSPORT_SIZE: usize = 0x1300;

/// Capacity of the buffer that holds one certificate chain.
pub const MAX_SPDM_CERT_CHAIN_DATA_SIZE: usize = 0x1000;

/// Largest number of certificate-chain bytes asked for in one GET_CERTIFICATE.
pub const MAX_SPDM_CERT_PORTION_LEN: usize = 0x400;

/// Largest measurement record accepted in one MEASUREMENTS response.
pub const MAX_SPDM_MEASUREMENT_RECORD_SIZE: usize = 0x1000;

/// Largest opaque-data field accepted in a response.
pub const MAX_SPDM_OPAQUE_SIZE: usize = 1024;

/// Number of certificate slots of a device.
pub const SPDM_MAX_SLOT_NUMBER: usize = 8;

/// Number of entries of the session table.
pub const MAX_SPDM_SESSION_COUNT: usize = 4;

/// Size of the nonce of a GET_MEASUREMENTS request and of its response.
pub const SPDM_NONCE_SIZE: usize = 32;

/// Size of the largest digest of the negotiable hash algorithms.
pub const SPDM_MAX_HASH_SIZE: usize = 64;

/// Size of the largest signature of the negotiable asymmetric algorithms.
pub const SPDM_MAX_ASYM_KEY_SIZE: usize = 512;

/// Size of the largest AEAD key.
pub const SPDM_MAX_AEAD_KEY_SIZE: usize = 32;

/// Size of the largest AEAD nonce.
pub const SPDM_MAX_AEAD_IV_SIZE: usize = 12;

/// Size of the largest AEAD tag.
pub const SPDM_MAX_AEAD_TAG_SIZE: usize = 16;

/// How many times one exchange follows a deferral of the peer before it gives up.
pub const MAX_SPDM_RETRY_COUNT: usize = 4;

} // verus!
