//! The responder engine: it validates each request against the state of the
//! connection, answers it, and records the exchange.

pub mod context;
pub mod error_rsp;
pub mod certificate_rsp;
pub mod psk_finish_rsp;
