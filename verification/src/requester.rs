//! The requester engine: one method for each exchange that it starts.

pub mod context;
pub mod handle_error_response_req;
pub mod get_certificate_req;
pub mod get_measurements_req;
