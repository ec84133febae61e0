//! The single tagged error that an exchange reports.

use vstd::prelude::*;

verus! {

/// Why an exchange, or a step of one, did not produce its value.
#[derive(Clone, Copy, Debug, PartialEq, Eq, Structural)]
pub enum SpdmStatus {
    /// A writer or a transcript accumulator has no room for the bytes.
    BufferFull,
    /// The caller broke the contract of the call.
    InvalidParameter,
    /// State that the step needs is absent on this side.
    InvalidStateLocal,
    /// A field of a received message is malformed or contradicts another one.
    InvalidMsgField,
    /// The peer answered with an error that cannot be recovered from here.
    ErrorPeer,
    /// A cryptographic primitive failed.
    CryptoError,
    /// A certificate chain failed pinning or verification.
    InvalidCert,
    /// The peer deferred its answer.
    NotReadyPeer,
    /// The transport adapter rejected a received frame.
    DecapFail,
    /// The transport adapter could not frame an outgoing message.
    EncapFail,
    /// A per-direction sequence number is exhausted; the session must end.
    SequenceNumberOverflow,
    /// The device failed to send.
    SendFail,
    /// The device failed to receive.
    ReceiveFail,
    /// No implementation is registered for the primitive.
    Unsupported,
}

impl SpdmStatus {
    /// Whether the error is one with which sending a frame fails: the transport could
    /// not frame the message, or the device could not send the frame.
    pub open spec fn spec_send_failure(self) -> bool {
        self == SpdmStatus::EncapFail || self == SpdmStatus::SendFail
    }

    /// Whether the error is one with which receiving a frame fails: the device could
    /// not receive, or the transport rejected what came.
    pub open spec fn spec_receive_failure(self) -> bool {
        self == SpdmStatus::ReceiveFail || self == SpdmStatus::DecapFail
    }

    /// Whether the error is one with which a session refuses to protect a message, or
    /// fails to: the session is not in the table, has not started or lacks its keys,
    /// the transport asks for more of the sequence number than there is, the direction
    /// has carried all the messages it can, or the cipher is missing or fails.
    pub open spec fn spec_protect_failure(self) -> bool {
        ||| self == SpdmStatus::InvalidParameter
        ||| self == SpdmStatus::InvalidStateLocal
        ||| self == SpdmStatus::SequenceNumberOverflow
        ||| self == SpdmStatus::Unsupported
        ||| self == SpdmStatus::CryptoError
    }

    /// Whether the error is one with which a session refuses to open a secured
    /// message, or fails to: one with which it cannot protect, or a frame whose fields
    /// are not those of the next message of the session.
    pub open spec fn spec_open_failure(self) -> bool {
        self.spec_protect_failure() || self == SpdmStatus::InvalidMsgField
    }
}

pub type SpdmResult<T = ()> = Result<T, SpdmStatus>;

} // verus!
