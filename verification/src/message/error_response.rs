//! ERROR, and the RESPOND_IF_READY request that follows a deferral.

use vstd::prelude::*;
use crate::codec::{Reader, Writer};
use crate::error::{SpdmResult, SpdmStatus};
use crate::protocol::SpdmVersion;

verus! {

/// Why a responder refused a request.
#[derive(Clone, Copy, Debug, PartialEq, Eq, Structural)]
pub enum SpdmErrorCode {
    SpdmErrorInvalidRequest,
    SpdmErrorInvalidSession,
    SpdmErrorBusy,
    SpdmErrorUnexpectedRequest,
    SpdmErrorUnspecified,
    SpdmErrorDecryptError,
    SpdmErrorUnsupportedRequest,
    SpdmErrorRequestInFlight,
    SpdmErrorInvalidResponseCode,
    SpdmErrorSessionLimitExceeded,
    SpdmErrorSessionRequired,
    SpdmErrorResetRequired,
    SpdmErrorResponseTooLarge,
    SpdmErrorRequestTooLarge,
    SpdmErrorLargeResponse,
    SpdmErrorMessageLost,
    SpdmErrorVersionMismatch,
    SpdmErrorResponseNotReady,
    SpdmErrorRequestResynch,
    SpdmErrorVendorDefined,
    /// A byte that stands for none of the above.
    Unknown(u8),
}

impl SpdmErrorCode {
    /// The byte that stands for the code on the wire.
    pub open spec fn spec_u8(self) -> u8 {
        match self {
            SpdmErrorCode::SpdmErrorInvalidRequest => 0x01,
            SpdmErrorCode::SpdmErrorInvalidSession => 0x02,
            SpdmErrorCode::SpdmErrorBusy => 0x03,
            SpdmErrorCode::SpdmErrorUnexpectedRequest => 0x04,
            SpdmErrorCode::SpdmErrorUnspecified => 0x05,
            SpdmErrorCode::SpdmErrorDecryptError => 0x06,
            SpdmErrorCode::SpdmErrorUnsupportedRequest => 0x07,
            SpdmErrorCode::SpdmErrorRequestInFlight => 0x08,
            SpdmErrorCode::SpdmErrorInvalidResponseCode => 0x09,
            SpdmErrorCode::SpdmErrorSessionLimitExceeded => 0x0a,
            SpdmErrorCode::SpdmErrorSessionRequired => 0x0b,
            SpdmErrorCode::SpdmErrorResetRequired => 0x0c,
            SpdmErrorCode::SpdmErrorResponseTooLarge => 0x0d,
            SpdmErrorCode::SpdmErrorRequestTooLarge => 0x0e,
            SpdmErrorCode::SpdmErrorLargeResponse => 0x0f,
            SpdmErrorCode::SpdmErrorMessageLost => 0x10,
            SpdmErrorCode::SpdmErrorVersionMismatch => 0x41,
            SpdmErrorCode::SpdmErrorResponseNotReady => 0x42,
            SpdmErrorCode::SpdmErrorRequestResynch => 0x43,
            SpdmErrorCode::SpdmErrorVendorDefined => 0xff,
            SpdmErrorCode::Unknown(b) => b,
        }
    }

    /// The code that a byte stands for.
    pub open spec fn spec_from_u8(b: u8) -> Self {
        if b == 0x01 {
            SpdmErrorCode::SpdmErrorInvalidRequest
        } else if b == 0x02 {
            SpdmErrorCode::SpdmErrorInvalidSession
        } else if b == 0x03 {
            SpdmErrorCode::SpdmErrorBusy
        } else if b == 0x04 {
            SpdmErrorCode::SpdmErrorUnexpectedRequest
        } else if b == 0x05 {
            SpdmErrorCode::SpdmErrorUnspecified
        } else if b == 0x06 {
            SpdmErrorCode::SpdmErrorDecryptError
        } else if b == 0x07 {
            SpdmErrorCode::SpdmErrorUnsupportedRequest
        } else if b == 0x08 {
            SpdmErrorCode::SpdmErrorRequestInFlight
        } else if b == 0x09 {
            SpdmErrorCode::SpdmErrorInvalidResponseCode
        } else if b == 0x0a {
            SpdmErrorCode::SpdmErrorSessionLimitExceeded
        } else if b == 0x0b {
            SpdmErrorCode::SpdmErrorSessionRequired
        } else if b == 0x0c {
            SpdmErrorCode::SpdmErrorResetRequired
        } else if b == 0x0d {
            SpdmErrorCode::SpdmErrorResponseTooLarge
        } else if b == 0x0e {
            SpdmErrorCode::SpdmErrorRequestTooLarge
        } else if b == 0x0f {
            SpdmErrorCode::SpdmErrorLargeResponse
        } else if b == 0x10 {
            SpdmErrorCode::SpdmErrorMessageLost
        } else if b == 0x41 {
            SpdmErrorCode::SpdmErrorVersionMismatch
        } else if b == 0x42 {
            SpdmErrorCode::SpdmErrorResponseNotReady
        } else if b == 0x43 {
            SpdmErrorCode::SpdmErrorRequestResynch
        } else if b == 0xff {
            SpdmErrorCode::SpdmErrorVendorDefined
        } else {
            SpdmErrorCode::Unknown(b)
        }
    }

    /// Whether the code is the one that its own byte is read as.
    pub open spec fn spec_is_canonical(self) -> bool {
        Self::spec_from_u8(self.spec_u8()) == self
    }

    pub fn get_u8(&self) -> (b: u8)
        ensures
            b == self.spec_u8(),
    {
        match self {
            SpdmErrorCode::SpdmErrorInvalidRequest => 0x01,
            SpdmErrorCode::SpdmErrorInvalidSession => 0x02,
            SpdmErrorCode::SpdmErrorBusy => 0x03,
            SpdmErrorCode::SpdmErrorUnexpectedRequest => 0x04,
            SpdmErrorCode::SpdmErrorUnspecified => 0x05,
            SpdmErrorCode::SpdmErrorDecryptError => 0x06,
            SpdmErrorCode::SpdmErrorUnsupportedRequest => 0x07,
            SpdmErrorCode::SpdmErrorRequestInFlight => 0x08,
            SpdmErrorCode::SpdmErrorInvalidResponseCode => 0x09,
            SpdmErrorCode::SpdmErrorSessionLimitExceeded => 0x0a,
            SpdmErrorCode::SpdmErrorSessionRequired => 0x0b,
            SpdmErrorCode::SpdmErrorResetRequired => 0x0c,
            SpdmErrorCode::SpdmErrorResponseTooLarge => 0x0d,
            SpdmErrorCode::SpdmErrorRequestTooLarge => 0x0e,
            SpdmErrorCode::SpdmErrorLargeResponse => 0x0f,
            SpdmErrorCode::SpdmErrorMessageLost => 0x10,
            SpdmErrorCode::SpdmErrorVersionMismatch => 0x41,
            SpdmErrorCode::SpdmErrorResponseNotReady => 0x42,
            SpdmErrorCode::SpdmErrorRequestResynch => 0x43,
            SpdmErrorCode::SpdmErrorVendorDefined => 0xff,
            SpdmErrorCode::Unknown(b) => *b,
        }
    }

    pub fn from_u8(b: u8) -> (r: Self)
        ensures
            r == Self::spec_from_u8(b),
            r.spec_u8() == b,
            r.spec_is_canonical(),
    {
        if b == 0x01 {
            SpdmErrorCode::SpdmErrorInvalidRequest
        } else if b == 0x02 {
            SpdmErrorCode::SpdmErrorInvalidSession
        } else if b == 0x03 {
            SpdmErrorCode::SpdmErrorBusy
        } else if b == 0x04 {
            SpdmErrorCode::SpdmErrorUnexpectedRequest
        } else if b == 0x05 {
            SpdmErrorCode::SpdmErrorUnspecified
        } else if b == 0x06 {
            SpdmErrorCode::SpdmErrorDecryptError
        } else if b == 0x07 {
            SpdmErrorCode::SpdmErrorUnsupportedRequest
        } else if b == 0x08 {
            SpdmErrorCode::SpdmErrorRequestInFlight
        } else if b == 0x09 {
            SpdmErrorCode::SpdmErrorInvalidResponseCode
        } else if b == 0x0a {
            SpdmErrorCode::SpdmErrorSessionLimitExceeded
        } else if b == 0x0b {
            SpdmErrorCode::SpdmErrorSessionRequired
        } else if b == 0x0c {
            SpdmErrorCode::SpdmErrorResetRequired
        } else if b == 0x0d {
            SpdmErrorCode::SpdmErrorResponseTooLarge
        } else if b == 0x0e {
            SpdmErrorCode::SpdmErrorRequestTooLarge
        } else if b == 0x0f {
            SpdmErrorCode::SpdmErrorLargeResponse
        } else if b == 0x10 {
            SpdmErrorCode::SpdmErrorMessageLost
        } else if b == 0x41 {
            SpdmErrorCode::SpdmErrorVersionMismatch
        } else if b == 0x42 {
            SpdmErrorCode::SpdmErrorResponseNotReady
        } else if b == 0x43 {
            SpdmErrorCode::SpdmErrorRequestResynch
        } else if b == 0xff {
            SpdmErrorCode::SpdmErrorVendorDefined
        } else {
            SpdmErrorCode::Unknown(b)
        }
    }
}

/// What a responder adds to an error that defers its answer.
#[derive(Clone, Copy, Debug, PartialEq, Eq, Structural)]
pub struct SpdmErrorResponseNotReadyExtData {
    /// The responder asks for two to this power microseconds.
    pub rdt_exponent: u8,
    /// The code of the request that is deferred.
    pub request_code: u8,
    /// What the requester hands back when it asks again.
    pub token: u8,
    pub rdtm: u8,
}

/// The body of an ERROR response.
#[derive(Clone, Copy, Debug, PartialEq, Eq, Structural)]
pub struct SpdmErrorResponsePayload {
    pub error_code: SpdmErrorCode,
    pub error_data: u8,
    pub extended_data: Option<SpdmErrorResponseNotReadyExtData>,
}

impl SpdmErrorResponsePayload {
    /// Whether the extension is there exactly for a deferral.
    pub open spec fn wf(self) -> bool {
        &&& self.error_code.spec_is_canonical()
        &&& self.extended_data is Some <==> self.error_code
            == SpdmErrorCode::SpdmErrorResponseNotReady
    }

    /// The body on the wire.
    pub open spec fn spec_encode(self) -> Seq<u8> {
        let head = seq![self.error_code.spec_u8(), self.error_data];
        match self.extended_data {
            Some(ext) => head + seq![ext.rdt_exponent, ext.request_code, ext.token, ext.rdtm],
            None => head,
        }
    }

    /// The body that `bytes` start with, if they start with one.
    pub open spec fn spec_read(bytes: Seq<u8>) -> Option<SpdmErrorResponsePayload> {
        if bytes.len() < 2 {
            None
        } else {
            let error_code = SpdmErrorCode::spec_from_u8(bytes[0]);
            if error_code == SpdmErrorCode::SpdmErrorResponseNotReady {
                if bytes.len() < 6 {
                    None
                } else {
                    Some(
                        SpdmErrorResponsePayload {
                            error_code,
                            error_data: bytes[1],
                            extended_data: Some(
                                SpdmErrorResponseNotReadyExtData {
                                    rdt_exponent: bytes[2],
                                    request_code: bytes[3],
                                    token: bytes[4],
                                    rdtm: bytes[5],
                                },
                            ),
                        },
                    )
                }
            } else {
                Some(
                    SpdmErrorResponsePayload { error_code, error_data: bytes[1], extended_data: None },
                )
            }
        }
    }

    /// Write the body, or nothing where it does not fit.
    pub fn spdm_encode(&self, writer: &mut Writer) -> (r: SpdmResult<usize>)
        ensures
            r is Ok <==> old(writer).has_room(self.spec_encode().len()),
            r matches Ok(n) ==> n == self.spec_encode().len() && final(writer).appended_to(
                *old(writer),
                self.spec_encode(),
            ),
            r is Err ==> r == Err::<usize, SpdmStatus>(SpdmStatus::BufferFull) && *final(writer)
                == *old(writer),
    {
        let needed: usize = if self.extended_data.is_some() {
            6
        } else {
            2
        };
        if writer.left() < needed {
            return Err(SpdmStatus::BufferFull);
        }
        let ghost w0 = *writer;
        let _ = writer.push_u8(self.error_code.get_u8());
        let _ = writer.push_u8(self.error_data);
        match self.extended_data {
            Some(ext) => {
                let _ = writer.push_u8(ext.rdt_exponent);
                let _ = writer.push_u8(ext.request_code);
                let _ = writer.push_u8(ext.token);
                let _ = writer.push_u8(ext.rdtm);
            },
            None => {},
        }
        assert(writer@ =~= w0@ + self.spec_encode());
        Ok(needed)
    }

    /// Read a body. The cursor moves on only where there is one.
    pub fn spdm_read(reader: &mut Reader) -> (r: Option<Self>)
        ensures
            r == Self::spec_read(old(reader).remaining()),
            r matches Some(p) ==> p.wf() && final(reader).advanced_from(
                *old(reader),
                p.spec_encode().len(),
            ),
            final(reader).bytes() == old(reader).bytes(),
    {
        let ghost rest = reader.remaining();
        let ghost r0 = *reader;
        if reader.left() < 2 {
            return None;
        }
        let head = match reader.take(2) {
            Some(h) => h,
            None => {
                return None;
            },
        };
        let ghost r2 = *reader;
        proof {
            r2.lemma_advanced(r0, 2);
        }
        let error_code = SpdmErrorCode::from_u8(head[0]);
        let error_data: u8 = head[1];
        if error_code == SpdmErrorCode::SpdmErrorResponseNotReady {
            match reader.take(4) {
                Some(ext) => {
                    Some(
                        SpdmErrorResponsePayload {
                            error_code,
                            error_data,
                            extended_data: Some(
                                SpdmErrorResponseNotReadyExtData {
                                    rdt_exponent: ext[0],
                                    request_code: ext[1],
                                    token: ext[2],
                                    rdtm: ext[3],
                                },
                            ),
                        },
                    )
                },
                None => None,
            }
        } else {
            Some(SpdmErrorResponsePayload { error_code, error_data, extended_data: None })
        }
    }
}

/// An ERROR body that was written is read back as it was.
pub proof fn lemma_error_response_roundtrip(p: SpdmErrorResponsePayload, rest: Seq<u8>)
    requires
        p.wf(),
    ensures
        SpdmErrorResponsePayload::spec_read(p.spec_encode() + rest) == Some(p),
{
    let bytes = p.spec_encode() + rest;
    assert(bytes[0] == p.error_code.spec_u8());
    assert(bytes[1] == p.error_data);
    if p.extended_data is Some {
        let ext = p.extended_data->0;
        assert(bytes[2] == ext.rdt_exponent);
        assert(bytes[3] == ext.request_code);
        assert(bytes[4] == ext.token);
        assert(bytes[5] == ext.rdtm);
    }
}

/// The body of a RESPOND_IF_READY request: which request was deferred, and the token
/// that the responder gave with the deferral.
#[derive(Clone, Copy, Debug, PartialEq, Eq, Structural)]
pub struct SpdmRespondIfReadyRequestPayload {
    pub request_code: u8,
    pub token: u8,
}

impl SpdmRespondIfReadyRequestPayload {
    /// The body on the wire.
    pub open spec fn spec_encode(self) -> Seq<u8> {
        seq![self.request_code, self.token]
    }

    /// The whole request on the wire, in `version`.
    pub open spec fn spec_message(self, version: SpdmVersion) -> Seq<u8> {
        seq![version.spec_u8(), 0xFFu8] + self.spec_encode()
    }

    /// The body that `bytes` start with, if they start with one.
    pub open spec fn spec_read(bytes: Seq<u8>) -> Option<SpdmRespondIfReadyRequestPayload> {
        if bytes.len() < 2 {
            None
        } else {
            Some(SpdmRespondIfReadyRequestPayload { request_code: bytes[0], token: bytes[1] })
        }
    }

    /// Write the body, or nothing where it does not fit.
    pub fn spdm_encode(&self, writer: &mut Writer) -> (r: SpdmResult<usize>)
        ensures
            r is Ok <==> old(writer).has_room(2),
            r is Ok ==> r == Ok::<usize, SpdmStatus>(2) && final(writer).appended_to(
                *old(writer),
                self.spec_encode(),
            ),
            r is Err ==> r == Err::<usize, SpdmStatus>(SpdmStatus::BufferFull) && *final(writer)
                == *old(writer),
    {
        if writer.left() < 2 {
            return Err(SpdmStatus::BufferFull);
        }
        let ghost w0 = *writer;
        let _ = writer.push_u8(self.request_code);
        let _ = writer.push_u8(self.token);
        assert(writer@ =~= w0@ + self.spec_encode());
        Ok(2)
    }

    /// Read a body. The cursor moves on only where there is one.
    pub fn spdm_read(reader: &mut Reader) -> (r: Option<Self>)
        ensures
            r == Self::spec_read(old(reader).remaining()),
            r is Some ==> final(reader).advanced_from(*old(reader), 2),
            final(reader).bytes() == old(reader).bytes(),
    {
        match reader.take(2) {
            Some(b) => Some(SpdmRespondIfReadyRequestPayload { request_code: b[0], token: b[1] }),
            None => None,
        }
    }
}

/// A RESPOND_IF_READY body that was written is read back as it was.
pub proof fn lemma_respond_if_ready_roundtrip(p: SpdmRespondIfReadyRequestPayload, rest: Seq<u8>)
    ensures
        SpdmRespondIfReadyRequestPayload::spec_read(p.spec_encode() + rest) == Some(p),
{
    let bytes = p.spec_encode() + rest;
    assert(bytes[0] == p.request_code);
    assert(bytes[1] == p.token);
}

} // verus!
