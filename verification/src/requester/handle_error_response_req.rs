//! What the requester does when the responder answers with an ERROR.

use vstd::prelude::*;
use crate::codec::{Reader, Writer};
use crate::common::{SpdmDeviceIo, SpdmTransportEncap};
use crate::config::{MAX_SPDM_MESSAGE_BUFFER_SIZE, MAX_SPDM_RETRY_COUNT};
use crate::error::{SpdmResult, SpdmStatus};
use crate::message::error_response::{
    SpdmErrorResponsePayload, SpdmRespondIfReadyRequestPayload,
};
use crate::message::header::{SpdmMessageHeader, SpdmRequestResponseCode};
use crate::protocol::SpdmVersion;
use crate::requester::context::RequesterContext;

verus! {

/// What follows from an ERROR response.
#[derive(Clone, Copy, Debug, PartialEq, Eq, Structural)]
pub enum SpdmErrorResponseAction {
    /// The responder deferred its answer: ask again with this RESPOND_IF_READY.
    RespondIfReady(SpdmRespondIfReadyRequestPayload),
    /// The exchange ends with this error.
    Fail(SpdmStatus),
}

impl SpdmErrorResponseAction {
/// What follows from the message `response` for an exchange whose request had the
/// code `request_code`. Only a well-formed deferral of that very request is followed;
/// any other well-formed ERROR is a fault of the peer, and anything else has a bad
/// field. The exchange decides which versions it takes a response in; what follows
/// from an ERROR goes by what the ERROR says.
pub open spec fn spec_of(
    response: Seq<u8>,
    request_code: SpdmRequestResponseCode,
) -> SpdmErrorResponseAction {
    match SpdmMessageHeader::spec_read(response) {
        None => SpdmErrorResponseAction::Fail(SpdmStatus::InvalidMsgField),
        Some(header) => if header.request_response_code
            != SpdmRequestResponseCode::SpdmResponseError {
            SpdmErrorResponseAction::Fail(SpdmStatus::InvalidMsgField)
        } else {
            match SpdmErrorResponsePayload::spec_read(response.subrange(2, response.len() as int)) {
                None => SpdmErrorResponseAction::Fail(SpdmStatus::InvalidMsgField),
                Some(payload) => match payload.extended_data {
                    Some(ext) => if ext.request_code == request_code.spec_u8() {
                        SpdmErrorResponseAction::RespondIfReady(
                            SpdmRespondIfReadyRequestPayload {
                                request_code: ext.request_code,
                                token: ext.token,
                            },
                        )
                    } else {
                        SpdmErrorResponseAction::Fail(SpdmStatus::InvalidMsgField)
                    },
                    None => SpdmErrorResponseAction::Fail(SpdmStatus::ErrorPeer),
                },
            }
        },
    }
}
}

/// How many deferrals an exchange has followed once it follows one more, where it has
/// followed `followed` so far: a responder that has deferred as often as an exchange
/// follows is given up as not ready.
pub open spec fn spec_follow_deferral(followed: usize) -> SpdmResult<usize> {
    if followed >= MAX_SPDM_RETRY_COUNT {
        Err(SpdmStatus::NotReadyPeer)
    } else {
        Ok((followed + 1) as usize)
    }
}

/// Count one more deferral, or give the responder up: see `spec_follow_deferral`.
pub fn follow_deferral(followed: usize) -> (r: SpdmResult<usize>)
    ensures
        r == spec_follow_deferral(followed),
{
    if followed >= MAX_SPDM_RETRY_COUNT {
        Err(SpdmStatus::NotReadyPeer)
    } else {
        Ok(followed + 1)
    }
}

/// What follows from the message `response`.
pub fn classify_error_response(
    response: &[u8],
    request_code: SpdmRequestResponseCode,
) -> (r: SpdmErrorResponseAction)
    ensures
        r == SpdmErrorResponseAction::spec_of(response@, request_code),
{
    let mut reader = Reader::init(response);
    let ghost r0 = reader;
    assert(reader.remaining() =~= response@);
    let header = match SpdmMessageHeader::read(&mut reader) {
        Some(h) => h,
        None => {
            return SpdmErrorResponseAction::Fail(SpdmStatus::InvalidMsgField);
        },
    };
    proof {
        reader.lemma_advanced(r0, 2);
    }
    if header.request_response_code != SpdmRequestResponseCode::SpdmResponseError {
        return SpdmErrorResponseAction::Fail(SpdmStatus::InvalidMsgField);
    }
    let payload = match SpdmErrorResponsePayload::spdm_read(&mut reader) {
        Some(p) => p,
        None => {
            return SpdmErrorResponseAction::Fail(SpdmStatus::InvalidMsgField);
        },
    };
    match payload.extended_data {
        Some(ext) => {
            if ext.request_code == request_code.get_u8() {
                SpdmErrorResponseAction::RespondIfReady(
                    SpdmRespondIfReadyRequestPayload {
                        request_code: ext.request_code,
                        token: ext.token,
                    },
                )
            } else {
                SpdmErrorResponseAction::Fail(SpdmStatus::InvalidMsgField)
            }
        },
        None => SpdmErrorResponseAction::Fail(SpdmStatus::ErrorPeer),
    }
}


/// A RESPOND_IF_READY request on the wire.
pub fn encode_respond_if_ready(version: SpdmVersion, payload: SpdmRespondIfReadyRequestPayload) -> (r:
    Vec<u8>)
    ensures
        r@ == payload.spec_message(version),
{
    let mut writer = Writer::init(4);
    let header = SpdmMessageHeader {
        version,
        request_response_code: SpdmRequestResponseCode::SpdmRequestResponseIfReady,
    };
    let _ = header.encode(&mut writer);
    let _ = payload.spdm_encode(&mut writer);
    let mut r: Vec<u8> = Vec::new();
    r.extend_from_slice(writer.used_slice());
    r
}

impl<'a, D: SpdmDeviceIo, T: SpdmTransportEncap> RequesterContext<'a, D, T> {
    /// Act on the ERROR `response` to a request with the code `request_code`.
    /// Where the responder deferred that request, ask again with the token it gave and
    /// hand back what comes, for the exchange to handle in place of `response`. In
    /// every other case the exchange ends, and nothing is sent.
    pub fn spdm_handle_error_response_main(
        &mut self,
        session_id: Option<u32>,
        response: &[u8],
        request_code: SpdmRequestResponseCode,
    ) -> (r: SpdmResult<Vec<u8>>)
        ensures
            SpdmErrorResponseAction::spec_of(
                response@,
                request_code,
            ) matches SpdmErrorResponseAction::Fail(e) ==> r == Err::<Vec<u8>, SpdmStatus>(e)
                && final(self).common.spec_same_state(old(self).common),
            r matches Ok(m) ==> m@.len() <= MAX_SPDM_MESSAGE_BUFFER_SIZE,
            final(self).common.spec_same_outside_sessions(old(self).common),
            final(self).common.spec_sessions_carried_on(old(self).common),
            session_id is None ==> final(self).common.spec_same_state(old(self).common),
    {
        let version = self.common.negotiate_info.spdm_version_sel;
        proof {
            crate::common::lemma_table_carried_on(
                self.common.session@,
                self.common.session@,
                self.common.session@,
            );
        }
        match classify_error_response(response, request_code) {
            SpdmErrorResponseAction::Fail(e) => Err(e),
            SpdmErrorResponseAction::RespondIfReady(payload) => {
                let request = encode_respond_if_ready(version, payload);
                self.send_receive(session_id, request.as_slice())
            },
        }
    }
}

} // verus!
