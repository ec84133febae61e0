//! The responder and how it talks to the requester.

use vstd::prelude::*;
use crate::codec::{Reader, Writer};
use crate::message::error_response::SpdmErrorCode;
use crate::message::header::{SpdmMessageHeader, SpdmRequestResponseCode};
use crate::common::{SpdmConfigInfo, SpdmContext, SpdmDeviceIo, SpdmProvisionInfo, SpdmTransportEncap};
use crate::config::{MAX_SPDM_SESSION_COUNT, SPDM_MAX_SLOT_NUMBER};
use crate::crypto::SpdmCryptoRegistry;
use crate::error::{SpdmResult, SpdmStatus};
use crate::protocol::SpdmVersion;

verus! {

/// The responder side of one connection.
pub struct ResponderContext<'a, D: SpdmDeviceIo, T: SpdmTransportEncap> {
    pub common: SpdmContext<'a, D, T>,
}

impl<'a, D: SpdmDeviceIo, T: SpdmTransportEncap> ResponderContext<'a, D, T> {
    /// A responder on which nothing has happened yet. No primitive is registered.
    pub fn new(
        device_io: &'a mut D,
        transport_encap: &'a mut T,
        config_info: SpdmConfigInfo,
        provision_info: SpdmProvisionInfo,
    ) -> (r: Self)
        ensures
            r.common.config_info == config_info,
            r.common.provision_info == provision_info,
            r.common.crypto.hash is None,
            r.common.crypto.hmac is None,
            r.common.crypto.hkdf is None,
            r.common.negotiate_info.spdm_version_sel == SpdmVersion::SpdmVersion10,
            r.common.runtime_info.message_a@ == Seq::<u8>::empty(),
            r.common.runtime_info.message_b@ == Seq::<u8>::empty(),
            r.common.runtime_info.message_c@ == Seq::<u8>::empty(),
            r.common.runtime_info.message_m@ == Seq::<u8>::empty(),
            forall|i: int|
                0 <= i < SPDM_MAX_SLOT_NUMBER ==> r.common.peer_info.peer_cert_chain@[i] is None,
            forall|i: int|
                0 <= i < MAX_SPDM_SESSION_COUNT ==> (#[trigger] r.common.session@[i]).spec_is_blank(),
    {
        ResponderContext {
            common: SpdmContext::new(
                device_io,
                transport_encap,
                SpdmCryptoRegistry::new(),
                config_info,
                provision_info,
            ),
        }
    }

    /// Send a response in the clear. The state of the connection stays as it is; a
    /// failure is the transport's or the device's.
    pub fn send_message(&mut self, send_buffer: &[u8]) -> (r: SpdmResult)
        ensures
            final(self).common.spec_same_state(old(self).common),
            final(self).common.spec_sent_in_clear(old(self).common, r),
    {
        self.common.send_message(send_buffer)
    }

    /// Receive one request and answer it. The result says that a request came and an
    /// answer, which may be an ERROR, went out; a failure is one of receiving or
    /// opening the request, or one of protecting or sending the answer. Where nothing
    /// could be received, nothing has changed. The only transcript of the connection
    /// that an answer adds to is the one of digests and certificate, and only by what
    /// answering some GET_CERTIFICATE in the clear records.
    pub fn process_message(&mut self) -> (r: SpdmResult)
        ensures
            r matches Err(e) ==> e.spec_receive_failure() || e.spec_open_failure()
                || e.spec_send_failure(),
            r == Err::<(), SpdmStatus>(SpdmStatus::ReceiveFail) ==> final(self).common.spec_same_state(old(self).common),
            final(self).common.runtime_info.message_b@ == old(self).common.runtime_info.message_b@
                || exists|request: Seq<u8>|
                final(self).common.runtime_info.message_b@ == (#[trigger] old(self).spec_certificate_reply(None, request)).1,
            final(self).common.crypto == old(self).common.crypto,
            final(self).common.config_info == old(self).common.config_info,
            final(self).common.negotiate_info == old(self).common.negotiate_info,
            final(self).common.provision_info == old(self).common.provision_info,
            final(self).common.peer_info == old(self).common.peer_info,
            final(self).common.runtime_info.message_a == old(self).common.runtime_info.message_a,
            final(self).common.runtime_info.message_c == old(self).common.runtime_info.message_c,
            final(self).common.runtime_info.message_m == old(self).common.runtime_info.message_m,
            old(self).common.runtime_info.message_b@.is_prefix_of(
                final(self).common.runtime_info.message_b@,
            ),
    {
        let ghost before_b = self.common.runtime_info.message_b@;
        assert(before_b.subrange(0, before_b.len() as int) =~= before_b);
        let (session_id, request) = self.common.receive_any_message(false)?;
        let ghost received = *self;
        let r = self.dispatch_message(session_id, request.as_slice());
        proof {
            let reply = received.spec_certificate_reply(session_id, request@);
            let after = self.common.runtime_info.message_b@;
            if after != before_b {
                assert(session_id is None);
                assert(after == old(self).spec_certificate_reply(None, request@).1);
            }
            if after != before_b {
                let tail = after.subrange(before_b.len() as int, after.len() as int);
                assert(after.subrange(0, before_b.len() as int) =~= before_b);
            }
        }
        r
    }

    /// What kind of request `bytes` is, if it starts as a message does.
    pub open spec fn spec_request_code(bytes: Seq<u8>) -> Option<SpdmRequestResponseCode> {
        match SpdmMessageHeader::spec_read(bytes) {
            Some(header) => Some(header.request_response_code),
            None => None,
        }
    }

    /// Answer the request `bytes`, which came within the session `session_id` or in
    /// the clear. A request that the responder does not serve is answered with an
    /// ERROR that says so.
    pub fn dispatch_message(&mut self, session_id: Option<u32>, bytes: &[u8]) -> (r: SpdmResult)
        ensures
            r matches Err(e) ==> e.spec_send_failure() || (session_id is Some
                && e.spec_protect_failure()),
            Self::spec_request_code(bytes@) != Some(
                SpdmRequestResponseCode::SpdmRequestGetCertificate,
            ) && Self::spec_request_code(bytes@) != Some(
                SpdmRequestResponseCode::SpdmRequestPskFinish,
            ) ==> final(self).spec_answered(*old(self), session_id, r),
            final(self).common.crypto == old(self).common.crypto,
            final(self).common.config_info == old(self).common.config_info,
            final(self).common.negotiate_info == old(self).common.negotiate_info,
            final(self).common.provision_info == old(self).common.provision_info,
            final(self).common.peer_info == old(self).common.peer_info,
            final(self).common.runtime_info.message_a == old(self).common.runtime_info.message_a,
            final(self).common.runtime_info.message_c == old(self).common.runtime_info.message_c,
            final(self).common.runtime_info.message_m == old(self).common.runtime_info.message_m,
            final(self).common.runtime_info.message_b@ == if Self::spec_request_code(bytes@)
                == Some(SpdmRequestResponseCode::SpdmRequestGetCertificate) {
                old(self).spec_certificate_reply(session_id, bytes@).1
            } else {
                old(self).common.runtime_info.message_b@
            },
            !(Self::spec_request_code(bytes@) == Some(
                SpdmRequestResponseCode::SpdmRequestPskFinish,
            ) && session_id is Some) ==> final(self).common.spec_sessions_carried_on(
                old(self).common,
            ),
    {
        proof {
            crate::common::lemma_table_carried_on(
                self.common.session@,
                self.common.session@,
                self.common.session@,
            );
        }
        let mut reader = Reader::init(bytes);
        assert(reader.remaining() =~= bytes@);
        let code = match SpdmMessageHeader::read(&mut reader) {
            Some(header) => header.request_response_code,
            None => {
                return self.answer_with_error(session_id, SpdmErrorCode::SpdmErrorInvalidRequest);
            },
        };
        match code {
            SpdmRequestResponseCode::SpdmRequestGetCertificate => self.handle_spdm_certificate(
                session_id,
                bytes,
            ),
            SpdmRequestResponseCode::SpdmRequestPskFinish => match session_id {
                Some(id) => self.handle_spdm_psk_finish(id, bytes),
                None => self.answer_with_error(None, SpdmErrorCode::SpdmErrorUnexpectedRequest),
            },
            _ => self.answer_with_error(session_id, SpdmErrorCode::SpdmErrorUnsupportedRequest),
        }
    }

    /// Whether `r` and the responder are what sending an answer the way the request
    /// came leaves: within the session `session_id` as
    /// `SpdmContext::spec_sent_secured` says, or in the clear as
    /// `SpdmContext::spec_sent_in_clear` says.
    pub open spec fn spec_answered(self, before: Self, session_id: Option<u32>, r: SpdmResult) -> bool {
        match session_id {
            Some(id) => self.common.spec_sent_secured(before.common, id, false, r),
            None => self.common.spec_sent_in_clear(before.common, r),
        }
    }

    /// Answer with an ERROR that carries `error_code` and no data, the way the request
    /// came: within the session `session_id`, or in the clear. The ERROR changes
    /// nothing of the connection but what sending it does.
    pub fn answer_with_error(&mut self, session_id: Option<u32>, error_code: SpdmErrorCode) -> (r:
        SpdmResult)
        ensures
            final(self).common.spec_same_outside_sessions(old(self).common),
            final(self).common.spec_sessions_carried_on(old(self).common),
            session_id is None ==> final(self).common.spec_same_state(old(self).common),
            final(self).spec_answered(*old(self), session_id, r),
    {
        proof {
            crate::common::lemma_table_carried_on(
                self.common.session@,
                self.common.session@,
                self.common.session@,
            );
        }
        let mut writer = Writer::init(4);
        let _ = self.write_spdm_error(error_code, 0, &mut writer);
        match session_id {
            Some(id) => self.send_secured_message(id, writer.used_slice(), false),
            None => self.send_message(writer.used_slice()),
        }
    }

    /// Send a response within the session `session_id`, in the direction of responses:
    /// what comes of it is what `SpdmContext::spec_sent_secured` says.
    pub fn send_secured_message(
        &mut self,
        session_id: u32,
        send_buffer: &[u8],
        is_app_message: bool,
    ) -> (r: SpdmResult)
        ensures
            final(self).common.spec_same_outside_sessions(old(self).common),
            final(self).common.spec_sessions_carried_on(old(self).common),
            final(self).common.spec_sent_secured(old(self).common, session_id, false, r),
    {
        self.common.send_secured_message(session_id, send_buffer, false, is_app_message)
    }
}

} // verus!
