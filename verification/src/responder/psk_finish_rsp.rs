//! Answering PSK_FINISH.

use vstd::prelude::*;
use crate::codec::{slice_range, Reader, Writer};
use crate::common::{SpdmDeviceIo, SpdmTransportEncap};
use crate::config::{MAX_SPDM_MESSAGE_BUFFER_SIZE, MAX_SPDM_SESSION_COUNT};
use crate::error::SpdmResult;
use crate::message::error_response::SpdmErrorCode;
use crate::message::header::{SpdmMessageHeader, SpdmRequestResponseCode};
use crate::message::psk_finish::{
    SpdmPskFinishRequest, SpdmPskFinishRequestPayload, SpdmPskFinishResponsePayload,
};
use crate::protocol::{SpdmDigestStruct, SpdmResponseCapabilityFlags, SpdmVersion, SPDM_CAP_PSK};
use crate::responder::context::ResponderContext;
use crate::responder::error_rsp::write_error_message;
use crate::session::{SpdmSession, SpdmSessionState, SpdmSessionTranscript};
use crate::transcript::ManagedBuffer;

verus! {

/// What a responder makes of the PSK_FINISH `request` before it looks at the proof in
/// it: the proof, or the code of the ERROR with which it refuses.
///
/// The request must be a PSK_FINISH in the negotiated version, the responder must be
/// able to use pre-shared keys, the session must have exchanged keys (`session_state`
/// is that of the session, if it is in the table), and the request must carry a proof
/// of `hash_size` bytes.
pub open spec fn spec_psk_finish_check(
    version: SpdmVersion,
    capabilities: SpdmResponseCapabilityFlags,
    session_state: Option<SpdmSessionState>,
    hash_size: nat,
    request: Seq<u8>,
) -> Result<Seq<u8>, SpdmErrorCode> {
    match SpdmMessageHeader::spec_read(request) {
        None => Err(SpdmErrorCode::SpdmErrorInvalidRequest),
        Some(header) => if header.version != version {
            Err(SpdmErrorCode::SpdmErrorVersionMismatch)
        } else if header.request_response_code != SpdmRequestResponseCode::SpdmRequestPskFinish {
            Err(SpdmErrorCode::SpdmErrorUnexpectedRequest)
        } else if !capabilities.spec_contains(SPDM_CAP_PSK) {
            Err(SpdmErrorCode::SpdmErrorUnsupportedRequest)
        } else if session_state != Some(SpdmSessionState::SpdmSessionHandshaking) && session_state
            != Some(SpdmSessionState::SpdmSessionEstablished) {
            Err(SpdmErrorCode::SpdmErrorUnexpectedRequest)
        } else {
            match SpdmPskFinishRequest::spec_read(
                request.subrange(2, request.len() as int),
                hash_size,
            ) {
                None => Err(SpdmErrorCode::SpdmErrorInvalidRequest),
                Some(body) => Ok(body.verify_data),
            }
        },
    }
}

/// What a responder makes of the PSK_FINISH `request`: see `spec_psk_finish_check`.
pub fn psk_finish_check(
    version: SpdmVersion,
    capabilities: SpdmResponseCapabilityFlags,
    session_state: Option<SpdmSessionState>,
    hash_size: u16,
    request: &[u8],
) -> (r: Result<SpdmDigestStruct, SpdmErrorCode>)
    ensures
        match spec_psk_finish_check(version, capabilities, session_state, hash_size as nat, request@) {
            Err(e) => r == Err::<SpdmDigestStruct, SpdmErrorCode>(e),
            Ok(verify_data) => r matches Ok(d) && d.wf() && d.spec_bytes() == verify_data
                && request@.len() >= 4 + hash_size,
        },
{
    let mut reader = Reader::init(request);
    let ghost r0 = reader;
    assert(reader.remaining() =~= request@);
    let header = match SpdmMessageHeader::read(&mut reader) {
        Some(h) => h,
        None => {
            return Err(SpdmErrorCode::SpdmErrorInvalidRequest);
        },
    };
    proof {
        reader.lemma_advanced(r0, 2);
    }
    if header.version != version {
        return Err(SpdmErrorCode::SpdmErrorVersionMismatch);
    }
    if header.request_response_code != SpdmRequestResponseCode::SpdmRequestPskFinish {
        return Err(SpdmErrorCode::SpdmErrorUnexpectedRequest);
    }
    if !capabilities.contains(SPDM_CAP_PSK) {
        return Err(SpdmErrorCode::SpdmErrorUnsupportedRequest);
    }
    match session_state {
        Some(SpdmSessionState::SpdmSessionHandshaking) => {},
        Some(SpdmSessionState::SpdmSessionEstablished) => {},
        _ => {
            return Err(SpdmErrorCode::SpdmErrorUnexpectedRequest);
        },
    }
    match SpdmPskFinishRequestPayload::spdm_read(hash_size, &mut reader) {
        Some(p) => Ok(p.verify_data),
        None => Err(SpdmErrorCode::SpdmErrorInvalidRequest),
    }
}

/// A PSK_FINISH_RSP response on the wire, in `version`.
pub open spec fn spec_psk_finish_rsp_message(version: SpdmVersion) -> Seq<u8> {
    seq![version.spec_u8(), 0x67u8, 0u8, 0u8]
}

/// `first`, `second` and `third` one after the other, where the three fit into one
/// transcript.
pub fn transcript_of(first: &[u8], second: &[u8], third: &[u8]) -> (r: Option<ManagedBuffer>)
    ensures
        r is Some <==> first@.len() + second@.len() + third@.len() <= MAX_SPDM_MESSAGE_BUFFER_SIZE,
        r matches Some(t) ==> t@ == first@ + second@ + third@,
{
    let mut t = ManagedBuffer::new();
    if t.append_message(first).is_err() {
        return None;
    }
    if t.append_message(second).is_err() {
        return None;
    }
    if t.append_message(third).is_err() {
        return None;
    }
    assert(t@ =~= first@ + second@ + third@);
    Some(t)
}

impl<'a, D: SpdmDeviceIo, T: SpdmTransportEncap> ResponderContext<'a, D, T> {
    /// The state of the session `session_id`, if it is in the table.
    pub open spec fn spec_session_state_of(self, session_id: u32) -> Option<SpdmSessionState> {
        match crate::common::spec_session_index(self.common.session@, session_id) {
            Some(i) => Some(self.common.session@[i].spec_session_state()),
            None => None,
        }
    }

    /// What the responder makes of the PSK_FINISH `request` within the session
    /// `session_id` before it looks at the proof in it.
    pub open spec fn spec_psk_finish_checked(self, session_id: u32, request: Seq<u8>) -> Result<
        Seq<u8>,
        SpdmErrorCode,
    > {
        spec_psk_finish_check(
            self.common.negotiate_info.spdm_version_sel,
            self.common.config_info.rsp_capabilities,
            self.spec_session_state_of(session_id),
            self.common.negotiate_info.base_hash_sel.spec_size() as nat,
            request,
        )
    }

    /// Whether the responder has come from `before` by accepting the PSK_FINISH
    /// `request` within the session `session_id`: the session has recorded the request,
    /// up to the end of its proof, and the response, and has the keys of the
    /// established session; nothing else has changed.
    pub open spec fn spec_psk_finish_accepted(self, before: Self, session_id: u32, request: Seq<u8>) -> bool {
        let version = before.common.negotiate_info.spdm_version_sel;
        let hash_size = before.common.negotiate_info.base_hash_sel.spec_size();
        match crate::common::spec_session_index(before.common.session@, session_id) {
            None => false,
            Some(i) => {
                let now = self.common.session@[i];
                let then = before.common.session@[i];
                &&& request.len() >= 4 + hash_size
                &&& now.spec_message(SpdmSessionTranscript::MessageF) == then.spec_message(
                    SpdmSessionTranscript::MessageF,
                ) + request.subrange(0, 4 + hash_size) + spec_psk_finish_rsp_message(version)
                &&& now.spec_message(SpdmSessionTranscript::MessageK) == then.spec_message(
                    SpdmSessionTranscript::MessageK,
                )
                &&& now.spec_message(SpdmSessionTranscript::MessageM) == then.spec_message(
                    SpdmSessionTranscript::MessageM,
                )
                &&& now.spec_session_id() == then.spec_session_id()
                &&& now.spec_session_state() == then.spec_session_state()
                &&& now.spec_use_psk() == then.spec_use_psk()
                &&& now.spec_crypto_param() == then.spec_crypto_param()
                &&& now.spec_phase_secret(false) == then.spec_phase_secret(false)
                &&& crate::key_schedule::spec_phase_ready(
                    now.spec_phase_secret(true),
                    now.spec_crypto_param().base_hash_algo,
                    now.spec_crypto_param().aead_algo,
                )
                &&& forall|j: int|
                    0 <= j < MAX_SPDM_SESSION_COUNT && j != i ==> self.common.session@[j]
                        == before.common.session@[j]
            },
        }
    }

    /// Whether the responder has come from `before` by finishing the handshake of the
    /// session `session_id` on the PSK_FINISH `request`: the session is established and
    /// has recorded the request, up to the end of its proof, and the response; no other
    /// session has changed but in what it has carried.
    pub open spec fn spec_psk_finish_done(self, before: Self, session_id: u32, request: Seq<u8>) -> bool {
        let version = before.common.negotiate_info.spdm_version_sel;
        let hash_size = before.common.negotiate_info.base_hash_sel.spec_size();
        match crate::common::spec_session_index(before.common.session@, session_id) {
            None => false,
            Some(i) => {
                let now = self.common.session@[i];
                let then = before.common.session@[i];
                &&& request.len() >= 4 + hash_size
                &&& now.spec_session_state() == SpdmSessionState::SpdmSessionEstablished
                &&& now.spec_session_id() == session_id
                &&& now.spec_message(SpdmSessionTranscript::MessageF) == then.spec_message(
                    SpdmSessionTranscript::MessageF,
                ) + request.subrange(0, 4 + hash_size) + spec_psk_finish_rsp_message(version)
                &&& now.spec_message(SpdmSessionTranscript::MessageK) == then.spec_message(
                    SpdmSessionTranscript::MessageK,
                )
                &&& now.spec_message(SpdmSessionTranscript::MessageM) == then.spec_message(
                    SpdmSessionTranscript::MessageM,
                )
                &&& forall|j: int|
                    0 <= j < MAX_SPDM_SESSION_COUNT && j != i ==> (
                    #[trigger] self.common.session@[j]).spec_carried_on(before.common.session@[j])
            },
        }
    }

    /// What the responder makes of the PSK_FINISH `request` once the answer `verified`
    /// of the check of its proof is known. A proof that does not hold, or could not be
    /// checked, is a decrypt error. A proof that holds lets the responder go on: it
    /// gives the session at `index` with the request, up to the end of its proof, and
    /// the response recorded and nothing else changed; where the transcript has no
    /// room for them, the failure is unspecified.
    pub fn psk_finish_after_proof(&self, index: usize, request: &[u8], verified: SpdmResult) -> (r:
        Result<SpdmSession, SpdmErrorCode>)
        requires
            index < MAX_SPDM_SESSION_COUNT,
            request@.len() >= 4 + self.common.negotiate_info.base_hash_sel.spec_size(),
        ensures
            match verified {
                Err(_) => r == Err::<SpdmSession, SpdmErrorCode>(
                    SpdmErrorCode::SpdmErrorDecryptError,
                ),
                Ok(_) => match self.spec_psk_finish_recorded(index as int, request@) {
                    Some(recorded) => r matches Ok(now) && now.spec_same_but_message(
                        self.common.session@[index as int],
                        SpdmSessionTranscript::MessageF,
                    ) && now.spec_message(SpdmSessionTranscript::MessageF) == recorded,
                    None => r == Err::<SpdmSession, SpdmErrorCode>(
                        SpdmErrorCode::SpdmErrorUnspecified,
                    ),
                },
            },
    {
        match verified {
            Err(_) => Err(SpdmErrorCode::SpdmErrorDecryptError),
            Ok(()) => match self.psk_finish_record(index, request) {
                Some(session) => Ok(session),
                None => Err(SpdmErrorCode::SpdmErrorUnspecified),
            },
        }
    }

    /// Whether the handshake of the session at `index` can be finished as far as the
    /// state of the responder tells: the transcripts have room for the request, up to
    /// the end of its proof, and the response; the primitives that the proof and the
    /// new keys need are registered; and the handshake has left the secret and the key
    /// that they are drawn from and checked with.
    pub open spec fn spec_psk_finish_preparable(self, index: int) -> bool {
        let session = self.common.session@[index];
        &&& self.common.runtime_info.message_a@.len() + session.spec_message(
            SpdmSessionTranscript::MessageK,
        ).len() + session.spec_message(SpdmSessionTranscript::MessageF).len() + 4
            + self.common.negotiate_info.base_hash_sel.spec_size() + 4
            <= MAX_SPDM_MESSAGE_BUFFER_SIZE
        &&& self.common.crypto.hash is Some
        &&& self.common.crypto.hmac is Some
        &&& self.common.crypto.hkdf is Some
        &&& session.spec_phase_secret(false).request_finished_key.wf()
        &&& session.spec_phase_secret(false).main_secret.wf()
    }

    /// Whether the digest of everything that the proof of a PSK_FINISH covers can be
    /// asked for: the negotiation, the key exchange, what the session has recorded of
    /// the finish and the first four bytes of the request fit into one transcript, and
    /// a hash is registered.
    pub open spec fn spec_psk_finish_coverable(self, index: int) -> bool {
        let session = self.common.session@[index];
        &&& self.common.runtime_info.message_a@.len() + session.spec_message(
            SpdmSessionTranscript::MessageK,
        ).len() + session.spec_message(SpdmSessionTranscript::MessageF).len() + 4
            <= MAX_SPDM_MESSAGE_BUFFER_SIZE
        &&& self.common.crypto.hash is Some
    }

    /// Everything that the proof of the PSK_FINISH `request` covers: the negotiation,
    /// the key exchange, what the session at `index` has recorded of the finish, and
    /// the first four bytes of the request; nothing where they do not fit into one
    /// transcript.
    pub open spec fn spec_psk_finish_covered(self, index: int, request: Seq<u8>) -> Option<Seq<u8>> {
        let session = self.common.session@[index];
        let covered = self.common.runtime_info.message_a@ + session.spec_message(
            SpdmSessionTranscript::MessageK,
        ) + session.spec_message(SpdmSessionTranscript::MessageF) + request.subrange(0, 4);
        if covered.len() <= MAX_SPDM_MESSAGE_BUFFER_SIZE {
            Some(covered)
        } else {
            None
        }
    }

    /// Everything that the proof of the PSK_FINISH `request` covers: see
    /// `spec_psk_finish_covered`.
    fn psk_finish_covered(&self, index: usize, request: &[u8]) -> (r: Option<ManagedBuffer>)
        requires
            index < MAX_SPDM_SESSION_COUNT,
            request@.len() >= 4,
        ensures
            match self.spec_psk_finish_covered(index as int, request@) {
                Some(covered) => r matches Some(t) && t@ == covered,
                None => r is None,
            },
            r is Some <==> self.common.runtime_info.message_a@.len()
                + self.common.session@[index as int].spec_message(
                SpdmSessionTranscript::MessageK,
            ).len() + self.common.session@[index as int].spec_message(
                SpdmSessionTranscript::MessageF,
            ).len() + 4 <= MAX_SPDM_MESSAGE_BUFFER_SIZE,
    {
        let session = &self.common.session[index];
        let mut covered = match transcript_of(
            self.common.runtime_info.message_a.as_ref(),
            session.message(SpdmSessionTranscript::MessageK),
            session.message(SpdmSessionTranscript::MessageF),
        ) {
            Some(t) => t,
            None => {
                return None;
            },
        };
        match covered.append_message(slice_range(request, 0, 4)) {
            Ok(_) => Some(covered),
            Err(_) => None,
        }
    }

    /// What the session at `index` has recorded of the finish once the PSK_FINISH
    /// `request` is accepted: what it had, the request up to the end of its proof, and
    /// the response; nothing where they do not fit into the transcript.
    pub open spec fn spec_psk_finish_recorded(self, index: int, request: Seq<u8>) -> Option<Seq<u8>> {
        let recorded = self.common.session@[index].spec_message(SpdmSessionTranscript::MessageF)
            + request.subrange(0, 4 + self.common.negotiate_info.base_hash_sel.spec_size())
            + spec_psk_finish_rsp_message(self.common.negotiate_info.spdm_version_sel);
        if recorded.len() <= MAX_SPDM_MESSAGE_BUFFER_SIZE {
            Some(recorded)
        } else {
            None
        }
    }

    /// The session at `index` with the PSK_FINISH `request`, up to the end of its
    /// proof, and the response recorded, and nothing else changed; nothing where the
    /// transcript has no room for them.
    fn psk_finish_record(&self, index: usize, request: &[u8]) -> (r: Option<SpdmSession>)
        requires
            index < MAX_SPDM_SESSION_COUNT,
            request@.len() >= 4 + self.common.negotiate_info.base_hash_sel.spec_size(),
        ensures
            match self.spec_psk_finish_recorded(index as int, request@) {
                Some(recorded) => r matches Some(now) && now.spec_same_but_message(
                    self.common.session@[index as int],
                    SpdmSessionTranscript::MessageF,
                ) && now.spec_message(SpdmSessionTranscript::MessageF) == recorded,
                None => r is None,
            },
    {
        let version = self.common.negotiate_info.spdm_version_sel;
        let hash_size: usize = self.common.negotiate_info.base_hash_sel.get_size() as usize;
        let mut session = self.common.session[index];
        let ghost then = session;
        let mut response = Writer::init(4);
        let header = SpdmMessageHeader {
            version,
            request_response_code: SpdmRequestResponseCode::SpdmResponsePskFinishRsp,
        };
        let _ = header.encode(&mut response);
        let _ = (SpdmPskFinishResponsePayload {  }).spdm_encode(&mut response);
        assert(response@ =~= spec_psk_finish_rsp_message(version));
        if session.append_message(
            SpdmSessionTranscript::MessageF,
            slice_range(request, 0, 4 + hash_size),
        ).is_err() {
            return None;
        }
        let ghost middle = session;
        if session.append_message(SpdmSessionTranscript::MessageF, response.used_slice()).is_err() {
            return None;
        }
        proof {
            assert forall|other: SpdmSessionTranscript|
                other != SpdmSessionTranscript::MessageF implies session.spec_message(other)
                == then.spec_message(other) by {
                assert(middle.spec_message(other) == then.spec_message(other));
            }
        }
        Some(session)
    }

    /// Check the proof in the PSK_FINISH `request` and prepare what accepting it brings:
    /// the session with the request and the response recorded and with the keys of
    /// the established session. The proof is the keyed digest, under the key with
    /// which the requester proves the handshake, of the digest of everything
    /// exchanged up to the proof.
    ///
    /// The primitives decide whether the proof holds and whether the keys can be
    /// drawn. Where what the proof covers cannot be put together or digested, the
    /// failure is unspecified; a proof that was looked at and does not hold, or cannot
    /// be checked, is a decrypt error; whatever fails after that is unspecified again.
    fn psk_finish_prepare(
        &self,
        index: usize,
        request: &[u8],
        verify_data: &SpdmDigestStruct,
    ) -> (r: Result<SpdmSession, SpdmErrorCode>)
        requires
            index < MAX_SPDM_SESSION_COUNT,
            verify_data.wf(),
            request@.len() >= 4 + self.common.negotiate_info.base_hash_sel.spec_size(),
        ensures
            r is Ok ==> self.spec_psk_finish_preparable(index as int),
            r matches Err(e) ==> e == SpdmErrorCode::SpdmErrorUnspecified || e
                == SpdmErrorCode::SpdmErrorDecryptError,
            !self.spec_psk_finish_coverable(index as int) ==> r == Err::<SpdmSession, SpdmErrorCode>(
                SpdmErrorCode::SpdmErrorUnspecified,
            ),
            r == Err::<SpdmSession, SpdmErrorCode>(SpdmErrorCode::SpdmErrorDecryptError)
                ==> self.spec_psk_finish_coverable(index as int),
            self.spec_psk_finish_coverable(index as int) && (self.common.crypto.hmac is None
                || !self.common.session@[index as int].spec_phase_secret(
                false,
            ).request_finished_key.wf()) ==> r is Err,
            r matches Ok(now) ==> {
                let then = self.common.session@[index as int];
                let version = self.common.negotiate_info.spdm_version_sel;
                let hash_size = self.common.negotiate_info.base_hash_sel.spec_size();
                &&& now.spec_message(SpdmSessionTranscript::MessageF) == then.spec_message(
                    SpdmSessionTranscript::MessageF,
                ) + request@.subrange(0, 4 + hash_size) + spec_psk_finish_rsp_message(version)
                &&& now.spec_message(SpdmSessionTranscript::MessageK) == then.spec_message(
                    SpdmSessionTranscript::MessageK,
                )
                &&& now.spec_message(SpdmSessionTranscript::MessageM) == then.spec_message(
                    SpdmSessionTranscript::MessageM,
                )
                &&& now.spec_session_id() == then.spec_session_id()
                &&& now.spec_session_state() == then.spec_session_state()
                &&& now.spec_use_psk() == then.spec_use_psk()
                &&& now.spec_crypto_param() == then.spec_crypto_param()
                &&& now.spec_phase_secret(false) == then.spec_phase_secret(false)
                &&& crate::key_schedule::spec_phase_ready(
                    now.spec_phase_secret(true),
                    now.spec_crypto_param().base_hash_algo,
                    now.spec_crypto_param().aead_algo,
                )
            },
    {
        let version = self.common.negotiate_info.spdm_version_sel;
        let hash_algo = self.common.negotiate_info.base_hash_sel;
        let message_a = self.common.runtime_info.message_a.as_ref();
        // The proof covers everything up to itself.
        let covered = match self.psk_finish_covered(index, request) {
            Some(t) => t,
            None => {
                return Err(SpdmErrorCode::SpdmErrorUnspecified);
            },
        };
        let th = match self.common.crypto.hash_all(hash_algo, covered.as_ref()) {
            Ok(d) => d,
            Err(_) => {
                return Err(SpdmErrorCode::SpdmErrorUnspecified);
            },
        };
        let verified = self.common.session[index].verify_hmac_with_request_finished_key(
            &self.common.crypto,
            th.as_ref(),
            verify_data,
        );
        let mut session = self.psk_finish_after_proof(index, request, verified)?;
        // The keys of the established session are bound to the whole handshake.
        let whole = match transcript_of(
            message_a,
            session.message(SpdmSessionTranscript::MessageK),
            session.message(SpdmSessionTranscript::MessageF),
        ) {
            Some(t) => t,
            None => {
                return Err(SpdmErrorCode::SpdmErrorUnspecified);
            },
        };
        let th2 = match self.common.crypto.hash_all(hash_algo, whole.as_ref()) {
            Ok(d) => d,
            Err(_) => {
                return Err(SpdmErrorCode::SpdmErrorUnspecified);
            },
        };
        if session.generate_data_secret(&self.common.crypto, version, th2.as_ref()).is_err() {
            return Err(SpdmErrorCode::SpdmErrorUnspecified);
        }
        Ok(session)
    }

    /// Write the answer to the PSK_FINISH `bytes`, which came within the session
    /// `session_id`, into `writer`. The result says whether a PSK_FINISH_RSP was
    /// written; otherwise an ERROR was, or nothing where `writer` has no room for four
    /// bytes, and nothing of the responder has changed: the session is in the state it
    /// was in and has recorded nothing.
    pub fn write_spdm_psk_finish_response(
        &mut self,
        session_id: u32,
        bytes: &[u8],
        writer: &mut Writer,
    ) -> (ok: bool)
        ensures
            final(self).common.spec_same_outside_sessions(old(self).common),
            !old(writer).has_room(4) ==> !ok && *final(writer) == *old(writer),
            old(writer).has_room(4) ==> (old(self).spec_psk_finish_checked(session_id, bytes@)
                matches Err(e) ==> !ok && final(writer).appended_to(
                *old(writer),
                crate::responder::error_rsp::spec_error_message(
                    old(self).common.negotiate_info.spdm_version_sel,
                    e,
                    0,
                ),
            )),
            !ok ==> final(self).common.session == old(self).common.session,
            ok ==> (crate::common::spec_session_index(old(self).common.session@, session_id)
                matches Some(index) && old(self).spec_psk_finish_preparable(index)),
            !ok && old(writer).has_room(4) && old(self).spec_psk_finish_checked(session_id, bytes@)
                is Ok ==> final(writer).appended_to(
                *old(writer),
                crate::responder::error_rsp::spec_error_message(
                    old(self).common.negotiate_info.spdm_version_sel,
                    SpdmErrorCode::SpdmErrorUnspecified,
                    0,
                ),
            ) || final(writer).appended_to(
                *old(writer),
                crate::responder::error_rsp::spec_error_message(
                    old(self).common.negotiate_info.spdm_version_sel,
                    SpdmErrorCode::SpdmErrorDecryptError,
                    0,
                ),
            ),
            !ok && old(writer).has_room(4) ==> exists|e: SpdmErrorCode|
                final(writer).appended_to(
                    *old(writer),
                    #[trigger] crate::responder::error_rsp::spec_error_message(
                        old(self).common.negotiate_info.spdm_version_sel,
                        e,
                        0,
                    ),
                ),
            ok ==> final(writer).appended_to(
                *old(writer),
                spec_psk_finish_rsp_message(old(self).common.negotiate_info.spdm_version_sel),
            ) && final(self).spec_psk_finish_accepted(*old(self), session_id, bytes@),
    {
        let version = self.common.negotiate_info.spdm_version_sel;
        if writer.left() < 4 {
            return false;
        }
        let hash_size: u16 = self.common.negotiate_info.base_hash_sel.get_size();
        let index = self.common.get_session_index(session_id);
        let session_state = match index {
            Some(i) => Some(self.common.session[i].get_session_state()),
            None => None,
        };
        let verify_data = match psk_finish_check(
            version,
            self.common.config_info.rsp_capabilities,
            session_state,
            hash_size,
            bytes,
        ) {
            Ok(d) => d,
            Err(e) => {
                let _ = write_error_message(version, e, 0, writer);
                return false;
            },
        };
        let index: usize = match index {
            Some(i) => i,
            None => {
                let _ = write_error_message(
                    version,
                    SpdmErrorCode::SpdmErrorUnexpectedRequest,
                    0,
                    writer,
                );
                return false;
            },
        };
        match self.psk_finish_prepare(index, bytes, &verify_data) {
            Ok(session) => {
                self.common.session[index] = session;
                let ghost w0 = *writer;
                let header = SpdmMessageHeader {
                    version,
                    request_response_code: SpdmRequestResponseCode::SpdmResponsePskFinishRsp,
                };
                let _ = header.encode(writer);
                let _ = (SpdmPskFinishResponsePayload {  }).spdm_encode(writer);
                assert(writer@ =~= w0@ + spec_psk_finish_rsp_message(version));
                true
            },
            Err(e) => {
                let _ = write_error_message(version, e, 0, writer);
                false
            },
        }
    }

    /// Whether the PSK_FINISH `request` within the session `session_id` can finish the
    /// handshake as far as the request and the state of the responder tell: the
    /// request passes the checks that come before its proof, and the handshake of the
    /// session can be finished.
    pub open spec fn spec_psk_finish_possible(self, session_id: u32, request: Seq<u8>) -> bool {
        &&& self.spec_psk_finish_checked(session_id, request) is Ok
        &&& crate::common::spec_session_index(self.common.session@, session_id) matches Some(index)
        &&& self.spec_psk_finish_preparable(
            crate::common::spec_session_index(self.common.session@, session_id)->0,
        )
    }

    /// Answer the PSK_FINISH `bytes`, which came within the session `session_id`.
    ///
    /// A request that passes finishes the handshake: the answer goes out within the
    /// session, and the session is established with its new keys. Any other request
    /// is answered with an ERROR in the clear, and leaves the session in the state it
    /// was in, with what it had recorded. The result is that of sending the answer:
    /// a failure is one of sending, or one of protecting the answer within the
    /// session.
    pub fn handle_spdm_psk_finish(&mut self, session_id: u32, bytes: &[u8]) -> (r: SpdmResult)
        ensures
            r matches Err(e) ==> e.spec_send_failure() || e.spec_protect_failure(),
            !old(self).spec_psk_finish_possible(session_id, bytes@)
                ==> final(self).common.spec_sent_in_clear(old(self).common, r),
            final(self).common.session == old(self).common.session
                ==> final(self).common.spec_sent_in_clear(old(self).common, r),
            final(self).common.spec_same_outside_sessions(old(self).common),
            old(self).spec_psk_finish_checked(session_id, bytes@) is Err
                ==> final(self).common.session == old(self).common.session,
            final(self).common.session == old(self).common.session
                || final(self).spec_session_state_of(session_id) == Some(
                SpdmSessionState::SpdmSessionEstablished,
            ),
            final(self).common.session == old(self).common.session
                || final(self).spec_psk_finish_done(*old(self), session_id, bytes@),
    {
        let mut writer = Writer::init(MAX_SPDM_MESSAGE_BUFFER_SIZE);
        if self.write_spdm_psk_finish_response(session_id, bytes, &mut writer) {
            let ghost accepted = self.common.session@;
            proof {
                crate::common::lemma_session_index(old(self).common.session@, session_id, 0);
                assert forall|j: int| 0 <= j < MAX_SPDM_SESSION_COUNT implies (
                #[trigger] accepted[j]).spec_session_id()
                    == old(self).common.session@[j].spec_session_id() by {}
                crate::common::lemma_session_index_same_ids(
                    accepted,
                    old(self).common.session@,
                    session_id,
                    0,
                );
            }
            let r = self.send_secured_message(session_id, writer.used_slice(), false);
            let ghost sent = self.common.session@;
            proof {
                assert forall|j: int| 0 <= j < MAX_SPDM_SESSION_COUNT implies (
                #[trigger] sent[j]).spec_session_id() == accepted[j].spec_session_id() by {
                    assert(self.common.session@[j].spec_carried_on(accepted[j]));
                }
                crate::common::lemma_session_index_same_ids(sent, accepted, session_id, 0);
            }
            match self.common.get_session_index(session_id) {
                Some(i) => {
                    let mut session = self.common.session[i];
                    assert(session.spec_carried_on(accepted[i as int]));
                    let established = session.set_session_state(
                        SpdmSessionState::SpdmSessionEstablished,
                    );
                    assert(established is Ok);
                    self.common.session[i] = session;
                    proof {
                        assert forall|j: int| 0 <= j < MAX_SPDM_SESSION_COUNT && j != i implies (
                        #[trigger] self.common.session@[j]).spec_carried_on(
                            old(self).common.session@[j],
                        ) by {
                            assert(sent[j].spec_carried_on(accepted[j]));
                            assert(accepted[j] == old(self).common.session@[j]);
                        }
                        assert forall|j: int| 0 <= j < MAX_SPDM_SESSION_COUNT implies (
                        #[trigger] self.common.session@[j]).spec_session_id()
                            == sent[j].spec_session_id() by {}
                        crate::common::lemma_session_index_same_ids(
                            self.common.session@,
                            sent,
                            session_id,
                            0,
                        );
                    }
                },
                None => {},
            }
            r
        } else {
            self.send_message(writer.used_slice())
        }
    }
}

} // verus!
