//! Asking the responder for its measurements, and checking the signature over them.

use vstd::prelude::*;
use crate::codec::{copy_to_front, slice_range, Reader, Writer};
use crate::common::{SpdmDeviceIo, SpdmTransportEncap};
use crate::config::{
    MAX_SPDM_CERT_CHAIN_DATA_SIZE, MAX_SPDM_MESSAGE_BUFFER_SIZE, MAX_SPDM_RETRY_COUNT,
    MAX_SPDM_SESSION_COUNT, SPDM_MAX_SLOT_NUMBER, SPDM_NONCE_SIZE,
};
use crate::error::{SpdmResult, SpdmStatus};
use crate::message::header::{SpdmMessageHeader, SpdmRequestResponseCode};
use crate::message::measurement::{
    SpdmGetMeasurementsRequest, SpdmGetMeasurementsRequestPayload, SpdmMeasurementContentChanged,
    SpdmMeasurementOperation, SpdmMeasurementeAttributes, SpdmMeasurementsResponse,
    SpdmMeasurementsResponsePayload,
};
use crate::protocol::{SpdmNonceStruct, SpdmSignatureStruct, SpdmVersion};
use crate::requester::context::{classify_response_code, RequesterContext, SpdmResponseClass};
use crate::requester::handle_error_response_req::{follow_deferral, SpdmErrorResponseAction};
use crate::session::SpdmSessionTranscript;
use crate::transcript::ManagedBuffer;

verus! {

/// What a MEASUREMENTS response that reads well says, and what it adds to the
/// transcript of measurements.
pub struct SpdmMeasurementRecordParsed {
    /// The number that the exchange reports.
    pub number: u8,
    /// What the response says of changes, where its header names the third version.
    pub content_changed: Option<SpdmMeasurementContentChanged>,
    /// How many bytes of the response are recorded: the response up to its signature.
    pub recorded_len: nat,
    /// The signature that ends the response; empty where none was asked for.
    pub signature: Seq<u8>,
}

impl SpdmMeasurementRecordParsed {
    /// The number that an exchange for `operation` reports: how many measurements the
    /// responder has, where that was the question; else how many blocks came.
    pub open spec fn spec_number(
        operation: SpdmMeasurementOperation,
        body: SpdmMeasurementsResponse,
    ) -> u8 {
        match operation {
            SpdmMeasurementOperation::SpdmMeasurementQueryTotalNumber => body.number_of_measurement,
            _ => body.number_of_blocks,
        }
    }

    /// What the requester reads out of `response`, which is not an ERROR: the response
    /// must be a MEASUREMENTS, whatever version its header names, that reads in the
    /// negotiated version `version` as one with a signature of `signature_size` bytes
    /// at its end, and its record must be as many well-formed blocks as it says, with
    /// digests of `measurement_hash_size` bytes. What it says of changes counts where
    /// its header names the third version.
    pub open spec fn spec_of(
        version: SpdmVersion,
        signature_size: nat,
        measurement_hash_size: nat,
        operation: SpdmMeasurementOperation,
        response: Seq<u8>,
    ) -> SpdmResult<SpdmMeasurementRecordParsed> {
        match SpdmResponseClass::spec_of_code(
            SpdmRequestResponseCode::SpdmResponseMeasurements,
            response,
        ) {
            SpdmResponseClass::Rejected(e) => Err(e),
            SpdmResponseClass::PeerError => Err(SpdmStatus::ErrorPeer),
            SpdmResponseClass::Expected => match SpdmMeasurementsResponse::spec_read(
                response.subrange(2, response.len() as int),
                version,
                signature_size,
            ) {
                None => Err(SpdmStatus::InvalidMsgField),
                Some((body, body_len)) => if !crate::message::measurement::spec_blocks_well_formed(
                    body.measurement_record,
                    body.number_of_blocks as nat,
                    measurement_hash_size,
                ) {
                    Err(SpdmStatus::InvalidMsgField)
                } else {
                    Ok(
                        SpdmMeasurementRecordParsed {
                            number: Self::spec_number(operation, body),
                            content_changed: if (SpdmMessageHeader::spec_read(
                                response,
                            ) matches Some(header) && header.version
                                == SpdmVersion::SpdmVersion12) {
                                Some(body.content_changed)
                            } else {
                                None
                            },
                            recorded_len: (2 + body_len - signature_size) as nat,
                            signature: body.signature,
                        },
                    )
                },
            },
        }
    }
}

/// The sixteen bytes that are repeated four times at the start of everything that is
/// signed from the third version on: `dmtf-spdm-v1.2.*`.
pub open spec fn spec_signing_prefix_unit() -> Seq<u8> {
    seq![
        0x64u8, 0x6d, 0x74, 0x66, 0x2d, 0x73, 0x70, 0x64, 0x6d, 0x2d, 0x76, 0x31, 0x2e, 0x32, 0x2e,
        0x2a,
    ]
}

/// What names a signature over measurements: `responder-measurements signing`.
pub open spec fn spec_measurement_sign_context() -> Seq<u8> {
    seq![
        0x72u8, 0x65, 0x73, 0x70, 0x6f, 0x6e, 0x64, 0x65, 0x72, 0x2d, 0x6d, 0x65, 0x61, 0x73, 0x75,
        0x72, 0x65, 0x6d, 0x65, 0x6e, 0x74, 0x73, 0x20, 0x73, 0x69, 0x67, 0x6e, 0x69, 0x6e, 0x67,
    ]
}

/// What the responder signs for a transcript `transcript` of measurements whose digest
/// is `digest`. Up to the second version it is the transcript itself. From the third
/// version on it is one hundred bytes of context (the prefix four times, six zero
/// bytes, and the name of the signature) and then the digest.
pub open spec fn spec_measurement_signing_data(
    version: SpdmVersion,
    transcript: Seq<u8>,
    digest: Seq<u8>,
) -> Seq<u8> {
    if version == SpdmVersion::SpdmVersion12 {
        spec_signing_prefix_unit() + spec_signing_prefix_unit() + spec_signing_prefix_unit()
            + spec_signing_prefix_unit() + Seq::new(6, |i: int| 0u8)
            + spec_measurement_sign_context() + digest
    } else {
        transcript
    }
}

/// What the responder signs from the third version on, for a transcript of
/// measurements whose digest is `digest`.
pub fn measurement_signing_data_v12(digest: &[u8]) -> (r: Vec<u8>)
    ensures
        r@ == spec_measurement_signing_data(SpdmVersion::SpdmVersion12, Seq::empty(), digest@),
        r@.len() == 100 + digest@.len(),
{
    let unit: [u8; 16] = [
        0x64, 0x6d, 0x74, 0x66, 0x2d, 0x73, 0x70, 0x64, 0x6d, 0x2d, 0x76, 0x31, 0x2e, 0x32, 0x2e,
        0x2a,
    ];
    let context: [u8; 30] = [
        0x72, 0x65, 0x73, 0x70, 0x6f, 0x6e, 0x64, 0x65, 0x72, 0x2d, 0x6d, 0x65, 0x61, 0x73, 0x75,
        0x72, 0x65, 0x6d, 0x65, 0x6e, 0x74, 0x73, 0x20, 0x73, 0x69, 0x67, 0x6e, 0x69, 0x6e, 0x67,
    ];
    let zeros: [u8; 6] = [0, 0, 0, 0, 0, 0];
    assert(unit@ =~= spec_signing_prefix_unit());
    assert(context@ =~= spec_measurement_sign_context());
    assert(zeros@ =~= Seq::new(6, |i: int| 0u8));
    let mut r: Vec<u8> = Vec::new();
    r.extend_from_slice(&unit);
    r.extend_from_slice(&unit);
    r.extend_from_slice(&unit);
    r.extend_from_slice(&unit);
    r.extend_from_slice(&zeros);
    r.extend_from_slice(&context);
    r.extend_from_slice(digest);
    assert(r@ =~= spec_measurement_signing_data(
        SpdmVersion::SpdmVersion12,
        Seq::empty(),
        digest@,
    ));
    r
}

impl<'a, D: SpdmDeviceIo, T: SpdmTransportEncap> RequesterContext<'a, D, T> {
    /// Whether the requester is as `before` outside of what an exchange of measurements
    /// within the session `session_id`, or outside any session, may touch: the
    /// transcript of measurements that the exchange records in, what the last response
    /// said of changes, whether a signature is waited for, and the sequence numbers of
    /// the session.
    pub open spec fn spec_measurement_frame(self, before: Self, session_id: Option<u32>) -> bool {
        &&& self.common.crypto == before.common.crypto
        &&& self.common.config_info == before.common.config_info
        &&& self.common.negotiate_info == before.common.negotiate_info
        &&& self.common.provision_info == before.common.provision_info
        &&& self.common.peer_info == before.common.peer_info
        &&& self.common.runtime_info.message_a == before.common.runtime_info.message_a
        &&& self.common.runtime_info.message_b == before.common.runtime_info.message_b
        &&& self.common.runtime_info.message_c == before.common.runtime_info.message_c
        &&& self.common.runtime_info.peer_used_cert_chain_slot_id
            == before.common.runtime_info.peer_used_cert_chain_slot_id
        &&& session_id is Some ==> self.common.runtime_info.message_m
            == before.common.runtime_info.message_m
        &&& self.spec_measurement_sessions(before, session_id)
    }

    /// Whether the session table is that of `before` but for what an exchange of
    /// measurements within the session `session_id`, or outside any session, may
    /// touch. Every session has the id, the state, the algorithms and the keys it
    /// had, and has recorded of the key exchange and of the finish what it had; it may
    /// have carried more messages. Only the session of the exchange may have recorded
    /// other measurements. Outside any session the table is as it was.
    pub open spec fn spec_measurement_sessions(self, before: Self, session_id: Option<u32>) -> bool {
        &&& session_id is None ==> self.common.session == before.common.session
        &&& forall|i: int|
            0 <= i < MAX_SPDM_SESSION_COUNT ==> (#[trigger] self.common.session@[i]).spec_keys_carried_on(
                before.common.session@[i],
            ) && self.common.session@[i].spec_message(SpdmSessionTranscript::MessageK)
                == before.common.session@[i].spec_message(SpdmSessionTranscript::MessageK)
                && self.common.session@[i].spec_message(SpdmSessionTranscript::MessageF)
                == before.common.session@[i].spec_message(SpdmSessionTranscript::MessageF)
        &&& forall|i: int|
            0 <= i < MAX_SPDM_SESSION_COUNT && before.common.spec_measurement_session(session_id)
                != Some(i) ==> (#[trigger] self.common.session@[i]).spec_message(
                SpdmSessionTranscript::MessageM,
            )
                == before.common.session@[i].spec_message(SpdmSessionTranscript::MessageM)
    }

    /// Whether the requester records `transcript` as the measurements of the session
    /// `session_id`, or of the connection outside any session, and reports
    /// `content_changed` where the response said something of changes.
    pub open spec fn spec_measurement_recorded(
        self,
        before: Self,
        session_id: Option<u32>,
        transcript: Seq<u8>,
        content_changed: Option<SpdmMeasurementContentChanged>,
    ) -> bool {
        &&& self.common.spec_measurement_transcript(session_id) == Some(transcript)
        &&& self.common.runtime_info.content_changed == match content_changed {
            Some(c) => c,
            None => before.common.runtime_info.content_changed,
        }
    }

    /// Whether the requester records and reports what it did in `before`.
    pub open spec fn spec_measurement_untouched(self, before: Self, session_id: Option<u32>) -> bool {
        &&& self.common.spec_measurement_transcript(session_id)
            == before.common.spec_measurement_transcript(session_id)
        &&& self.common.runtime_info.content_changed == before.common.runtime_info.content_changed
    }

    /// The size of the signature that ends the response to a request with the
    /// attributes `attributes`.
    pub open spec fn spec_measurement_signature_size(
        self,
        attributes: SpdmMeasurementeAttributes,
    ) -> nat {
        if attributes.spec_signature_requested() {
            self.common.negotiate_info.base_asym_sel.spec_size() as nat
        } else {
            0
        }
    }

    /// What comes of `response`, which is not an ERROR, as the answer to the request
    /// `send` in the state `self`: the number that the exchange reports and the
    /// transcript that is to be recorded, or why the response is refused before any
    /// signature is looked at. The response must read well; the session must be in the
    /// table; and the transcript must have room for what the response adds.
    pub open spec fn spec_measurement_outcome(
        self,
        session_id: Option<u32>,
        attributes: SpdmMeasurementeAttributes,
        operation: SpdmMeasurementOperation,
        send: Seq<u8>,
        response: Seq<u8>,
    ) -> SpdmResult<(SpdmMeasurementRecordParsed, Seq<u8>)> {
        match SpdmMeasurementRecordParsed::spec_of(
            self.common.negotiate_info.spdm_version_sel,
            self.spec_measurement_signature_size(attributes),
            self.common.negotiate_info.measurement_hash_sel.spec_size() as nat,
            operation,
            response,
        ) {
            Err(e) => Err(e),
            Ok(parsed) => match self.common.spec_measurement_transcript(session_id) {
                None => Err(SpdmStatus::InvalidParameter),
                Some(transcript) => match ManagedBuffer::spec_append(
                    transcript,
                    send + response.subrange(0, parsed.recorded_len as int),
                ) {
                    None => Err(SpdmStatus::BufferFull),
                    Some(recorded) => Ok((parsed, recorded)),
                },
            },
        }
    }

    /// Whether `r` and the requester are what comes of accepting, in the state
    /// `before`, a response with the outcome `outcome`. A response that is refused
    /// leaves what is recorded as it was. One that is accepted without a signature is
    /// recorded, and its number reported. One that carries a signature is reported
    /// only where the signature holds, and then the transcript starts anew; where it
    /// does not hold, what is recorded stays as it was.
    pub open spec fn spec_measurement_concluded(
        self,
        before: Self,
        session_id: Option<u32>,
        attributes: SpdmMeasurementeAttributes,
        outcome: SpdmResult<(SpdmMeasurementRecordParsed, Seq<u8>)>,
        r: SpdmResult<u8>,
    ) -> bool {
        match outcome {
            Err(e) => r == Err::<u8, SpdmStatus>(e) && self.spec_measurement_untouched(
                before,
                session_id,
            ),
            Ok((parsed, recorded)) => if attributes.spec_signature_requested() {
                ||| (r == Ok::<u8, SpdmStatus>(parsed.number) && self.spec_measurement_recorded(
                    before,
                    session_id,
                    Seq::empty(),
                    parsed.content_changed,
                ))
                ||| (r is Err && self.spec_measurement_untouched(before, session_id))
            } else {
                r == Ok::<u8, SpdmStatus>(parsed.number) && self.spec_measurement_recorded(
                    before,
                    session_id,
                    recorded,
                    parsed.content_changed,
                )
            },
        }
    }

    /// Write the GET_MEASUREMENTS request with the nonce `nonce` to the start of `buf`
    /// and say how long it is. A request that does not fit is refused, and `buf` is as
    /// it was.
    pub fn encode_spdm_measurement_record_with_nonce(
        &self,
        measurement_attributes: SpdmMeasurementeAttributes,
        measurement_operation: SpdmMeasurementOperation,
        slot_id: u8,
        nonce: SpdmNonceStruct,
        buf: &mut [u8],
    ) -> (r: SpdmResult<usize>)
        ensures
            ({
                let message = (SpdmGetMeasurementsRequest {
                    measurement_attributes,
                    measurement_operation,
                    nonce: nonce.data@,
                    slot_id,
                }).spec_message(self.common.negotiate_info.spdm_version_sel);
                if message.len() <= old(buf)@.len() {
                    r == Ok::<usize, SpdmStatus>(message.len() as usize) && final(buf)@ == message
                        + old(buf)@.subrange(message.len() as int, old(buf)@.len() as int)
                } else {
                    r == Err::<usize, SpdmStatus>(SpdmStatus::BufferFull) && final(buf)@ == old(buf)@
                }
            }),
    {
        let version = self.common.negotiate_info.spdm_version_sel;
        let mut writer = Writer::init(buf.len());
        let header = SpdmMessageHeader {
            version,
            request_response_code: SpdmRequestResponseCode::SpdmRequestGetMeasurements,
        };
        let payload = SpdmGetMeasurementsRequestPayload {
            measurement_attributes,
            measurement_operation,
            nonce,
            slot_id,
        };
        let ghost message = payload@.spec_message(version);
        match header.encode(&mut writer) {
            Ok(_) => {},
            Err(e) => {
                return Err(e);
            },
        }
        match payload.spdm_encode(version, &mut writer) {
            Ok(_) => {},
            Err(e) => {
                return Err(e);
            },
        }
        assert(writer@ =~= message);
        copy_to_front(buf, writer.used_slice());
        Ok(writer.used())
    }

    /// Write a GET_MEASUREMENTS request with a fresh random nonce to the start of `buf`
    /// and say how long it is. Without a source of random bytes there is no request.
    pub fn encode_spdm_measurement_record(
        &mut self,
        measurement_attributes: SpdmMeasurementeAttributes,
        measurement_operation: SpdmMeasurementOperation,
        slot_id: u8,
        buf: &mut [u8],
    ) -> (r: SpdmResult<usize>)
        ensures
            final(self).common.spec_same_state(old(self).common),
            old(self).common.crypto.rand is None ==> r == Err::<usize, SpdmStatus>(
                SpdmStatus::Unsupported,
            ),
            r is Err ==> final(buf)@ == old(buf)@,
            r matches Ok(used) ==> exists|nonce: Seq<u8>|
                {
                    let message = (#[trigger] SpdmGetMeasurementsRequest::spec_new(
                        measurement_attributes,
                        measurement_operation,
                        nonce,
                        slot_id,
                    )).spec_message(old(self).common.negotiate_info.spdm_version_sel);
                    &&& nonce.len() == SPDM_NONCE_SIZE
                    &&& used == message.len() <= old(buf)@.len()
                    &&& final(buf)@ == message + old(buf)@.subrange(
                        message.len() as int,
                        old(buf)@.len() as int,
                    )
                },
    {
        let mut nonce = SpdmNonceStruct::new();
        match self.common.crypto.get_random(&mut nonce.data) {
            Ok(()) => {},
            Err(e) => {
                return Err(e);
            },
        }
        let r = self.encode_spdm_measurement_record_with_nonce(
            measurement_attributes,
            measurement_operation,
            slot_id,
            nonce,
            buf,
        );
        proof {
            if r is Ok {
                let request = SpdmGetMeasurementsRequest::spec_new(
                    measurement_attributes,
                    measurement_operation,
                    nonce.data@,
                    slot_id,
                );
                assert(request.spec_message(
                    old(self).common.negotiate_info.spdm_version_sel,
                ).len() <= old(buf)@.len());
            }
        }
        r
    }

    /// Whether `signature` is the responder's signature over the transcript
    /// `transcript` of measurements. The key is that of the last certificate of the
    /// chain that the peer signs with; without that chain there is nothing to check
    /// against. What is signed is the transcript itself up to the second version; from
    /// the third on it is `spec_measurement_signing_data` of the digest of the
    /// negotiation and the transcript.
    pub fn verify_measurement_signature(
        &self,
        transcript: &[u8],
        signature: &SpdmSignatureStruct,
    ) -> (r: SpdmResult)
        ensures
            ({
                let slot_id = self.common.runtime_info.peer_used_cert_chain_slot_id;
                let crypto = self.common.crypto;
                if slot_id >= SPDM_MAX_SLOT_NUMBER
                    || self.common.peer_info.peer_cert_chain@[slot_id as int] is None {
                    r == Err::<(), SpdmStatus>(SpdmStatus::InvalidStateLocal)
                } else if !self.spec_chain_checkable(slot_id) {
                    r == Err::<(), SpdmStatus>(SpdmStatus::InvalidCert)
                } else if crypto.cert_operation is None {
                    r == Err::<(), SpdmStatus>(SpdmStatus::Unsupported)
                } else if crypto.asym_verify is Some && (crypto.hash is Some
                    || self.common.negotiate_info.spdm_version_sel != SpdmVersion::SpdmVersion12) {
                    r is Ok || r == Err::<(), SpdmStatus>(SpdmStatus::InvalidCert) || r == Err::<
                        (),
                        SpdmStatus,
                    >(SpdmStatus::CryptoError)
                } else {
                    r == Err::<(), SpdmStatus>(SpdmStatus::InvalidCert) || r == Err::<
                        (),
                        SpdmStatus,
                    >(SpdmStatus::CryptoError) || r == Err::<(), SpdmStatus>(
                        SpdmStatus::Unsupported,
                    )
                }
            }),
    {
        let slot: usize = self.common.runtime_info.peer_used_cert_chain_slot_id as usize;
        if slot >= SPDM_MAX_SLOT_NUMBER {
            return Err(SpdmStatus::InvalidStateLocal);
        }
        let chain = match self.common.peer_info.peer_cert_chain[slot] {
            Some(c) => c.cert_chain,
            None => {
                return Err(SpdmStatus::InvalidStateLocal);
            },
        };
        let version = self.common.negotiate_info.spdm_version_sel;
        let hash_algo = self.common.negotiate_info.base_hash_sel;
        let asym_algo = self.common.negotiate_info.base_asym_sel;
        let prefix: usize = 4 + hash_algo.get_size() as usize;
        let data_size: usize = chain.data_size as usize;
        if data_size <= prefix || data_size > MAX_SPDM_CERT_CHAIN_DATA_SIZE {
            return Err(SpdmStatus::InvalidCert);
        }
        let runtime_chain = slice_range(&chain.data, prefix, data_size);
        let (leaf_begin, leaf_end) = self.common.crypto.get_cert_from_cert_chain(runtime_chain, -1)?;
        let leaf_cert = slice_range(runtime_chain, leaf_begin, leaf_end);
        if version == SpdmVersion::SpdmVersion12 {
            let mut whole: Vec<u8> = Vec::new();
            whole.extend_from_slice(self.common.runtime_info.message_a.as_ref());
            whole.extend_from_slice(transcript);
            let digest = self.common.crypto.hash_all(hash_algo, whole.as_slice())?;
            let data = measurement_signing_data_v12(digest.as_ref());
            self.common.crypto.asym_verify(hash_algo, asym_algo, leaf_cert, data.as_slice(), signature)
        } else {
            self.common.crypto.asym_verify(hash_algo, asym_algo, leaf_cert, transcript, signature)
        }
    }

    /// The transcript of measurements at the place `index` of the session table, or that
    /// of the connection where there is no place.
    pub open spec fn spec_measurement_transcript_at(self, index: Option<usize>) -> Seq<u8> {
        match index {
            Some(i) => self.common.session@[i as int].spec_message(SpdmSessionTranscript::MessageM),
            None => self.common.runtime_info.message_m@,
        }
    }

    /// The transcript of measurements at `index` with `send_buffer` and then `part`
    /// after it, where they fit.
    fn measurement_transcript_with(&self, index: Option<usize>, send_buffer: &[u8], part: &[u8]) -> (r:
        SpdmResult<ManagedBuffer>)
        requires
            index matches Some(i) ==> i < MAX_SPDM_SESSION_COUNT,
        ensures
            match ManagedBuffer::spec_append(
                self.spec_measurement_transcript_at(index),
                send_buffer@ + part@,
            ) {
                None => r == Err::<ManagedBuffer, SpdmStatus>(SpdmStatus::BufferFull),
                Some(recorded) => r matches Ok(c) && c@ == recorded,
            },
    {
        let mut candidate = ManagedBuffer::new();
        match index {
            Some(i) => {
                let _ = candidate.append_message(
                    self.common.session[i].message(SpdmSessionTranscript::MessageM),
                );
            },
            None => {
                let _ = candidate.append_message(self.common.runtime_info.message_m.as_ref());
            },
        }
        assert(candidate@ =~= self.spec_measurement_transcript_at(index));
        if send_buffer.len() > MAX_SPDM_MESSAGE_BUFFER_SIZE || part.len()
            > MAX_SPDM_MESSAGE_BUFFER_SIZE || !candidate.has_room(send_buffer.len() + part.len()) {
            return Err(SpdmStatus::BufferFull);
        }
        let _ = candidate.append_message(send_buffer);
        let _ = candidate.append_message(part);
        assert(candidate@ =~= self.spec_measurement_transcript_at(index) + (send_buffer@ + part@));
        Ok(candidate)
    }

    /// Let the transcript of measurements at `index` be `transcript`, and take note of
    /// what the response said of changes.
    fn store_measurements(
        &mut self,
        index: Option<usize>,
        transcript: ManagedBuffer,
        content_changed: Option<SpdmMeasurementContentChanged>,
    )
        requires
            index matches Some(i) ==> i < MAX_SPDM_SESSION_COUNT,
        ensures
            final(self).spec_measurement_transcript_at(index) == transcript@,
            final(self).common.runtime_info.content_changed == match content_changed {
                Some(c) => c,
                None => old(self).common.runtime_info.content_changed,
            },
            final(self).common.crypto == old(self).common.crypto,
            final(self).common.config_info == old(self).common.config_info,
            final(self).common.negotiate_info == old(self).common.negotiate_info,
            final(self).common.provision_info == old(self).common.provision_info,
            final(self).common.peer_info == old(self).common.peer_info,
            final(self).common.runtime_info.message_a == old(self).common.runtime_info.message_a,
            final(self).common.runtime_info.message_b == old(self).common.runtime_info.message_b,
            final(self).common.runtime_info.message_c == old(self).common.runtime_info.message_c,
            final(self).common.runtime_info.peer_used_cert_chain_slot_id
                == old(self).common.runtime_info.peer_used_cert_chain_slot_id,
            final(self).common.runtime_info.need_measurement_signature
                == old(self).common.runtime_info.need_measurement_signature,
            index is Some ==> final(self).common.runtime_info.message_m
                == old(self).common.runtime_info.message_m,
            index is None ==> final(self).common.session == old(self).common.session,
            forall|i: int|
                0 <= i < MAX_SPDM_SESSION_COUNT ==> (#[trigger] final(self).common.session@[i]).spec_same_but_message(
                    old(self).common.session@[i],
                    SpdmSessionTranscript::MessageM,
                ),
            forall|i: int|
                0 <= i < MAX_SPDM_SESSION_COUNT && index != Some(i as usize) ==> (#[trigger] final(self).common.session@[i]) == old(self).common.session@[i],
    {
        match index {
            Some(i) => {
                let mut session = self.common.session[i];
                session.set_message(SpdmSessionTranscript::MessageM, transcript);
                self.common.session[i] = session;
            },
            None => {
                self.common.runtime_info.message_m = transcript;
            },
        }
        match content_changed {
            Some(c) => {
                self.common.runtime_info.content_changed = c;
            },
            None => {},
        }
    }

    /// Take in `response`, which is not an ERROR, as the answer to the request
    /// `send_buffer`. What comes of it is what `spec_measurement_concluded` says of the
    /// outcome that `spec_measurement_outcome` gives.
    pub fn accept_measurement_record(
        &mut self,
        session_id: Option<u32>,
        measurement_attributes: SpdmMeasurementeAttributes,
        measurement_operation: SpdmMeasurementOperation,
        send_buffer: &[u8],
        response: &[u8],
    ) -> (r: SpdmResult<u8>)
        ensures
            final(self).spec_measurement_frame(*old(self), session_id),
            final(self).common.runtime_info.need_measurement_signature
                == old(self).common.runtime_info.need_measurement_signature,
            forall|i: int|
                0 <= i < MAX_SPDM_SESSION_COUNT ==> (#[trigger] final(self).common.session@[i]).spec_same_but_message(
                    old(self).common.session@[i],
                    SpdmSessionTranscript::MessageM,
                ),
            final(self).spec_measurement_concluded(
                *old(self),
                session_id,
                measurement_attributes,
                old(self).spec_measurement_outcome(
                    session_id,
                    measurement_attributes,
                    measurement_operation,
                    send_buffer@,
                    response@,
                ),
                r,
            ),
    {
        let version = self.common.negotiate_info.spdm_version_sel;
        let signed: bool = measurement_attributes.signature_requested();
        let signature_size: u16 = if signed {
            self.common.negotiate_info.base_asym_sel.get_size()
        } else {
            0
        };
        proof {
            lemma_sessions_untouched(self.common.session@);
        }
        let read = read_measurement_record(
            version,
            signature_size,
            self.common.negotiate_info.measurement_hash_sel.get_size(),
            measurement_operation,
            response,
        )?;
        let index: Option<usize> = match session_id {
            Some(id) => match self.common.get_session_index(id) {
                Some(i) => Some(i),
                None => {
                    return Err(SpdmStatus::InvalidParameter);
                },
            },
            None => None,
        };
        let candidate = self.measurement_transcript_with(
            index,
            send_buffer,
            slice_range(response, 0, read.recorded_len),
        )?;
        let verified: Option<SpdmResult> = if signed {
            Some(self.verify_measurement_signature(candidate.as_ref(), &read.signature))
        } else {
            None
        };
        self.conclude_measurement_record(
            session_id,
            verified,
            candidate,
            read.number,
            read.content_changed,
        )
    }

    /// Conclude an exchange of measurements whose response read well, once the verdict
    /// `verified` on its signature is known; no verdict says that no signature was
    /// asked for. `recorded` is the transcript with the request and the response, up
    /// to its signature, after what was recorded before.
    ///
    /// A signature that holds reports `number`, and the transcript starts anew. A
    /// signature that was rejected fails the exchange with the verdict, and leaves
    /// the requester as it was. Without a signature `number` is reported and
    /// `recorded` is what is recorded. A session that is not in the table is a fault
    /// of the caller, and nothing changes.
    pub fn conclude_measurement_record(
        &mut self,
        session_id: Option<u32>,
        verified: Option<SpdmResult>,
        recorded: ManagedBuffer,
        number: u8,
        content_changed: Option<SpdmMeasurementContentChanged>,
    ) -> (r: SpdmResult<u8>)
        ensures
            final(self).spec_measurement_frame(*old(self), session_id),
            final(self).common.runtime_info.need_measurement_signature
                == old(self).common.runtime_info.need_measurement_signature,
            forall|i: int|
                0 <= i < MAX_SPDM_SESSION_COUNT ==> (#[trigger] final(self).common.session@[i]).spec_same_but_message(
                    old(self).common.session@[i],
                    SpdmSessionTranscript::MessageM,
                ),
            match (old(self).common.spec_measurement_transcript(session_id), verified) {
                (None, _) => r == Err::<u8, SpdmStatus>(SpdmStatus::InvalidParameter)
                    && final(self).common.spec_same_state(old(self).common),
                (Some(_), Some(Err(e))) => r == Err::<u8, SpdmStatus>(e)
                    && final(self).common.spec_same_state(old(self).common),
                (Some(_), Some(Ok(_))) => r == Ok::<u8, SpdmStatus>(number)
                    && final(self).spec_measurement_recorded(
                    *old(self),
                    session_id,
                    Seq::empty(),
                    content_changed,
                ),
                (Some(_), None) => r == Ok::<u8, SpdmStatus>(number)
                    && final(self).spec_measurement_recorded(
                    *old(self),
                    session_id,
                    recorded@,
                    content_changed,
                ),
            },
    {
        proof {
            lemma_sessions_untouched(self.common.session@);
        }
        let index: Option<usize> = match session_id {
            Some(id) => match self.common.get_session_index(id) {
                Some(i) => Some(i),
                None => {
                    return Err(SpdmStatus::InvalidParameter);
                },
            },
            None => None,
        };
        let mut transcript = recorded;
        match verified {
            Some(Ok(())) => {
                transcript.reset_message();
            },
            Some(Err(e)) => {
                return Err(e);
            },
            None => {},
        }
        self.store_measurements(index, transcript, content_changed);
        proof {
            if session_id is Some {
                crate::common::lemma_session_index_same_ids(
                    self.common.session@,
                    old(self).common.session@,
                    session_id->0,
                    0,
                );
            }
            assert forall|i: int| 0 <= i < MAX_SPDM_SESSION_COUNT implies (
            #[trigger] self.common.session@[i]).spec_keys_carried_on(
                old(self).common.session@[i],
            ) by {
                assert(self.common.session@[i].spec_same_but_message(
                    old(self).common.session@[i],
                    SpdmSessionTranscript::MessageM,
                ));
            }
        }
        Ok(number)
    }

    /// Whether the requester differs from `before` at most in the sequence numbers of
    /// its sessions and in whether it waits for a signature.
    pub open spec fn spec_measurement_pending(self, before: Self) -> bool {
        &&& self.common.crypto == before.common.crypto
        &&& self.common.config_info == before.common.config_info
        &&& self.common.negotiate_info == before.common.negotiate_info
        &&& self.common.provision_info == before.common.provision_info
        &&& self.common.peer_info == before.common.peer_info
        &&& self.common.runtime_info.message_a == before.common.runtime_info.message_a
        &&& self.common.runtime_info.message_b == before.common.runtime_info.message_b
        &&& self.common.runtime_info.message_c == before.common.runtime_info.message_c
        &&& self.common.runtime_info.message_m == before.common.runtime_info.message_m
        &&& self.common.runtime_info.content_changed == before.common.runtime_info.content_changed
        &&& self.common.runtime_info.peer_used_cert_chain_slot_id
            == before.common.runtime_info.peer_used_cert_chain_slot_id
        &&& self.common.spec_sessions_carried_on(before.common)
    }

    /// A requester that only waits has the transcripts it had; so what comes of a
    /// response is the same for it, and what holds of an exchange from where it waits
    /// holds from where it began.
    pub proof fn lemma_measurement_pending(
        self,
        middle: Self,
        before: Self,
        session_id: Option<u32>,
        attributes: SpdmMeasurementeAttributes,
        operation: SpdmMeasurementOperation,
        send: Seq<u8>,
        response: Seq<u8>,
        r: SpdmResult<u8>,
    )
        requires
            middle.spec_measurement_pending(before),
            session_id is None ==> middle.common.session == before.common.session,
        ensures
            middle.spec_measurement_untouched(before, session_id),
            middle.spec_measurement_outcome(session_id, attributes, operation, send, response)
                == before.spec_measurement_outcome(session_id, attributes, operation, send, response),
            self.spec_measurement_frame(middle, session_id) ==> self.spec_measurement_frame(
                before,
                session_id,
            ),
            self.spec_measurement_untouched(middle, session_id) ==> self.spec_measurement_untouched(
                before,
                session_id,
            ),
            self.spec_measurement_concluded(
                middle,
                session_id,
                attributes,
                middle.spec_measurement_outcome(session_id, attributes, operation, send, response),
                r,
            ) ==> self.spec_measurement_concluded(
                before,
                session_id,
                attributes,
                before.spec_measurement_outcome(session_id, attributes, operation, send, response),
                r,
            ),
    {
        let id = match session_id {
            Some(id) => id,
            None => 0u32,
        };
        assert forall|i: int| 0 <= i < middle.common.session@.len() implies (
        #[trigger] middle.common.session@[i]).spec_session_id()
            == before.common.session@[i].spec_session_id() by {
            assert(middle.common.session@[i].spec_carried_on(before.common.session@[i]));
        }
        crate::common::lemma_session_index_same_ids(
            middle.common.session@,
            before.common.session@,
            id,
            0,
        );
        crate::common::lemma_session_index(before.common.session@, id, 0);
        match crate::common::spec_session_index(before.common.session@, id) {
            Some(i) => {
                assert(middle.common.session@[i].spec_carried_on(before.common.session@[i]));
            },
            None => {},
        }
        if self.spec_measurement_frame(middle, session_id) {
            assert forall|i: int| 0 <= i < MAX_SPDM_SESSION_COUNT implies (
            #[trigger] self.common.session@[i]).spec_keys_carried_on(
                before.common.session@[i],
            ) && self.common.session@[i].spec_message(SpdmSessionTranscript::MessageK)
                == before.common.session@[i].spec_message(SpdmSessionTranscript::MessageK)
                && self.common.session@[i].spec_message(SpdmSessionTranscript::MessageF)
                == before.common.session@[i].spec_message(SpdmSessionTranscript::MessageF) by {
                assert(middle.common.session@[i].spec_carried_on(before.common.session@[i]));
                self.common.session@[i].lemma_carried_on(
                    middle.common.session@[i],
                    before.common.session@[i],
                );
            }
            assert forall|i: int|
                0 <= i < MAX_SPDM_SESSION_COUNT && before.common.spec_measurement_session(session_id)
                    != Some(i) implies (#[trigger] self.common.session@[i]).spec_message(
                SpdmSessionTranscript::MessageM,
            ) == before.common.session@[i].spec_message(SpdmSessionTranscript::MessageM) by {
                assert(middle.common.session@[i].spec_carried_on(before.common.session@[i]));
            }
        }
    }

    /// Handle `receive_buffer` as the answer to the request `send_buffer` for
    /// measurements.
    ///
    /// The exchange goes by the code of the response, whatever version its header
    /// names. A MEASUREMENTS response is taken in as `accept_measurement_record` says.
    /// An ERROR response is acted on as `SpdmErrorResponseAction::spec_of` says: one
    /// that is no deferral of this request ends the exchange at once, with nothing
    /// sent; where the responder deferred, the requester asks again and handles what
    /// comes instead, as often as `follow_deferral` allows. Whatever else comes is a
    /// fault of the peer and ends the exchange. An exchange that fails leaves what is
    /// recorded as it was.
    pub fn handle_spdm_measurement_record_response(
        &mut self,
        session_id: Option<u32>,
        measurement_attributes: SpdmMeasurementeAttributes,
        measurement_operation: SpdmMeasurementOperation,
        send_buffer: &[u8],
        receive_buffer: &[u8],
    ) -> (r: SpdmResult<u8>)
        ensures
            final(self).common.runtime_info.need_measurement_signature
                == measurement_attributes.spec_signature_requested(),
            final(self).spec_measurement_frame(*old(self), session_id),
            r is Err ==> final(self).spec_measurement_untouched(*old(self), session_id),
            SpdmResponseClass::spec_of_code(
                SpdmRequestResponseCode::SpdmResponseMeasurements,
                receive_buffer@,
            ) is PeerError ==> (SpdmErrorResponseAction::spec_of(
                receive_buffer@,
                SpdmRequestResponseCode::SpdmRequestGetMeasurements,
            ) matches SpdmErrorResponseAction::Fail(e) ==> r == Err::<u8, SpdmStatus>(e)
                && final(self).common.session == old(self).common.session
                && final(self).spec_measurement_pending(*old(self))),
            r is Ok ==> exists|response: Seq<u8>|
                final(self).spec_measurement_concluded(
                    *old(self),
                    session_id,
                    measurement_attributes,
                    #[trigger] old(self).spec_measurement_outcome(
                        session_id,
                        measurement_attributes,
                        measurement_operation,
                        send_buffer@,
                        response,
                    ),
                    r,
                ),
            !(SpdmResponseClass::spec_of_code(
                SpdmRequestResponseCode::SpdmResponseMeasurements,
                receive_buffer@,
            ) is PeerError) ==> final(self).spec_measurement_concluded(
                *old(self),
                session_id,
                measurement_attributes,
                old(self).spec_measurement_outcome(
                    session_id,
                    measurement_attributes,
                    measurement_operation,
                    send_buffer@,
                    receive_buffer@,
                ),
                r,
            ),
    {
        self.common.runtime_info.need_measurement_signature =
        measurement_attributes.signature_requested();
        proof {
            lemma_sessions_untouched(self.common.session@);
        }
        let version = self.common.negotiate_info.spdm_version_sel;
        let mut replacement: Option<Vec<u8>> = None;
        let mut retries: usize = 0;
        loop
            invariant
                retries <= MAX_SPDM_RETRY_COUNT,
                version == old(self).common.negotiate_info.spdm_version_sel,
                self.spec_measurement_pending(*old(self)),
                self.common.runtime_info.need_measurement_signature
                    == measurement_attributes.spec_signature_requested(),
                session_id is None ==> self.common.session == old(self).common.session,
                replacement is None ==> retries == 0,
                replacement is Some ==> SpdmResponseClass::spec_of_code(
                    SpdmRequestResponseCode::SpdmResponseMeasurements,
                    receive_buffer@,
                ) is PeerError,
                replacement is Some ==> SpdmErrorResponseAction::spec_of(
                    receive_buffer@,
                    SpdmRequestResponseCode::SpdmRequestGetMeasurements,
                ) is RespondIfReady,
                replacement is None ==> self.common.session == old(self).common.session,
            decreases MAX_SPDM_RETRY_COUNT - retries,
        {
            let ghost here = *self;
            let mut followed: usize = retries;
            let next = {
                let current: &[u8] = match &replacement {
                    Some(v) => v.as_slice(),
                    None => receive_buffer,
                };
                match classify_response_code(
                    SpdmRequestResponseCode::SpdmResponseMeasurements,
                    current,
                ) {
                    SpdmResponseClass::PeerError => {
                        let given_up = follow_deferral(retries);
                        followed =
                        match given_up {
                            Ok(n) => n,
                            Err(_) => retries,
                        };
                        if given_up.is_err() {
                            proof {
                                self.lemma_measurement_pending(
                                    here,
                                    *old(self),
                                    session_id,
                                    measurement_attributes,
                                    measurement_operation,
                                    send_buffer@,
                                    current@,
                                    Err(SpdmStatus::NotReadyPeer),
                                );
                                lemma_sessions_frame(here, *old(self), session_id);
                            }
                            return Err(SpdmStatus::NotReadyPeer);
                        }
                        match self.spdm_handle_error_response_main(
                            session_id,
                            current,
                            SpdmRequestResponseCode::SpdmRequestGetMeasurements,
                        ) {
                            Ok(next) => next,
                            Err(e) => {
                                proof {
                                    crate::common::lemma_table_carried_on(
                                        self.common.session@,
                                        here.common.session@,
                                        old(self).common.session@,
                                    );
                                    self.lemma_measurement_pending(
                                        *self,
                                        *old(self),
                                        session_id,
                                        measurement_attributes,
                                        measurement_operation,
                                        send_buffer@,
                                        current@,
                                        Err(e),
                                    );
                                    lemma_sessions_frame(*self, *old(self), session_id);
                                }
                                return Err(e);
                            },
                        }
                    },
                    _ => {
                        let r = self.accept_measurement_record(
                            session_id,
                            measurement_attributes,
                            measurement_operation,
                            send_buffer,
                            current,
                        );
                        proof {
                            self.lemma_measurement_pending(
                                here,
                                *old(self),
                                session_id,
                                measurement_attributes,
                                measurement_operation,
                                send_buffer@,
                                current@,
                                r,
                            );
                        }
                        return r;
                    },
                }
            };
            proof {
                crate::common::lemma_table_carried_on(
                                        self.common.session@,
                                        here.common.session@,
                                        old(self).common.session@,
                                    );
            }
            replacement = Some(next);
            retries = followed;
        }
    }

    /// Ask for measurements and handle what comes back.
    fn send_receive_spdm_measurement_record(
        &mut self,
        session_id: Option<u32>,
        measurement_attributes: SpdmMeasurementeAttributes,
        measurement_operation: SpdmMeasurementOperation,
        slot_id: u8,
    ) -> (r: SpdmResult<u8>)
        ensures
            final(self).spec_measurement_exchanged(
                *old(self),
                session_id,
                measurement_attributes,
                slot_id,
                r is Ok,
            ),
            old(self).common.crypto.rand is None ==> r == Err::<u8, SpdmStatus>(
                SpdmStatus::Unsupported,
            ),
            r matches Ok(number) ==> old(self).spec_measurement_reported(
                session_id,
                measurement_attributes,
                measurement_operation,
                number,
            ),
            r is Ok ==> final(self).spec_measurement_taken(
                *old(self),
                session_id,
                measurement_attributes,
                measurement_operation,
                slot_id,
                r,
            ),
    {
        let mut send_buffer = [0u8; MAX_SPDM_MESSAGE_BUFFER_SIZE];
        let ghost blank = send_buffer@;
        let encoded = self.encode_spdm_measurement_record(
            measurement_attributes,
            measurement_operation,
            slot_id,
            &mut send_buffer,
        );
        let ghost start = *self;
        let r = self.exchange_measurement_record(
            session_id,
            measurement_attributes,
            measurement_operation,
            slot_id,
            &send_buffer,
            encoded,
        );
        proof {
            if let Ok(number) = r {
                let (send, response) = choose|send: Seq<u8>, response: Seq<u8>|
                    (#[trigger] start.spec_measurement_outcome(
                        session_id,
                        measurement_attributes,
                        measurement_operation,
                        send,
                        response,
                    )) matches Ok(outcome) && outcome.0.number == number;
                assert(start.spec_measurement_outcome(
                    session_id,
                    measurement_attributes,
                    measurement_operation,
                    send,
                    response,
                ) == old(self).spec_measurement_outcome(
                    session_id,
                    measurement_attributes,
                    measurement_operation,
                    send,
                    response,
                ));
                let used = encoded->Ok_0;
                let version = old(self).common.negotiate_info.spdm_version_sel;
                let nonce = choose|nonce: Seq<u8>|
                    {
                        let message = (#[trigger] SpdmGetMeasurementsRequest::spec_new(
                            measurement_attributes,
                            measurement_operation,
                            nonce,
                            slot_id,
                        )).spec_message(version);
                        &&& nonce.len() == SPDM_NONCE_SIZE
                        &&& used == message.len() <= blank.len()
                        &&& send_buffer@ == message + blank.subrange(
                            message.len() as int,
                            blank.len() as int,
                        )
                    };
                let message = SpdmGetMeasurementsRequest::spec_new(
                    measurement_attributes,
                    measurement_operation,
                    nonce,
                    slot_id,
                ).spec_message(version);
                assert(send_buffer@.subrange(0, used as int) =~= message);
                let answer = choose|answer: Seq<u8>|
                    self.spec_measurement_concluded(
                        start,
                        session_id,
                        measurement_attributes,
                        #[trigger] start.spec_measurement_outcome(
                            session_id,
                            measurement_attributes,
                            measurement_operation,
                            message,
                            answer,
                        ),
                        r,
                    );
                assert(start.spec_measurement_outcome(
                    session_id,
                    measurement_attributes,
                    measurement_operation,
                    message,
                    answer,
                ) == old(self).spec_measurement_outcome(
                    session_id,
                    measurement_attributes,
                    measurement_operation,
                    message,
                    answer,
                ));
                assert(self.spec_measurement_concluded(
                    *old(self),
                    session_id,
                    measurement_attributes,
                    old(self).spec_measurement_outcome(
                        session_id,
                        measurement_attributes,
                        measurement_operation,
                        message,
                        answer,
                    ),
                    r,
                ));
                assert(self.spec_measurement_answered(
                    *old(self),
                    session_id,
                    measurement_attributes,
                    measurement_operation,
                    message,
                    r,
                ));
            }
        }
        r
    }

    /// Go on with an exchange of measurements once the making of its request has ended
    /// with `encoded`. A request that could not be made fails the exchange with that
    /// very error, and nothing has changed: neither the slot that is noted nor whether
    /// a signature is waited for. Else the first `encoded` bytes of `send_buffer` are
    /// the request: it is sent and what comes back is handled.
    pub fn exchange_measurement_record(
        &mut self,
        session_id: Option<u32>,
        measurement_attributes: SpdmMeasurementeAttributes,
        measurement_operation: SpdmMeasurementOperation,
        slot_id: u8,
        send_buffer: &[u8],
        encoded: SpdmResult<usize>,
    ) -> (r: SpdmResult<u8>)
        ensures
            encoded matches Err(e) ==> r == Err::<u8, SpdmStatus>(e)
                && final(self).common.spec_same_state(old(self).common),
            (encoded matches Ok(used) && used > send_buffer@.len()) ==> r == Err::<u8, SpdmStatus>(
                SpdmStatus::BufferFull,
            ) && final(self).common.spec_same_state(old(self).common),
            final(self).spec_measurement_requested(
                *old(self),
                session_id,
                measurement_attributes,
                slot_id,
                r is Ok,
            ),
            r matches Ok(number) ==> old(self).spec_measurement_reported(
                session_id,
                measurement_attributes,
                measurement_operation,
                number,
            ),
            r is Ok ==> (encoded matches Ok(used) && used <= send_buffer@.len()
                && final(self).spec_measurement_answered(
                *old(self),
                session_id,
                measurement_attributes,
                measurement_operation,
                send_buffer@.subrange(0, used as int),
                r,
            )),
    {
        proof {
            lemma_sessions_untouched(self.common.session@);
        }
        let send_used = match encoded {
            Ok(n) => n,
            Err(e) => {
                proof {
                    lemma_sessions_frame(*self, *old(self), session_id);
                    self.lemma_measurement_pending(
                        *self,
                        *old(self),
                        session_id,
                        measurement_attributes,
                        measurement_operation,
                        Seq::empty(),
                        Seq::empty(),
                        Err(e),
                    );
                }
                return Err(e);
            },
        };
        if send_used > send_buffer.len() {
            proof {
                lemma_sessions_frame(*self, *old(self), session_id);
                self.lemma_measurement_pending(
                    *self,
                    *old(self),
                    session_id,
                    measurement_attributes,
                    measurement_operation,
                    Seq::empty(),
                    Seq::empty(),
                    Err(SpdmStatus::BufferFull),
                );
            }
            return Err(SpdmStatus::BufferFull);
        }
        self.common.runtime_info.peer_used_cert_chain_slot_id = slot_id;
        let ghost start = *self;
        let request = slice_range(send_buffer, 0, send_used);
        let response = match self.send_receive(session_id, request) {
            Ok(m) => m,
            Err(e) => {
                proof {
                    lemma_sessions_frame(*self, start, session_id);
                    self.lemma_measurement_pending(
                        *self,
                        start,
                        session_id,
                        measurement_attributes,
                        measurement_operation,
                        Seq::empty(),
                        Seq::empty(),
                        Err(e),
                    );
                }
                return Err(e);
            },
        };
        let ghost middle = *self;
        let r = self.handle_spdm_measurement_record_response(
            session_id,
            measurement_attributes,
            measurement_operation,
            request,
            response.as_slice(),
        );
        proof {
            self.lemma_measurement_pending(
                middle,
                start,
                session_id,
                measurement_attributes,
                measurement_operation,
                Seq::empty(),
                Seq::empty(),
                r,
            );
            if r is Ok {
                let response = choose|response: Seq<u8>|
                    self.spec_measurement_concluded(
                        middle,
                        session_id,
                        measurement_attributes,
                        #[trigger] middle.spec_measurement_outcome(
                            session_id,
                            measurement_attributes,
                            measurement_operation,
                            request@,
                            response,
                        ),
                        r,
                    );
                self.lemma_measurement_pending(
                    middle,
                    start,
                    session_id,
                    measurement_attributes,
                    measurement_operation,
                    request@,
                    response,
                    r,
                );
                assert(start.spec_measurement_outcome(
                    session_id,
                    measurement_attributes,
                    measurement_operation,
                    request@,
                    response,
                ) == old(self).spec_measurement_outcome(
                    session_id,
                    measurement_attributes,
                    measurement_operation,
                    request@,
                    response,
                ));
                assert(self.spec_measurement_concluded(
                    *old(self),
                    session_id,
                    measurement_attributes,
                    old(self).spec_measurement_outcome(
                        session_id,
                        measurement_attributes,
                        measurement_operation,
                        request@,
                        response,
                    ),
                    r,
                ));
            }
        }
        r
    }

    /// Whether `r` and the requester are what comes of accepting, in the state
    /// `before`, some response that is no ERROR as the answer to the request `send`:
    /// what `spec_measurement_concluded` says of the outcome of that response.
    pub open spec fn spec_measurement_answered(
        self,
        before: Self,
        session_id: Option<u32>,
        attributes: SpdmMeasurementeAttributes,
        operation: SpdmMeasurementOperation,
        send: Seq<u8>,
        r: SpdmResult<u8>,
    ) -> bool {
        exists|response: Seq<u8>|
            self.spec_measurement_concluded(
                before,
                session_id,
                attributes,
                #[trigger] before.spec_measurement_outcome(
                    session_id,
                    attributes,
                    operation,
                    send,
                    response,
                ),
                r,
            )
    }

    /// Whether `r` and the requester are what comes of accepting, in the state
    /// `before`, some response that is no ERROR as the answer to a GET_MEASUREMENTS
    /// request for `operation` about slot `slot_id` with some nonce.
    pub open spec fn spec_measurement_taken(
        self,
        before: Self,
        session_id: Option<u32>,
        attributes: SpdmMeasurementeAttributes,
        operation: SpdmMeasurementOperation,
        slot_id: u8,
        r: SpdmResult<u8>,
    ) -> bool {
        exists|nonce: Seq<u8>|
            nonce.len() == SPDM_NONCE_SIZE && self.spec_measurement_answered(
                before,
                session_id,
                attributes,
                operation,
                (#[trigger] SpdmGetMeasurementsRequest::spec_new(
                    attributes,
                    operation,
                    nonce,
                    slot_id,
                )).spec_message(before.common.negotiate_info.spdm_version_sel),
                r,
            )
    }

    /// Whether `number` is what some MEASUREMENTS response reports in answer to some
    /// request for `operation`: a response that reads well and that the transcript has
    /// room for.
    pub open spec fn spec_measurement_reported(
        self,
        session_id: Option<u32>,
        attributes: SpdmMeasurementeAttributes,
        operation: SpdmMeasurementOperation,
        number: u8,
    ) -> bool {
        exists|send: Seq<u8>, response: Seq<u8>|
            (#[trigger] self.spec_measurement_outcome(
                session_id,
                attributes,
                operation,
                send,
                response,
            )) matches Ok(outcome) && outcome.0.number == number
    }

    /// Whether the requester has come from `before` by an exchange of measurements that
    /// asked about slot `slot_id`: it is what `spec_measurement_requested` says, and
    /// where there is no source of random bytes the request cannot be made, and
    /// nothing at all has changed.
    pub open spec fn spec_measurement_exchanged(
        self,
        before: Self,
        session_id: Option<u32>,
        attributes: SpdmMeasurementeAttributes,
        slot_id: u8,
        succeeded: bool,
    ) -> bool {
        &&& self.spec_measurement_requested(before, session_id, attributes, slot_id, succeeded)
        &&& before.common.crypto.rand is None ==> self.common.spec_same_state(before.common)
    }

    /// Whether the requester has come from `before` by going on with an exchange of
    /// measurements about slot `slot_id` from where its request was made or was found
    /// wanting: outside of what such an exchange may touch it is as it was, but that
    /// it may have noted the slot, and whether a signature is waited for; it has
    /// noted both where the exchange succeeded. No session has changed its id or
    /// its state, and outside any session the table of sessions is as it was. An
    /// exchange that failed has left what is recorded as it was; one that succeeded
    /// with a signature has started the transcript anew, and one without has only
    /// added to it.
    pub open spec fn spec_measurement_requested(
        self,
        before: Self,
        session_id: Option<u32>,
        attributes: SpdmMeasurementeAttributes,
        slot_id: u8,
        succeeded: bool,
    ) -> bool {
        &&& self.common.crypto == before.common.crypto
        &&& self.common.config_info == before.common.config_info
        &&& self.common.negotiate_info == before.common.negotiate_info
        &&& self.common.provision_info == before.common.provision_info
        &&& self.common.peer_info == before.common.peer_info
        &&& self.common.runtime_info.message_a == before.common.runtime_info.message_a
        &&& self.common.runtime_info.message_b == before.common.runtime_info.message_b
        &&& self.common.runtime_info.message_c == before.common.runtime_info.message_c
        &&& session_id is Some ==> self.common.runtime_info.message_m
            == before.common.runtime_info.message_m
        &&& self.spec_measurement_sessions(before, session_id)
        &&& self.common.runtime_info.need_measurement_signature
            == before.common.runtime_info.need_measurement_signature
            || self.common.runtime_info.need_measurement_signature
            == attributes.spec_signature_requested()
        &&& self.common.runtime_info.peer_used_cert_chain_slot_id
            == before.common.runtime_info.peer_used_cert_chain_slot_id
            || self.common.runtime_info.peer_used_cert_chain_slot_id == slot_id
        &&& succeeded ==> self.common.runtime_info.need_measurement_signature
            == attributes.spec_signature_requested()
        &&& succeeded ==> self.common.runtime_info.peer_used_cert_chain_slot_id == slot_id
        &&& !succeeded ==> self.spec_measurement_untouched(before, session_id)
        &&& succeeded && attributes.spec_signature_requested()
            ==> self.common.spec_measurement_transcript(session_id) == Some(Seq::<u8>::empty())
        &&& succeeded && !attributes.spec_signature_requested() ==> {
            &&& before.common.spec_measurement_transcript(session_id) is Some
            &&& self.common.spec_measurement_transcript(session_id) is Some
            &&& before.common.spec_measurement_transcript(session_id)->0.is_prefix_of(
                self.common.spec_measurement_transcript(session_id)->0,
            )
        }
    }

    /// Hand the outcome `exchanged` of an exchange of measurements to the caller: the
    /// number goes into `out_total_number`; an error is handed on as it is, and leaves
    /// `out_total_number` as it was.
    pub fn report_measurement_number(out_total_number: &mut u8, exchanged: SpdmResult<u8>) -> (r:
        SpdmResult)
        ensures
            match exchanged {
                Ok(number) => r is Ok && *final(out_total_number) == number,
                Err(e) => r == Err::<(), SpdmStatus>(e) && *final(out_total_number) == *old(
                    out_total_number,
                ),
            },
    {
        match exchanged {
            Ok(number) => {
                *out_total_number = number;
                Ok(())
            },
            Err(e) => Err(e),
        }
    }

    /// Ask the responder for measurements and put the number that it reports into
    /// `out_total_number`: how many measurements it has, where `measurement_operation`
    /// asks for that; else how many blocks came. An exchange that fails leaves
    /// `out_total_number` and what is recorded as they were, and its error is that of
    /// the step that failed, as `report_measurement_number` hands it on.
    ///
    /// After an exchange that succeeded the number and what is recorded are those of
    /// one response to the request with one nonce: without a signature the transcript
    /// has grown by that request and that response; with one it starts anew.
    pub fn send_receive_spdm_measurement(
        &mut self,
        session_id: Option<u32>,
        spdm_measuremente_attributes: SpdmMeasurementeAttributes,
        measurement_operation: SpdmMeasurementOperation,
        out_total_number: &mut u8,
        slot_id: u8,
    ) -> (r: SpdmResult)
        ensures
            r is Err ==> *final(out_total_number) == *old(out_total_number),
            final(self).spec_measurement_exchanged(
                *old(self),
                session_id,
                spdm_measuremente_attributes,
                slot_id,
                r is Ok,
            ),
            old(self).common.crypto.rand is None ==> r == Err::<(), SpdmStatus>(
                SpdmStatus::Unsupported,
            ),
            r is Ok ==> old(self).spec_measurement_reported(
                session_id,
                spdm_measuremente_attributes,
                measurement_operation,
                *final(out_total_number),
            ),
            r is Ok ==> final(self).spec_measurement_taken(
                *old(self),
                session_id,
                spdm_measuremente_attributes,
                measurement_operation,
                slot_id,
                Ok::<u8, SpdmStatus>(*final(out_total_number)),
            ),
    {
        let exchanged = self.send_receive_spdm_measurement_record(
            session_id,
            spdm_measuremente_attributes,
            measurement_operation,
            slot_id,
        );
        Self::report_measurement_number(out_total_number, exchanged)
    }
}

/// What was read out of a MEASUREMENTS response.
pub struct SpdmMeasurementRecordRead {
    /// The number that the exchange reports.
    pub number: u8,
    /// What the response says of changes, where its header names the third version.
    pub content_changed: Option<SpdmMeasurementContentChanged>,
    /// How many bytes of the response are recorded.
    pub recorded_len: usize,
    /// The signature that ends the response.
    pub signature: SpdmSignatureStruct,
}

/// Read `response`, which is not an ERROR, as the answer to a request for `operation`
/// that a signature of `signature_size` bytes ends and whose digests have
/// `measurement_hash_size` bytes. The body is read as the negotiated version `version`
/// lays it out, whatever version the header names.
pub fn read_measurement_record(
    version: SpdmVersion,
    signature_size: u16,
    measurement_hash_size: u16,
    operation: SpdmMeasurementOperation,
    response: &[u8],
) -> (r: SpdmResult<SpdmMeasurementRecordRead>)
    ensures
        match SpdmMeasurementRecordParsed::spec_of(
            version,
            signature_size as nat,
            measurement_hash_size as nat,
            operation,
            response@,
        ) {
            Err(e) => r == Err::<SpdmMeasurementRecordRead, SpdmStatus>(e),
            Ok(parsed) => r matches Ok(read) && read.number == parsed.number
                && read.content_changed == parsed.content_changed && read.recorded_len
                == parsed.recorded_len && read.recorded_len <= response@.len()
                && read.signature.wf() && read.signature.spec_bytes() == parsed.signature,
        },
{
    match classify_response_code(SpdmRequestResponseCode::SpdmResponseMeasurements, response) {
        SpdmResponseClass::Rejected(e) => {
            return Err(e);
        },
        SpdmResponseClass::PeerError => {
            return Err(SpdmStatus::ErrorPeer);
        },
        SpdmResponseClass::Expected => {},
    }
    let mut reader = Reader::init(response);
    let ghost r0 = reader;
    assert(reader.remaining() =~= response@);
    let named: Option<SpdmVersion> = match SpdmMessageHeader::read(&mut reader) {
        Some(header) => Some(header.version),
        None => None,
    };
    let ghost r2 = reader;
    proof {
        r2.lemma_advanced(r0, 2);
    }
    let measurements = match SpdmMeasurementsResponsePayload::spdm_read(
        version,
        signature_size,
        &mut reader,
    ) {
        Some(m) => m,
        None => {
            return Err(SpdmStatus::InvalidMsgField);
        },
    };
    let used: usize = reader.used();
    if !crate::message::measurement::blocks_well_formed(
        slice_range(
            &measurements.measurement_record.measurement_record_data,
            0,
            measurements.measurement_record.measurement_record_length as usize,
        ),
        measurements.measurement_record.number_of_blocks,
        measurement_hash_size,
    ) {
        return Err(SpdmStatus::InvalidMsgField);
    }
    let number: u8 = match operation {
        SpdmMeasurementOperation::SpdmMeasurementQueryTotalNumber => measurements.number_of_measurement,
        _ => measurements.measurement_record.number_of_blocks,
    };
    Ok(
        SpdmMeasurementRecordRead {
            number,
            content_changed: match named {
                Some(SpdmVersion::SpdmVersion12) => Some(measurements.content_changed),
                _ => None,
            },
            recorded_len: used - signature_size as usize,
            signature: measurements.signature,
        },
    )
}

/// A MEASUREMENTS response that is recorded adds to the transcript exactly the request
/// and the response up to its signature: the transcript grows by the length of the one
/// and the recorded length of the other, and what was recorded before is the
/// beginning of what is recorded after.
pub proof fn lemma_measurement_recorded<'a, D: SpdmDeviceIo, T: SpdmTransportEncap>(
    requester: RequesterContext<'a, D, T>,
    session_id: Option<u32>,
    attributes: SpdmMeasurementeAttributes,
    operation: SpdmMeasurementOperation,
    send: Seq<u8>,
    response: Seq<u8>,
)
    requires
        requester.spec_measurement_outcome(session_id, attributes, operation, send, response) is Ok,
    ensures
        ({
            let outcome = requester.spec_measurement_outcome(
                session_id,
                attributes,
                operation,
                send,
                response,
            )->Ok_0;
            let before = requester.common.spec_measurement_transcript(session_id)->0;
            &&& requester.common.spec_measurement_transcript(session_id) is Some
            &&& outcome.0.recorded_len + requester.spec_measurement_signature_size(attributes)
                <= response.len()
            &&& outcome.1 == before + send + response.subrange(0, outcome.0.recorded_len as int)
            &&& outcome.1.len() == before.len() + send.len() + outcome.0.recorded_len
            &&& outcome.1.len() <= MAX_SPDM_MESSAGE_BUFFER_SIZE
            &&& before.is_prefix_of(outcome.1)
        }),
{
    let outcome = requester.spec_measurement_outcome(
        session_id,
        attributes,
        operation,
        send,
        response,
    )->Ok_0;
    let before = requester.common.spec_measurement_transcript(session_id)->0;
    let addition = send + response.subrange(0, outcome.0.recorded_len as int);
    assert(before + addition =~= before + send + response.subrange(
        0,
        outcome.0.recorded_len as int,
    ));
    assert((before + addition).subrange(0, before.len() as int) =~= before);
}

/// Every session has carried on from itself.
pub proof fn lemma_sessions_untouched(table: Seq<crate::session::SpdmSession>)
    ensures
        forall|i: int|
            0 <= i < table.len() ==> (#[trigger] table[i]).spec_keys_carried_on(table[i])
                && table[i].spec_carried_on(table[i]),
{
    assert forall|i: int| 0 <= i < table.len() implies (#[trigger] table[i]).spec_keys_carried_on(
        table[i],
    ) && table[i].spec_carried_on(table[i]) by {
        table[i].lemma_carried_on(table[i], table[i]);
    }
}

/// A requester that only waits is within what an exchange of measurements may touch.
pub proof fn lemma_sessions_frame<'a, D: SpdmDeviceIo, T: SpdmTransportEncap>(
    now: RequesterContext<'a, D, T>,
    before: RequesterContext<'a, D, T>,
    session_id: Option<u32>,
)
    requires
        now.spec_measurement_pending(before),
        session_id is None ==> now.common.session == before.common.session,
    ensures
        now.spec_measurement_frame(before, session_id),
{
    assert forall|i: int| 0 <= i < MAX_SPDM_SESSION_COUNT implies (
    #[trigger] now.common.session@[i]).spec_keys_carried_on(before.common.session@[i])
        && now.common.session@[i].spec_message(SpdmSessionTranscript::MessageK)
        == before.common.session@[i].spec_message(SpdmSessionTranscript::MessageK)
        && now.common.session@[i].spec_message(SpdmSessionTranscript::MessageF)
        == before.common.session@[i].spec_message(SpdmSessionTranscript::MessageF)
        && now.common.session@[i].spec_message(SpdmSessionTranscript::MessageM)
        == before.common.session@[i].spec_message(SpdmSessionTranscript::MessageM) by {
        assert(now.common.session@[i].spec_carried_on(before.common.session@[i]));
    }
}

} // verus!
