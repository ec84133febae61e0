//! Answering GET_CERTIFICATE.

use vstd::prelude::*;
use crate::codec::{fill_array_front, slice_range, Reader, Writer};
use crate::common::{SpdmDeviceIo, SpdmTransportEncap};
use crate::config::{MAX_SPDM_CERT_PORTION_LEN, MAX_SPDM_MESSAGE_BUFFER_SIZE};
use crate::error::{SpdmResult, SpdmStatus};
use crate::message::certificate::{
    SpdmCertificateResponse, SpdmCertificateResponsePayload, SpdmGetCertificateRequestPayload,
};
use crate::message::error_response::SpdmErrorCode;
use crate::message::header::{SpdmMessageHeader, SpdmRequestResponseCode};
use crate::protocol::{SpdmCertChainData, SpdmResponseCapabilityFlags, SpdmVersion, SPDM_CAP_CERT};
use crate::responder::context::ResponderContext;
use crate::responder::error_rsp::write_error_message;
use crate::transcript::ManagedBuffer;

verus! {

/// The answer of a responder that holds the chain `chain` (if it holds one) to the
/// request `request` in `version`: the CERTIFICATE that it sends, or the code of the
/// ERROR with which it refuses.
///
/// The request must be a GET_CERTIFICATE in the negotiated version for slot 0, the
/// responder must be able to present certificates and hold a chain, and the offset
/// must lie within the chain. The portion starts at the offset and is as long as was
/// asked for, but no longer than one message may carry and than the chain goes on.
pub open spec fn spec_certificate_answer(
    version: SpdmVersion,
    capabilities: SpdmResponseCapabilityFlags,
    chain: Option<SpdmCertChainData>,
    request: Seq<u8>,
) -> Result<SpdmCertificateResponse, SpdmErrorCode> {
    match SpdmMessageHeader::spec_read(request) {
        None => Err(SpdmErrorCode::SpdmErrorInvalidRequest),
        Some(header) => if header.version != version {
            Err(SpdmErrorCode::SpdmErrorVersionMismatch)
        } else if header.request_response_code
            != SpdmRequestResponseCode::SpdmRequestGetCertificate {
            Err(SpdmErrorCode::SpdmErrorUnexpectedRequest)
        } else if !capabilities.spec_contains(SPDM_CAP_CERT) {
            Err(SpdmErrorCode::SpdmErrorUnsupportedRequest)
        } else {
            match SpdmGetCertificateRequestPayload::spec_read(
                request.subrange(2, request.len() as int),
            ) {
                None => Err(SpdmErrorCode::SpdmErrorInvalidRequest),
                Some(get) => match chain {
                    None => Err(SpdmErrorCode::SpdmErrorUnspecified),
                    Some(chain) => if get.slot_id != 0 || !chain.wf() || get.offset
                        > chain.data_size {
                        Err(SpdmErrorCode::SpdmErrorInvalidRequest)
                    } else {
                        let rest = chain.data_size - get.offset;
                        let wanted = if get.length as int > MAX_SPDM_CERT_PORTION_LEN {
                            MAX_SPDM_CERT_PORTION_LEN as int
                        } else {
                            get.length as int
                        };
                        let portion = if wanted > rest {
                            rest
                        } else {
                            wanted
                        };
                        Ok(
                            SpdmCertificateResponse {
                                slot_id: 0,
                                portion_length: portion as u16,
                                remainder_length: (rest - portion) as u16,
                                cert_chain: chain.spec_bytes().subrange(
                                    get.offset as int,
                                    get.offset + portion,
                                ),
                            },
                        )
                    },
                },
            }
        },
    }
}

/// The answer of a responder to the request `request`: see `spec_certificate_answer`.
pub fn certificate_answer(
    version: SpdmVersion,
    capabilities: SpdmResponseCapabilityFlags,
    chain: &Option<SpdmCertChainData>,
    request: &[u8],
) -> (r: Result<SpdmCertificateResponsePayload, SpdmErrorCode>)
    ensures
        match spec_certificate_answer(version, capabilities, *chain, request@) {
            Err(e) => r == Err::<SpdmCertificateResponsePayload, SpdmErrorCode>(e),
            Ok(answer) => r matches Ok(p) && p@ == answer && p.wf() && answer.wf(),
        },
{
    let mut reader = Reader::init(request);
    let ghost r0 = reader;
    assert(reader.remaining() =~= request@);
    let header = match SpdmMessageHeader::read(&mut reader) {
        Some(h) => h,
        None => {
            return Err(SpdmErrorCode::SpdmErrorInvalidRequest);
        },
    };
    proof {
        reader.lemma_advanced(r0, 2);
    }
    if header.version != version {
        return Err(SpdmErrorCode::SpdmErrorVersionMismatch);
    }
    if header.request_response_code != SpdmRequestResponseCode::SpdmRequestGetCertificate {
        return Err(SpdmErrorCode::SpdmErrorUnexpectedRequest);
    }
    if !capabilities.contains(SPDM_CAP_CERT) {
        return Err(SpdmErrorCode::SpdmErrorUnsupportedRequest);
    }
    let get = match SpdmGetCertificateRequestPayload::spdm_read(&mut reader) {
        Some(g) => g,
        None => {
            return Err(SpdmErrorCode::SpdmErrorInvalidRequest);
        },
    };
    let chain = match chain {
        Some(c) => c,
        None => {
            return Err(SpdmErrorCode::SpdmErrorUnspecified);
        },
    };
    if get.slot_id != 0 || chain.data_size as usize > crate::config::MAX_SPDM_CERT_CHAIN_DATA_SIZE
        || get.offset > chain.data_size {
        return Err(SpdmErrorCode::SpdmErrorInvalidRequest);
    }
    let rest: u16 = chain.data_size - get.offset;
    let wanted: u16 = if get.length as usize > MAX_SPDM_CERT_PORTION_LEN {
        MAX_SPDM_CERT_PORTION_LEN as u16
    } else {
        get.length
    };
    let portion: u16 = if wanted > rest {
        rest
    } else {
        wanted
    };
    let mut cert_chain = [0u8; MAX_SPDM_CERT_PORTION_LEN];
    let bytes = slice_range(&chain.data, get.offset as usize, (get.offset + portion) as usize);
    fill_array_front(&mut cert_chain, bytes);
    let p = SpdmCertificateResponsePayload {
        slot_id: 0,
        portion_length: portion,
        remainder_length: rest - portion,
        cert_chain,
    };
    proof {
        assert(bytes@ =~= chain.spec_bytes().subrange(get.offset as int, get.offset + portion));
        assert(p@.cert_chain =~= bytes@);
    }
    Ok(p)
}

/// What a responder answers to a well-formed GET_CERTIFICATE for slot 0 is what a
/// requester accepts: the portion is no longer than what was asked for, it and what
/// follows it end where the chain ends, and the slot is the one asked for. So a
/// requester that asks from offset 0 on, and checks each portion against the size that
/// the first one announced, is never refused by its own checks.
pub proof fn lemma_certificate_answer_is_accepted(
    version: SpdmVersion,
    capabilities: SpdmResponseCapabilityFlags,
    chain: SpdmCertChainData,
    get: SpdmGetCertificateRequestPayload,
    total_size: u16,
    slot_occupied: bool,
)
    requires
        spec_certificate_answer(version, capabilities, Some(chain), get.spec_message(version))
            is Ok,
        total_size == 0 || total_size == chain.data_size,
        slot_occupied || get.offset == 0,
    ensures
        ({
            let answer = spec_certificate_answer(
                version,
                capabilities,
                Some(chain),
                get.spec_message(version),
            )->Ok_0;
            &&& answer.wf()
            &&& get.offset + answer.portion_length + answer.remainder_length == chain.data_size
            &&& answer.cert_chain == chain.spec_bytes().subrange(
                get.offset as int,
                get.offset + answer.portion_length,
            )
            &&& answer.spec_check(slot_occupied, get.slot_id, total_size, get.offset, get.length)
                == Ok::<(u16, u16), SpdmStatus>((answer.portion_length, answer.remainder_length))
        }),
{
    let message = get.spec_message(version);
    let header = SpdmMessageHeader {
        version,
        request_response_code: SpdmRequestResponseCode::SpdmRequestGetCertificate,
    };
    assert(message =~= header.spec_encode() + get.spec_encode());
    crate::message::header::lemma_header_roundtrip(header, get.spec_encode());
    assert(message.subrange(2, message.len() as int) =~= get.spec_encode() + Seq::<u8>::empty());
    crate::message::certificate::lemma_get_certificate_roundtrip(get, Seq::<u8>::empty());
}

/// A CERTIFICATE response on the wire, in `version`.
pub open spec fn spec_certificate_message(version: SpdmVersion, answer: SpdmCertificateResponse) -> Seq<
    u8,
> {
    seq![version.spec_u8(), 0x02u8] + answer.spec_encode()
}

impl<'a, D: SpdmDeviceIo, T: SpdmTransportEncap> ResponderContext<'a, D, T> {
    /// What the responder sends in answer to `request`, and what it records: the
    /// CERTIFICATE and the longer transcript, or the ERROR and the transcript as it is.
    /// Outside a session the exchange is recorded; where the transcript has no room for
    /// it, the request is refused.
    pub open spec fn spec_certificate_reply(self, session_id: Option<u32>, request: Seq<u8>) -> (
        Seq<u8>,
        Seq<u8>,
    ) {
        let version = self.common.negotiate_info.spdm_version_sel;
        let message_b = self.common.runtime_info.message_b@;
        match spec_certificate_answer(
            version,
            self.common.config_info.rsp_capabilities,
            self.common.provision_info.my_cert_chain,
            request,
        ) {
            Err(e) => (crate::responder::error_rsp::spec_error_message(version, e, 0), message_b),
            Ok(answer) => {
                let response = spec_certificate_message(version, answer);
                if session_id is Some {
                    (response, message_b)
                } else if ManagedBuffer::spec_append(message_b, request + response) is None {
                    (
                        crate::responder::error_rsp::spec_error_message(
                            version,
                            SpdmErrorCode::SpdmErrorUnspecified,
                            0,
                        ),
                        message_b,
                    )
                } else {
                    (response, message_b + request + response)
                }
            },
        }
    }

    /// Write the answer to the GET_CERTIFICATE `bytes` into `writer`, and record the
    /// exchange where it is answered with a CERTIFICATE outside a session. The result
    /// says whether a CERTIFICATE was written. Where `writer` has no room for the
    /// answer, nothing is written and nothing is recorded.
    pub fn write_spdm_certificate_response(
        &mut self,
        session_id: Option<u32>,
        bytes: &[u8],
        writer: &mut Writer,
    ) -> (ok: bool)
        ensures
            ({
                let reply = old(self).spec_certificate_reply(session_id, bytes@);
                if old(writer).has_room(reply.0.len()) {
                    &&& final(writer).appended_to(*old(writer), reply.0)
                    &&& final(self).common.runtime_info.message_b@ == reply.1
                    &&& ok == (reply.0[1] == 0x02u8)
                } else {
                    &&& *final(writer) == *old(writer)
                    &&& final(self).common.runtime_info == old(self).common.runtime_info
                    &&& !ok
                }
            }),
            old(self).spec_certificate_reply(session_id, bytes@).0.len() >= 4,
            final(self).common.crypto == old(self).common.crypto,
            final(self).common.config_info == old(self).common.config_info,
            final(self).common.negotiate_info == old(self).common.negotiate_info,
            final(self).common.provision_info == old(self).common.provision_info,
            final(self).common.peer_info == old(self).common.peer_info,
            final(self).common.session == old(self).common.session,
            final(self).common.runtime_info.message_a == old(self).common.runtime_info.message_a,
            final(self).common.runtime_info.message_c == old(self).common.runtime_info.message_c,
            final(self).common.runtime_info.message_m == old(self).common.runtime_info.message_m,
            !ok ==> final(self).common.runtime_info == old(self).common.runtime_info,
    {
        let version = self.common.negotiate_info.spdm_version_sel;
        let mut reply = Writer::init(MAX_SPDM_MESSAGE_BUFFER_SIZE);
        let mut ok: bool = false;
        match certificate_answer(
            version,
            self.common.config_info.rsp_capabilities,
            &self.common.provision_info.my_cert_chain,
            bytes,
        ) {
            Ok(answer) => {
                let header = SpdmMessageHeader {
                    version,
                    request_response_code: SpdmRequestResponseCode::SpdmResponseCertificate,
                };
                let _ = header.encode(&mut reply);
                let _ = answer.spdm_encode(&mut reply);
                assert(reply@ =~= spec_certificate_message(version, answer@));
                if session_id.is_none() && (bytes.len() > MAX_SPDM_MESSAGE_BUFFER_SIZE
                    || !self.common.runtime_info.message_b.has_room(bytes.len() + reply.used())) {
                    reply = Writer::init(MAX_SPDM_MESSAGE_BUFFER_SIZE);
                    let _ = write_error_message(
                        version,
                        SpdmErrorCode::SpdmErrorUnspecified,
                        0,
                        &mut reply,
                    );
                } else {
                    ok = true;
                }
            },
            Err(e) => {
                let _ = write_error_message(version, e, 0, &mut reply);
            },
        }
        if writer.extend_from_slice(reply.used_slice()).is_none() {
            return false;
        }
        if ok && session_id.is_none() {
            let ghost before_b = self.common.runtime_info.message_b@;
            let _ = self.common.runtime_info.message_b.append_message(bytes);
            let _ = self.common.runtime_info.message_b.append_message(reply.used_slice());
            assert(self.common.runtime_info.message_b@ =~= before_b + bytes@ + reply@);
            assert(before_b + (bytes@ + reply@) =~= before_b + bytes@ + reply@);
        }
        ok
    }

    /// Answer the GET_CERTIFICATE `bytes`: with a CERTIFICATE that carries the portion
    /// asked for, or with an ERROR. The answer goes the way the request came: within
    /// the session `session_id`, or in the clear.
    pub fn handle_spdm_certificate(&mut self, session_id: Option<u32>, bytes: &[u8]) -> (r: SpdmResult)
        ensures
            r matches Err(e) ==> e.spec_send_failure() || (session_id is Some
                && e.spec_protect_failure()),
            final(self).common.runtime_info.message_b@ == old(self).spec_certificate_reply(
                session_id,
                bytes@,
            ).1,
            final(self).common.crypto == old(self).common.crypto,
            final(self).common.config_info == old(self).common.config_info,
            final(self).common.negotiate_info == old(self).common.negotiate_info,
            final(self).common.provision_info == old(self).common.provision_info,
            final(self).common.peer_info == old(self).common.peer_info,
            final(self).common.runtime_info.message_a == old(self).common.runtime_info.message_a,
            final(self).common.runtime_info.message_c == old(self).common.runtime_info.message_c,
            final(self).common.runtime_info.message_m == old(self).common.runtime_info.message_m,
            final(self).common.spec_sessions_carried_on(old(self).common),
            session_id is None ==> final(self).common.session == old(self).common.session,
    {
        proof {
            crate::common::lemma_table_carried_on(
                self.common.session@,
                self.common.session@,
                self.common.session@,
            );
        }
        let mut writer = Writer::init(MAX_SPDM_MESSAGE_BUFFER_SIZE);
        let _ = self.write_spdm_certificate_response(session_id, bytes, &mut writer);
        match session_id {
            Some(id) => self.send_secured_message(id, writer.used_slice(), false),
            None => self.send_message(writer.used_slice()),
        }
    }
}

} // verus!
