use std::cell::RefCell;
use std::collections::VecDeque;

use spdmlib::codec::Writer;
use spdmlib::common::{
    check_length, SpdmConfigInfo, SpdmDeviceIo, SpdmProvisionInfo, SpdmTransportEncap,
};
use spdmlib::config::MAX_SPDM_MESSAGE_BUFFER_SIZE;
use spdmlib::crypto::{SpdmAead, SpdmHash, SpdmHkdf, SpdmHmac};
use spdmlib::error::{SpdmResult, SpdmStatus};
use spdmlib::message::error_response::SpdmErrorCode;
use spdmlib::protocol::{
    SpdmAeadAlgo, SpdmBaseHashAlgo, SpdmCertChainData, SpdmDheAlgo, SpdmDigestStruct,
    SpdmKeyScheduleAlgo, SpdmResponseCapabilityFlags, SpdmVersion, SPDM_CAP_CERT, SPDM_CAP_PSK,
};
use spdmlib::responder::certificate_rsp::certificate_answer;
use spdmlib::responder::context::ResponderContext;
use spdmlib::responder::psk_finish_rsp::{psk_finish_check, transcript_of};
use spdmlib::session::{SpdmSession, SpdmSessionState, SpdmSessionTranscript};

struct SharedBuffer {
    frames: RefCell<VecDeque<Vec<u8>>>,
}

impl SharedBuffer {
    fn new() -> Self {
        SharedBuffer { frames: RefCell::new(VecDeque::new()) }
    }

    fn next(&self) -> Option<Vec<u8>> {
        self.frames.borrow_mut().pop_front()
    }
}

struct FakeSpdmDeviceIoReceve<'a> {
    data: &'a SharedBuffer,
}

impl SpdmDeviceIo for FakeSpdmDeviceIoReceve<'_> {
    fn send(&mut self, buffer: &[u8]) -> SpdmResult {
        self.data.frames.borrow_mut().push_back(buffer.to_vec());
        Ok(())
    }

    fn receive(&mut self, buffer: &mut [u8]) -> SpdmResult<usize> {
        match self.data.frames.borrow_mut().pop_front() {
            Some(frame) if frame.len() <= buffer.len() => {
                buffer[..frame.len()].copy_from_slice(&frame);
                Ok(frame.len())
            }
            _ => Err(SpdmStatus::ReceiveFail),
        }
    }
}

/// A transport that marks a frame with one byte: 1 in the clear, 2 secured.
struct MarkTransport {}

impl SpdmTransportEncap for MarkTransport {
    fn encap(
        &mut self,
        spdm_buffer: &[u8],
        transport_buffer: &mut [u8],
        secured_message: bool,
    ) -> SpdmResult<usize> {
        if transport_buffer.len() < spdm_buffer.len() + 1 {
            return Err(SpdmStatus::EncapFail);
        }
        transport_buffer[0] = if secured_message { 2 } else { 1 };
        transport_buffer[1..1 + spdm_buffer.len()].copy_from_slice(spdm_buffer);
        Ok(spdm_buffer.len() + 1)
    }

    fn decap(
        &mut self,
        transport_buffer: &[u8],
        spdm_buffer: &mut [u8],
    ) -> SpdmResult<(usize, bool)> {
        if transport_buffer.is_empty() || spdm_buffer.len() < transport_buffer.len() - 1 {
            return Err(SpdmStatus::DecapFail);
        }
        let secured = match transport_buffer[0] {
            1 => false,
            2 => true,
            _ => return Err(SpdmStatus::DecapFail),
        };
        spdm_buffer[..transport_buffer.len() - 1].copy_from_slice(&transport_buffer[1..]);
        Ok((transport_buffer.len() - 1, secured))
    }

    fn encap_app(
        &mut self,
        spdm_buffer: &[u8],
        app_buffer: &mut [u8],
        _is_app_message: bool,
    ) -> SpdmResult<usize> {
        app_buffer[..spdm_buffer.len()].copy_from_slice(spdm_buffer);
        Ok(spdm_buffer.len())
    }

    fn decap_app(
        &mut self,
        app_buffer: &[u8],
        spdm_buffer: &mut [u8],
    ) -> SpdmResult<(usize, bool)> {
        spdm_buffer[..app_buffer.len()].copy_from_slice(app_buffer);
        Ok((app_buffer.len(), false))
    }

    fn get_sequence_number_count(&mut self) -> u8 {
        2
    }
}

fn test_bytes(size: usize, inputs: &[&[u8]]) -> Vec<u8> {
    let mut state: u32 = 0x811c_9dc5 ^ (size as u32);
    for input in inputs {
        state = state.rotate_left(3) ^ input.len() as u32;
        for b in input.iter() {
            state = (state ^ (*b as u32)).wrapping_mul(0x0100_0193).rotate_left(5);
        }
    }
    (0..size)
        .map(|i| {
            state = (state ^ (i as u32)).wrapping_mul(0x0100_0193).rotate_left(7);
            (state >> 11) as u8
        })
        .collect()
}

struct TestHash {
    seen: RefCell<Vec<Vec<u8>>>,
}

impl SpdmHash for TestHash {
    fn hash_all(&self, base_hash_algo: SpdmBaseHashAlgo, data: &[u8]) -> Option<SpdmDigestStruct> {
        self.seen.borrow_mut().push(data.to_vec());
        SpdmDigestStruct::from_bytes(&test_bytes(base_hash_algo.get_size() as usize, &[data]))
    }
}

struct TestHmac {}

impl SpdmHmac for TestHmac {
    fn hmac(&self, base_hash_algo: SpdmBaseHashAlgo, key: &[u8], data: &[u8]) -> Option<SpdmDigestStruct> {
        SpdmDigestStruct::from_bytes(&test_bytes(base_hash_algo.get_size() as usize, &[key, data]))
    }

    fn hmac_verify(
        &self,
        base_hash_algo: SpdmBaseHashAlgo,
        key: &[u8],
        data: &[u8],
        hmac: &SpdmDigestStruct,
    ) -> SpdmResult {
        let expected = test_bytes(base_hash_algo.get_size() as usize, &[key, data]);
        if hmac.data[..hmac.data_size as usize] == expected[..] {
            Ok(())
        } else {
            Err(SpdmStatus::CryptoError)
        }
    }
}

/// A keyed digest that holds whatever it is shown.
struct FuzzHmac {}

impl SpdmHmac for FuzzHmac {
    fn hmac(&self, base_hash_algo: SpdmBaseHashAlgo, _key: &[u8], _data: &[u8]) -> Option<SpdmDigestStruct> {
        SpdmDigestStruct::from_bytes(&vec![0x10; base_hash_algo.get_size() as usize])
    }

    fn hmac_verify(
        &self,
        _base_hash_algo: SpdmBaseHashAlgo,
        _key: &[u8],
        _data: &[u8],
        _hmac: &SpdmDigestStruct,
    ) -> SpdmResult {
        Ok(())
    }
}

struct TestHkdf {}

impl SpdmHkdf for TestHkdf {
    fn hkdf_expand(
        &self,
        _base_hash_algo: SpdmBaseHashAlgo,
        pseudo_random_key: &[u8],
        info: &[u8],
        out_size: u16,
    ) -> Option<SpdmDigestStruct> {
        SpdmDigestStruct::from_bytes(&test_bytes(out_size as usize, &[pseudo_random_key, info]))
    }
}

struct TestAead {}

fn test_tag(key: &[u8], iv: &[u8], aad: &[u8], cipher_text: &[u8]) -> Vec<u8> {
    test_bytes(16, &[key, iv, aad, cipher_text])
}

impl SpdmAead for TestAead {
    fn encrypt(
        &self,
        _aead_algo: SpdmAeadAlgo,
        key: &[u8],
        iv: &[u8],
        aad: &[u8],
        plain_text: &[u8],
    ) -> SpdmResult<(Vec<u8>, Vec<u8>)> {
        let cipher_text: Vec<u8> =
            plain_text.iter().enumerate().map(|(i, b)| b ^ key[i % key.len()]).collect();
        let tag = test_tag(key, iv, aad, &cipher_text);
        Ok((cipher_text, tag))
    }

    fn decrypt(
        &self,
        _aead_algo: SpdmAeadAlgo,
        key: &[u8],
        iv: &[u8],
        aad: &[u8],
        cipher_text: &[u8],
        tag: &[u8],
    ) -> SpdmResult<Vec<u8>> {
        if test_tag(key, iv, aad, cipher_text) != tag {
            return Err(SpdmStatus::CryptoError);
        }
        Ok(cipher_text.iter().enumerate().map(|(i, b)| b ^ key[i % key.len()]).collect())
    }
}

fn rsp_create_info() -> (SpdmConfigInfo, SpdmProvisionInfo) {
    let config_info = SpdmConfigInfo {
        rsp_capabilities: SpdmResponseCapabilityFlags { bits: SPDM_CAP_CERT | SPDM_CAP_PSK },
        base_hash_algo: SpdmBaseHashAlgo::TPM_ALG_SHA_384,
        ..SpdmConfigInfo::default()
    };
    (config_info, SpdmProvisionInfo::default())
}

const SESSION_ID: u32 = 0xFFFE_FFFE;

fn established(session: &mut SpdmSession) {
    session.setup(4294901758).unwrap();
    session.set_crypto_param(
        SpdmBaseHashAlgo::TPM_ALG_SHA_384,
        SpdmDheAlgo::SECP_384_R1,
        SpdmAeadAlgo::AES_256_GCM,
        SpdmKeyScheduleAlgo::SPDM_KEY_SCHEDULE,
    );
    session.set_session_state(SpdmSessionState::SpdmSessionHandshaking).unwrap();
    session.set_session_state(SpdmSessionState::SpdmSessionEstablished).unwrap();
}

#[test]
fn a_malformed_psk_finish_is_refused_and_changes_nothing() {
    let (config_info, provision_info) = rsp_create_info();
    let shared_buffer = SharedBuffer::new();
    let mut device = FakeSpdmDeviceIoReceve { data: &shared_buffer };
    let mut transport = MarkTransport {};
    let mut context = ResponderContext::new(&mut device, &mut transport, config_info, provision_info);
    context.common.negotiate_info.base_hash_sel = SpdmBaseHashAlgo::TPM_ALG_SHA_384;
    established(&mut context.common.session[0]);
    assert_eq!(SESSION_ID, 4294901758);

    assert_eq!(context.handle_spdm_psk_finish(SESSION_ID, &[1u8; 92]), Ok(()));
    // An ERROR in the clear: invalid request.
    assert_eq!(shared_buffer.next(), Some(vec![1, 0x10, 0x7F, 0x01, 0x00]));
    assert_eq!(shared_buffer.next(), None);
    let session = &context.common.session[0];
    assert_eq!(session.get_session_state(), SpdmSessionState::SpdmSessionEstablished);
    assert_eq!(session.get_session_id(), SESSION_ID);
    for which in [
        SpdmSessionTranscript::MessageK,
        SpdmSessionTranscript::MessageF,
        SpdmSessionTranscript::MessageM,
    ] {
        assert_eq!(session.message(which).len(), 0);
    }
    assert_eq!(context.common.runtime_info.message_a.as_ref().len(), 0);
    assert_eq!(session.get_phase_secret(true).response_direction.sequence_number, 0);

    // Even where any proof would hold, the request is no PSK_FINISH.
    let hmac = FuzzHmac {};
    context.common.crypto.register_hmac(Some(&hmac));
    assert_eq!(context.handle_spdm_psk_finish(SESSION_ID, &[1u8; 92]), Ok(()));
    assert_eq!(shared_buffer.next(), Some(vec![1, 0x10, 0x7F, 0x01, 0x00]));
    assert_eq!(
        context.common.session[0].get_session_state(),
        SpdmSessionState::SpdmSessionEstablished
    );
    assert_eq!(context.common.session[0].message(SpdmSessionTranscript::MessageF).len(), 0);

    // With the negotiation transcript full, a well-formed request still cannot be
    // answered: nothing progresses.
    let hash = TestHash { seen: RefCell::new(Vec::new()) };
    context.common.crypto.register_hash(Some(&hash));
    assert!(context
        .common
        .runtime_info
        .message_a
        .append_message(&[1u8; MAX_SPDM_MESSAGE_BUFFER_SIZE])
        .is_ok());
    let mut request = vec![0x10, 0xE7, 0x00, 0x00];
    request.extend_from_slice(&[1u8; 48]);
    assert_eq!(context.handle_spdm_psk_finish(SESSION_ID, &request), Ok(()));
    assert_eq!(shared_buffer.next(), Some(vec![1, 0x10, 0x7F, 0x05, 0x00]));
    assert_eq!(
        context.common.session[0].get_session_state(),
        SpdmSessionState::SpdmSessionEstablished
    );
    assert_eq!(context.common.session[0].message(SpdmSessionTranscript::MessageF).len(), 0);
    assert_eq!(hash.seen.borrow().len(), 0);
}

#[test]
fn psk_finish_is_checked_step_by_step() {
    let caps = SpdmResponseCapabilityFlags { bits: SPDM_CAP_PSK };
    let v = SpdmVersion::SpdmVersion11;
    let handshaking = Some(SpdmSessionState::SpdmSessionHandshaking);
    let mut request = vec![0x11, 0xE7, 0x00, 0x00];
    request.extend_from_slice(&[0xAB; 48]);
    let code = |r: Result<SpdmDigestStruct, SpdmErrorCode>| r.map(|d| d.data_size).unwrap_err();
    let ok = psk_finish_check(v, caps, handshaking, 48, &request).unwrap();
    assert_eq!(ok.data_size, 48);
    assert_eq!(&ok.data[..48], &[0xAB; 48]);
    assert!(psk_finish_check(v, caps, Some(SpdmSessionState::SpdmSessionEstablished), 48, &request).is_ok());
    assert_eq!(code(psk_finish_check(v, caps, handshaking, 48, &[0x11])), SpdmErrorCode::SpdmErrorInvalidRequest);
    assert_eq!(
        code(psk_finish_check(SpdmVersion::SpdmVersion12, caps, handshaking, 48, &request)),
        SpdmErrorCode::SpdmErrorVersionMismatch
    );
    let mut other = request.clone();
    other[1] = 0xE5;
    assert_eq!(code(psk_finish_check(v, caps, handshaking, 48, &other)), SpdmErrorCode::SpdmErrorUnexpectedRequest);
    assert_eq!(
        code(psk_finish_check(v, SpdmResponseCapabilityFlags { bits: SPDM_CAP_CERT }, handshaking, 48, &request)),
        SpdmErrorCode::SpdmErrorUnsupportedRequest
    );
    assert_eq!(
        code(psk_finish_check(v, caps, Some(SpdmSessionState::SpdmSessionNotStarted), 48, &request)),
        SpdmErrorCode::SpdmErrorUnexpectedRequest
    );
    assert_eq!(code(psk_finish_check(v, caps, None, 48, &request)), SpdmErrorCode::SpdmErrorUnexpectedRequest);
    assert_eq!(
        code(psk_finish_check(v, caps, handshaking, 48, &request[..51])),
        SpdmErrorCode::SpdmErrorInvalidRequest
    );
    assert_eq!(transcript_of(&[1], &[2, 3], &[4]).unwrap().as_ref(), &[1, 2, 3, 4]);
    assert!(transcript_of(&[0; 0x1000], &[0; 0x200], &[0]).is_none());
    assert!(transcript_of(&[0; 0x1000], &[0; 0x1FF], &[0]).is_some());
}

#[test]
fn psk_finish_finishes_the_handshake() {
    let (config_info, provision_info) = rsp_create_info();
    let shared_buffer = SharedBuffer::new();
    let mut device = FakeSpdmDeviceIoReceve { data: &shared_buffer };
    let mut transport = MarkTransport {};
    let hash = TestHash { seen: RefCell::new(Vec::new()) };
    let hmac = TestHmac {};
    let hkdf = TestHkdf {};
    let aead = TestAead {};
    let mut context = ResponderContext::new(&mut device, &mut transport, config_info, provision_info);
    context.common.crypto.register_hash(Some(&hash));
    context.common.crypto.register_hmac(Some(&hmac));
    context.common.crypto.register_hkdf(Some(&hkdf));
    context.common.crypto.register_aead(Some(&aead));
    context.common.negotiate_info.spdm_version_sel = SpdmVersion::SpdmVersion11;
    context.common.negotiate_info.base_hash_sel = SpdmBaseHashAlgo::TPM_ALG_SHA_384;
    assert!(context.common.runtime_info.message_a.append_message(&[0xA1, 0xA2]).is_ok());
    let crypto = context.common.crypto;
    {
        let session = &mut context.common.session[2];
        session.setup(SESSION_ID).unwrap();
        session.set_crypto_param(
            SpdmBaseHashAlgo::TPM_ALG_SHA_384,
            SpdmDheAlgo::SECP_384_R1,
            SpdmAeadAlgo::AES_256_GCM,
            SpdmKeyScheduleAlgo::SPDM_KEY_SCHEDULE,
        );
        session.set_use_psk(true);
        assert!(session.append_message(SpdmSessionTranscript::MessageK, &[0xB1, 0xB2, 0xB3]).is_ok());
        session
            .generate_handshake_secret(&crypto, SpdmVersion::SpdmVersion11, &[0x42; 16], &[0x77; 48])
            .unwrap();
        session.set_session_state(SpdmSessionState::SpdmSessionHandshaking).unwrap();
    }
    let mut requester_session = context.common.session[2];
    let finished_key = requester_session.get_phase_secret(false).request_finished_key;

    // A proof that does not hold: a decrypt error, and nothing changes.
    let mut request = vec![0x11, 0xE7, 0x00, 0x00];
    request.extend_from_slice(&[0u8; 48]);
    assert_eq!(context.handle_spdm_psk_finish(SESSION_ID, &request), Ok(()));
    assert_eq!(shared_buffer.next(), Some(vec![1, 0x11, 0x7F, 0x06, 0x00]));
    assert_eq!(
        context.common.session[2].get_session_state(),
        SpdmSessionState::SpdmSessionHandshaking
    );
    assert_eq!(context.common.session[2].message(SpdmSessionTranscript::MessageF).len(), 0);
    // What was covered by the proof: the negotiation, the key exchange, the request
    // up to the proof.
    assert_eq!(hash.seen.borrow()[0], vec![0xA1, 0xA2, 0xB1, 0xB2, 0xB3, 0x11, 0xE7, 0x00, 0x00]);

    // The proof that holds.
    let th = test_bytes(48, &[&[0xA1, 0xA2, 0xB1, 0xB2, 0xB3, 0x11, 0xE7, 0x00, 0x00]]);
    let proof = test_bytes(48, &[&finished_key.data[..48], &th]);
    let mut request = vec![0x11, 0xE7, 0x00, 0x00];
    request.extend_from_slice(&proof);
    request.extend_from_slice(&[0xEE; 3]);
    assert_eq!(context.handle_spdm_psk_finish(SESSION_ID, &request), Ok(()));
    let session = context.common.session[2];
    assert_eq!(session.get_session_state(), SpdmSessionState::SpdmSessionEstablished);
    let mut recorded = request[..52].to_vec();
    recorded.extend_from_slice(&[0x11, 0x67, 0x00, 0x00]);
    assert_eq!(session.message(SpdmSessionTranscript::MessageF), &recorded[..]);
    assert_eq!(session.message(SpdmSessionTranscript::MessageK), &[0xB1, 0xB2, 0xB3]);
    assert_eq!(session.get_phase_secret(true).request_direction.encryption_key.data_size, 32);
    assert_eq!(session.get_phase_secret(false).response_direction.sequence_number, 1);
    assert_eq!(session.get_phase_secret(true).response_direction.sequence_number, 0);
    // The keys of the established session are bound to the whole handshake.
    let mut whole = vec![0xA1, 0xA2, 0xB1, 0xB2, 0xB3];
    whole.extend_from_slice(&recorded);
    assert_eq!(hash.seen.borrow().last().unwrap(), &whole);

    // The answer came within the session, under the keys of the handshake.
    let frame = shared_buffer.next().unwrap();
    assert_eq!(frame[0], 2);
    assert_eq!(&frame[1..5], &[0xFE, 0xFF, 0xFE, 0xFF]);
    let answer = requester_session.decode_spdm_secured_message(&crypto, &frame[1..], true, 2);
    assert_eq!(answer, Ok(vec![0x11, 0x67, 0x00, 0x00]));
    assert_eq!(shared_buffer.next(), None);

    // Untouched: the other entries and the transcripts of the connection.
    assert_eq!(context.common.session[0].get_session_id(), 0);
    assert_eq!(context.common.runtime_info.message_a.as_ref(), &[0xA1, 0xA2]);
}

#[test]
fn psk_finish_for_a_session_that_is_not_there() {
    let (config_info, provision_info) = rsp_create_info();
    let shared_buffer = SharedBuffer::new();
    let mut device = FakeSpdmDeviceIoReceve { data: &shared_buffer };
    let mut transport = MarkTransport {};
    let mut context = ResponderContext::new(&mut device, &mut transport, config_info, provision_info);
    context.common.negotiate_info.base_hash_sel = SpdmBaseHashAlgo::TPM_ALG_SHA_384;
    let mut request = vec![0x10, 0xE7, 0x00, 0x00];
    request.extend_from_slice(&[0u8; 48]);
    assert_eq!(context.handle_spdm_psk_finish(SESSION_ID, &request), Ok(()));
    assert_eq!(shared_buffer.next(), Some(vec![1, 0x10, 0x7F, 0x04, 0x00]));
    let mut writer = Writer::init(4);
    assert!(!context.write_spdm_psk_finish_response(0, &request, &mut writer));
    assert_eq!(writer.used_slice(), &[0x10, 0x7F, 0x04, 0x00]);
}

fn chain_of(len: usize) -> SpdmCertChainData {
    let bytes: Vec<u8> = (0..len).map(|i| (i * 3) as u8).collect();
    SpdmCertChainData::from_bytes(&bytes).unwrap()
}

#[test]
fn the_responder_cuts_the_portion_that_was_asked_for() {
    let caps = SpdmResponseCapabilityFlags { bits: SPDM_CAP_CERT };
    let v = SpdmVersion::SpdmVersion10;
    let chain = Some(chain_of(0x600));
    let get = |slot: u8, offset: u16, length: u16| {
        let mut request = vec![0x10, 0x82, slot, 0x00];
        request.extend_from_slice(&offset.to_le_bytes());
        request.extend_from_slice(&length.to_le_bytes());
        request
    };
    let answer = certificate_answer(v, caps, &chain, &get(0, 0, 0x400)).unwrap();
    assert_eq!((answer.slot_id, answer.portion_length, answer.remainder_length), (0, 0x400, 0x200));
    assert_eq!(&answer.cert_chain[..], &chain.unwrap().data[..0x400]);
    let answer = certificate_answer(v, caps, &chain, &get(0, 0x400, 0x400)).unwrap();
    assert_eq!((answer.portion_length, answer.remainder_length), (0x200, 0));
    assert_eq!(&answer.cert_chain[..0x200], &chain.unwrap().data[0x400..0x600]);
    // No more than one message may carry.
    let answer = certificate_answer(v, caps, &chain, &get(0, 0x10, 0xFFFF)).unwrap();
    assert_eq!((answer.portion_length, answer.remainder_length), (0x400, 0x1F0));
    let answer = certificate_answer(v, caps, &chain, &get(0, 0x5FF, 2)).unwrap();
    assert_eq!((answer.portion_length, answer.remainder_length), (1, 0));
    let answer = certificate_answer(v, caps, &chain, &get(0, 0x600, 2)).unwrap();
    assert_eq!((answer.portion_length, answer.remainder_length), (0, 0));
    let code = |r: Result<_, SpdmErrorCode>| r.map(|_: spdmlib::message::certificate::SpdmCertificateResponsePayload| ()).unwrap_err();
    assert_eq!(code(certificate_answer(v, caps, &chain, &get(0, 0x601, 2))), SpdmErrorCode::SpdmErrorInvalidRequest);
    assert_eq!(code(certificate_answer(v, caps, &chain, &get(1, 0, 2))), SpdmErrorCode::SpdmErrorInvalidRequest);
    assert_eq!(code(certificate_answer(v, caps, &None, &get(0, 0, 2))), SpdmErrorCode::SpdmErrorUnspecified);
    assert_eq!(
        code(certificate_answer(v, SpdmResponseCapabilityFlags { bits: 0 }, &chain, &get(0, 0, 2))),
        SpdmErrorCode::SpdmErrorUnsupportedRequest
    );
    assert_eq!(
        code(certificate_answer(SpdmVersion::SpdmVersion11, caps, &chain, &get(0, 0, 2))),
        SpdmErrorCode::SpdmErrorVersionMismatch
    );
    assert_eq!(
        code(certificate_answer(v, caps, &chain, &get(0, 0, 2)[..7])),
        SpdmErrorCode::SpdmErrorInvalidRequest
    );
    assert_eq!(
        code(certificate_answer(v, caps, &chain, &[0x10, 0x81, 0, 0])),
        SpdmErrorCode::SpdmErrorUnexpectedRequest
    );
}

#[test]
fn the_responder_records_what_it_answers_with_a_certificate() {
    let (config_info, mut provision_info) = rsp_create_info();
    provision_info.my_cert_chain = Some(chain_of(0x30));
    let shared_buffer = SharedBuffer::new();
    let mut device = FakeSpdmDeviceIoReceve { data: &shared_buffer };
    let mut transport = MarkTransport {};
    let mut context = ResponderContext::new(&mut device, &mut transport, config_info, provision_info);
    let request = [0x10, 0x82, 0x00, 0x00, 0x10, 0x00, 0x08, 0x00];
    let mut writer = Writer::init(MAX_SPDM_MESSAGE_BUFFER_SIZE);
    assert!(context.write_spdm_certificate_response(None, &request, &mut writer));
    let mut response = vec![0x10, 0x02, 0x00, 0x00, 0x08, 0x00, 0x18, 0x00];
    response.extend((0x10..0x18).map(|i| (i * 3) as u8));
    assert_eq!(writer.used_slice(), &response[..]);
    let mut recorded = request.to_vec();
    recorded.extend_from_slice(&response);
    assert_eq!(context.common.runtime_info.message_b.as_ref(), &recorded[..]);

    // A request that is refused is not recorded.
    let mut writer = Writer::init(MAX_SPDM_MESSAGE_BUFFER_SIZE);
    assert!(!context.write_spdm_certificate_response(None, &[0x10, 0x82, 0x01, 0x00, 0, 0, 8, 0], &mut writer));
    assert_eq!(writer.used_slice(), &[0x10, 0x7F, 0x01, 0x00]);
    assert_eq!(context.common.runtime_info.message_b.as_ref(), &recorded[..]);

    // Neither is one that the transcript has no room for.
    let filler = vec![0u8; MAX_SPDM_MESSAGE_BUFFER_SIZE - recorded.len() - 8 - 16 + 1];
    assert!(context.common.runtime_info.message_b.append_message(&filler).is_ok());
    let mut writer = Writer::init(MAX_SPDM_MESSAGE_BUFFER_SIZE);
    assert!(!context.write_spdm_certificate_response(None, &request, &mut writer));
    assert_eq!(writer.used_slice(), &[0x10, 0x7F, 0x05, 0x00]);
    assert_eq!(
        context.common.runtime_info.message_b.as_ref().len(),
        MAX_SPDM_MESSAGE_BUFFER_SIZE - 8 - 16 + 1
    );
}

#[test]
fn requests_that_the_responder_does_not_serve() {
    let (config_info, provision_info) = rsp_create_info();
    let shared_buffer = SharedBuffer::new();
    let mut device = FakeSpdmDeviceIoReceve { data: &shared_buffer };
    let mut transport = MarkTransport {};
    let mut context = ResponderContext::new(&mut device, &mut transport, config_info, provision_info);
    // Nothing came.
    assert_eq!(context.process_message(), Err(SpdmStatus::ReceiveFail));
    // GET_DIGESTS.
    shared_buffer.frames.borrow_mut().push_back(vec![1, 0x10, 0x81, 0x00, 0x00]);
    assert_eq!(context.process_message(), Ok(()));
    assert_eq!(shared_buffer.next(), Some(vec![1, 0x10, 0x7F, 0x07, 0x00]));
    // PSK_FINISH in the clear.
    shared_buffer.frames.borrow_mut().push_back(vec![1, 0x10, 0xE7, 0x00, 0x00]);
    assert_eq!(context.process_message(), Ok(()));
    assert_eq!(shared_buffer.next(), Some(vec![1, 0x10, 0x7F, 0x04, 0x00]));
    // Not a message at all.
    shared_buffer.frames.borrow_mut().push_back(vec![1, 0x10]);
    assert_eq!(context.process_message(), Ok(()));
    assert_eq!(shared_buffer.next(), Some(vec![1, 0x10, 0x7F, 0x01, 0x00]));
    // GET_CERTIFICATE without a chain.
    shared_buffer.frames.borrow_mut().push_back(vec![1, 0x10, 0x82, 0, 0, 0, 0, 8, 0]);
    assert_eq!(context.process_message(), Ok(()));
    assert_eq!(shared_buffer.next(), Some(vec![1, 0x10, 0x7F, 0x05, 0x00]));
    // A secured frame of a session that is not there.
    shared_buffer.frames.borrow_mut().push_back(vec![2, 1, 0, 0, 0, 0, 0, 18, 0]);
    assert_eq!(context.process_message(), Err(SpdmStatus::InvalidParameter));
    assert_eq!(shared_buffer.next(), None);
    assert_eq!(context.send_spdm_error(SpdmErrorCode::SpdmErrorBusy, 0x09), Ok(()));
    assert_eq!(shared_buffer.next(), Some(vec![1, 0x10, 0x7F, 0x03, 0x09]));
}

#[test]
fn a_reported_length_must_lie_within_the_room() {
    assert_eq!(check_length(Ok(0), 8, SpdmStatus::EncapFail), Ok(0));
    assert_eq!(check_length(Ok(8), 8, SpdmStatus::EncapFail), Ok(8));
    assert_eq!(check_length(Ok(9), 8, SpdmStatus::EncapFail), Err(SpdmStatus::EncapFail));
    assert_eq!(check_length(Ok(9), 8, SpdmStatus::DecapFail), Err(SpdmStatus::DecapFail));
    assert_eq!(
        check_length(Err(SpdmStatus::InvalidParameter), 8, SpdmStatus::ReceiveFail),
        Err(SpdmStatus::ReceiveFail)
    );
}

/// A transport that says that it made a frame longer than there was room for.
struct OverlongTransport {}

impl SpdmTransportEncap for OverlongTransport {
    fn encap(&mut self, _: &[u8], transport_buffer: &mut [u8], _: bool) -> SpdmResult<usize> {
        Ok(transport_buffer.len() + 1)
    }

    fn decap(&mut self, _: &[u8], spdm_buffer: &mut [u8]) -> SpdmResult<(usize, bool)> {
        Ok((spdm_buffer.len() + 1, false))
    }

    fn encap_app(&mut self, _: &[u8], app_buffer: &mut [u8], _: bool) -> SpdmResult<usize> {
        Ok(app_buffer.len() + 1)
    }

    fn decap_app(&mut self, _: &[u8], spdm_buffer: &mut [u8]) -> SpdmResult<(usize, bool)> {
        Ok((spdm_buffer.len() + 1, false))
    }

    fn get_sequence_number_count(&mut self) -> u8 {
        0
    }
}

#[test]
fn sending_fails_with_the_transport_or_the_device_and_changes_nothing() {
    let (config_info, provision_info) = rsp_create_info();
    let shared_buffer = SharedBuffer::new();
    let mut device = FakeSpdmDeviceIoReceve { data: &shared_buffer };
    let mut transport = OverlongTransport {};
    let mut context = ResponderContext::new(&mut device, &mut transport, config_info, provision_info);
    established(&mut context.common.session[0]);
    assert_eq!(context.send_message(&[1, 2, 3]), Err(SpdmStatus::EncapFail));
    assert_eq!(context.send_spdm_error(SpdmErrorCode::SpdmErrorBusy, 0), Err(SpdmStatus::EncapFail));
    assert_eq!(context.answer_with_error(None, SpdmErrorCode::SpdmErrorBusy), Err(SpdmStatus::EncapFail));
    assert_eq!(context.send_secured_message(SESSION_ID, &[1], false), Err(SpdmStatus::EncapFail));
    // A session that is not in the table is a fault of the caller.
    assert_eq!(context.send_secured_message(7, &[1], false), Err(SpdmStatus::InvalidParameter));
    assert_eq!(
        context.answer_with_error(Some(7), SpdmErrorCode::SpdmErrorBusy),
        Err(SpdmStatus::InvalidParameter)
    );
    shared_buffer.frames.borrow_mut().push_back(vec![1, 2, 3]);
    assert_eq!(context.process_message(), Err(SpdmStatus::DecapFail));
    assert_eq!(shared_buffer.next(), None);
    assert_eq!(context.common.session[0].get_phase_secret(true).response_direction.sequence_number, 0);
}

#[test]
fn a_session_sends_only_where_it_can_protect() {
    let (config_info, provision_info) = rsp_create_info();
    let shared_buffer = SharedBuffer::new();
    let mut device = FakeSpdmDeviceIoReceve { data: &shared_buffer };
    let mut transport = MarkTransport {};
    let hmac = TestHmac {};
    let hkdf = TestHkdf {};
    let aead = TestAead {};
    let mut context = ResponderContext::new(&mut device, &mut transport, config_info, provision_info);
    context.common.crypto.register_hmac(Some(&hmac));
    context.common.crypto.register_hkdf(Some(&hkdf));
    let crypto = context.common.crypto;
    {
        let session = &mut context.common.session[1];
        session.setup(SESSION_ID).unwrap();
        session.set_crypto_param(
            SpdmBaseHashAlgo::TPM_ALG_SHA_384,
            SpdmDheAlgo::SECP_384_R1,
            SpdmAeadAlgo::AES_256_GCM,
            SpdmKeyScheduleAlgo::SPDM_KEY_SCHEDULE,
        );
        // Set up, but not started.
    }
    assert_eq!(context.send_secured_message(SESSION_ID, &[1], false), Err(SpdmStatus::InvalidStateLocal));
    context.common.session[1].set_session_state(SpdmSessionState::SpdmSessionHandshaking).unwrap();
    // Started, but without keys.
    assert_eq!(context.send_secured_message(SESSION_ID, &[1], false), Err(SpdmStatus::InvalidStateLocal));
    context.common.session[1]
        .generate_handshake_secret(&crypto, SpdmVersion::SpdmVersion11, &[0x42; 16], &[0x77; 48])
        .unwrap();
    // With keys, but without a cipher.
    assert_eq!(context.send_secured_message(SESSION_ID, &[1], false), Err(SpdmStatus::Unsupported));
    assert_eq!(context.common.session[1].get_phase_secret(false).response_direction.sequence_number, 0);
    assert_eq!(shared_buffer.next(), None);
    context.common.crypto.register_aead(Some(&aead));
    assert_eq!(context.send_secured_message(SESSION_ID, &[1, 2], false), Ok(()));
    let secrets = context.common.session[1].get_phase_secret(false);
    assert_eq!(secrets.response_direction.sequence_number, 1);
    assert_eq!(secrets.request_direction.sequence_number, 0);
    assert_eq!(context.common.session[0].get_session_id(), 0);
    let frame = shared_buffer.next().unwrap();
    // The mark of a secured frame, the session, two bytes of the sequence number, the
    // length of four bytes of cipher text and the tag.
    assert_eq!(&frame[..9], &[2, 0xFE, 0xFF, 0xFE, 0xFF, 0, 0, 20, 0]);
    assert_eq!(frame.len(), 1 + 8 + 4 + 16);
    assert_eq!(context.answer_with_error(Some(SESSION_ID), SpdmErrorCode::SpdmErrorBusy), Ok(()));
    assert_eq!(context.common.session[1].get_phase_secret(false).response_direction.sequence_number, 2);
    assert_eq!(shared_buffer.next().unwrap().len(), 1 + 8 + 6 + 16);
}

#[test]
fn a_new_session_holds_no_key() {
    let session = SpdmSession::new();
    for established in [false, true] {
        let phase = session.get_phase_secret(established);
        for digest in [
            phase.main_secret,
            phase.request_secret,
            phase.response_secret,
            phase.request_finished_key,
            phase.response_finished_key,
        ] {
            assert_eq!(digest.data_size, 0);
            assert_eq!(digest.data, [0u8; 64]);
        }
        for direction in [phase.request_direction, phase.response_direction] {
            assert_eq!(direction.sequence_number, 0);
            assert_eq!(direction.encryption_key.data_size, 0);
            assert_eq!(direction.encryption_key.data, [0u8; 32]);
            assert_eq!(direction.salt.data_size, 0);
            assert_eq!(direction.salt.data, [0u8; 12]);
        }
    }
    assert_eq!(session.get_crypto_param().base_hash_algo, SpdmBaseHashAlgo::TPM_ALG_SHA_256);
    assert_eq!(session.get_crypto_param().aead_algo, SpdmAeadAlgo::AES_128_GCM);
    assert_eq!(session.get_crypto_param().dhe_algo, SpdmDheAlgo::SECP_256_R1);
    assert_eq!(spdmlib::protocol::SpdmSignatureStruct::new().data, [0u8; 512]);

    // A session that is torn down keeps no key.
    let hmac = TestHmac {};
    let hkdf = TestHkdf {};
    let mut crypto = spdmlib::crypto::SpdmCryptoRegistry::new();
    crypto.register_hmac(Some(&hmac));
    crypto.register_hkdf(Some(&hkdf));
    let mut session = SpdmSession::new();
    session.setup(SESSION_ID).unwrap();
    session.generate_handshake_secret(&crypto, SpdmVersion::SpdmVersion11, &[1; 8], &[2; 32]).unwrap();
    session.set_session_state(SpdmSessionState::SpdmSessionHandshaking).unwrap();
    session.generate_data_secret(&crypto, SpdmVersion::SpdmVersion11, &[3; 32]).unwrap();
    assert_ne!(session.get_phase_secret(false).request_direction.encryption_key.data, [0u8; 32]);
    assert_ne!(session.get_phase_secret(true).main_secret.data, [0u8; 64]);
    session.set_session_state(SpdmSessionState::SpdmSessionNotStarted).unwrap();
    for established in [false, true] {
        let phase = session.get_phase_secret(established);
        assert_eq!(phase.main_secret.data, [0u8; 64]);
        assert_eq!(phase.request_finished_key.data, [0u8; 64]);
        assert_eq!(phase.request_direction.encryption_key.data, [0u8; 32]);
        assert_eq!(phase.response_direction.salt.data, [0u8; 12]);
        assert_eq!(phase.response_direction.encryption_key.data_size, 0);
    }
}

#[test]
fn the_answer_of_the_proof_check_decides_the_finish() {
    let (config_info, provision_info) = rsp_create_info();
    let shared_buffer = SharedBuffer::new();
    let mut device = FakeSpdmDeviceIoReceve { data: &shared_buffer };
    let mut transport = MarkTransport {};
    let mut context = ResponderContext::new(&mut device, &mut transport, config_info, provision_info);
    context.common.negotiate_info.base_hash_sel = SpdmBaseHashAlgo::TPM_ALG_SHA_384;
    established(&mut context.common.session[0]);
    assert!(context.common.session[0].append_message(SpdmSessionTranscript::MessageF, &[9, 9]).is_ok());
    let mut request = vec![0x10, 0xE7, 0x00, 0x00];
    request.extend_from_slice(&[0xAB; 48]);
    request.extend_from_slice(&[0xEE; 5]);
    let code = |r: Result<SpdmSession, SpdmErrorCode>| r.map(|_| ()).unwrap_err();
    // A proof that does not hold, or could not be checked.
    for e in [SpdmStatus::CryptoError, SpdmStatus::Unsupported, SpdmStatus::InvalidStateLocal] {
        assert_eq!(
            code(context.psk_finish_after_proof(0, &request, Err(e))),
            SpdmErrorCode::SpdmErrorDecryptError
        );
    }
    // A proof that holds: the request, up to the end of its proof, and the response
    // are recorded.
    let session = context.psk_finish_after_proof(0, &request, Ok(())).unwrap();
    let mut recorded = vec![9, 9];
    recorded.extend_from_slice(&request[..52]);
    recorded.extend_from_slice(&[0x10, 0x67, 0x00, 0x00]);
    assert_eq!(session.message(SpdmSessionTranscript::MessageF), &recorded[..]);
    assert_eq!(session.get_session_state(), SpdmSessionState::SpdmSessionEstablished);
    assert_eq!(session.get_session_id(), SESSION_ID);
    // The table itself is not touched.
    assert_eq!(context.common.session[0].message(SpdmSessionTranscript::MessageF), &[9, 9]);
    // No room in the transcript.
    let filler = vec![0u8; MAX_SPDM_MESSAGE_BUFFER_SIZE - 2 - 56 + 1];
    assert!(context.common.session[0].append_message(SpdmSessionTranscript::MessageF, &filler).is_ok());
    assert_eq!(
        code(context.psk_finish_after_proof(0, &request, Ok(()))),
        SpdmErrorCode::SpdmErrorUnspecified
    );
}
