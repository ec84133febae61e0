use std::cell::RefCell;
use std::collections::VecDeque;

use spdmlib::common::{
    SpdmCertChain, SpdmConfigInfo, SpdmDeviceIo, SpdmProvisionInfo, SpdmTransportEncap,
};
use spdmlib::config::MAX_SPDM_MESSAGE_BUFFER_SIZE;
use spdmlib::crypto::{SpdmAsymVerify, SpdmCertOperation, SpdmCryptoRandom, SpdmHash};
use spdmlib::error::{SpdmResult, SpdmStatus};
use spdmlib::message::measurement::{
    blocks_well_formed, SpdmMeasurementContentChanged, SpdmMeasurementOperation,
    SpdmMeasurementeAttributes, SPDM_MEASUREMENT_SIGNATURE_REQUESTED,
};
use spdmlib::protocol::{
    SpdmBaseAsymAlgo, SpdmBaseHashAlgo, SpdmCertChainData, SpdmDigestStruct,
    SpdmMeasurementHashAlgo, SpdmNonceStruct, SpdmSignatureStruct, SpdmVersion,
};
use spdmlib::requester::context::RequesterContext;
use spdmlib::requester::get_measurements_req::measurement_signing_data_v12;
use spdmlib::session::{SpdmSessionState, SpdmSessionTranscript};
use spdmlib::transcript::ManagedBuffer;

/// A device that answers from a script and keeps what was sent to it.
struct ScriptedDevice {
    answers: RefCell<VecDeque<Vec<u8>>>,
    sent: RefCell<Vec<Vec<u8>>>,
}

impl ScriptedDevice {
    fn new(answers: Vec<Vec<u8>>) -> Self {
        ScriptedDevice { answers: RefCell::new(answers.into()), sent: RefCell::new(Vec::new()) }
    }
}

impl SpdmDeviceIo for ScriptedDevice {
    fn send(&mut self, buffer: &[u8]) -> SpdmResult {
        self.sent.borrow_mut().push(buffer.to_vec());
        Ok(())
    }

    fn receive(&mut self, buffer: &mut [u8]) -> SpdmResult<usize> {
        match self.answers.borrow_mut().pop_front() {
            Some(frame) if frame.len() <= buffer.len() => {
                buffer[..frame.len()].copy_from_slice(&frame);
                Ok(frame.len())
            }
            _ => Err(SpdmStatus::ReceiveFail),
        }
    }
}

/// A transport that adds nothing: a frame is the message.
struct PlainTransport {}

impl SpdmTransportEncap for PlainTransport {
    fn encap(
        &mut self,
        spdm_buffer: &[u8],
        transport_buffer: &mut [u8],
        secured_message: bool,
    ) -> SpdmResult<usize> {
        if secured_message || transport_buffer.len() < spdm_buffer.len() {
            return Err(SpdmStatus::EncapFail);
        }
        transport_buffer[..spdm_buffer.len()].copy_from_slice(spdm_buffer);
        Ok(spdm_buffer.len())
    }

    fn decap(
        &mut self,
        transport_buffer: &[u8],
        spdm_buffer: &mut [u8],
    ) -> SpdmResult<(usize, bool)> {
        if spdm_buffer.len() < transport_buffer.len() {
            return Err(SpdmStatus::DecapFail);
        }
        spdm_buffer[..transport_buffer.len()].copy_from_slice(transport_buffer);
        Ok((transport_buffer.len(), false))
    }

    fn encap_app(
        &mut self,
        spdm_buffer: &[u8],
        app_buffer: &mut [u8],
        _is_app_message: bool,
    ) -> SpdmResult<usize> {
        app_buffer[..spdm_buffer.len()].copy_from_slice(spdm_buffer);
        Ok(spdm_buffer.len())
    }

    fn decap_app(
        &mut self,
        app_buffer: &[u8],
        spdm_buffer: &mut [u8],
    ) -> SpdmResult<(usize, bool)> {
        spdm_buffer[..app_buffer.len()].copy_from_slice(app_buffer);
        Ok((app_buffer.len(), false))
    }

    fn get_sequence_number_count(&mut self) -> u8 {
        0
    }
}

fn test_digest(size: usize, data: &[u8]) -> Vec<u8> {
    let mut out = vec![0u8; size];
    let mut state: u32 = 0x811c_9dc5 ^ (size as u32);
    for (i, b) in data.iter().enumerate() {
        state = (state ^ (*b as u32)).wrapping_mul(0x0100_0193).rotate_left(5) ^ (i as u32);
    }
    for (i, o) in out.iter_mut().enumerate() {
        state = (state ^ (i as u32)).wrapping_mul(0x0100_0193).rotate_left(7);
        *o = (state >> 11) as u8;
    }
    out
}

struct TestHash {}

impl SpdmHash for TestHash {
    fn hash_all(&self, base_hash_algo: SpdmBaseHashAlgo, data: &[u8]) -> Option<SpdmDigestStruct> {
        SpdmDigestStruct::from_bytes(&test_digest(base_hash_algo.get_size() as usize, data))
    }
}

struct TestCertOperation {}

fn cert_ranges(chain: &[u8]) -> Option<Vec<(usize, usize)>> {
    let mut ranges = Vec::new();
    let mut at = 0usize;
    while at < chain.len() {
        if chain.len() - at < 4 || chain[at] != 0x30 || chain[at + 1] != 0x82 {
            return None;
        }
        let len = ((chain[at + 2] as usize) << 8) | chain[at + 3] as usize;
        if chain.len() - at - 4 < len {
            return None;
        }
        ranges.push((at, at + 4 + len));
        at += 4 + len;
    }
    Some(ranges)
}

impl SpdmCertOperation for TestCertOperation {
    fn get_cert_from_cert_chain(&self, cert_chain: &[u8], index: isize) -> SpdmResult<(usize, usize)> {
        let ranges = cert_ranges(cert_chain).ok_or(SpdmStatus::InvalidCert)?;
        if ranges.is_empty() {
            return Err(SpdmStatus::InvalidCert);
        }
        let at = if index == -1 { ranges.len() - 1 } else { index as usize };
        ranges.get(at).copied().ok_or(SpdmStatus::InvalidCert)
    }

    fn verify_cert_chain(&self, cert_chain: &[u8]) -> SpdmResult {
        cert_ranges(cert_chain).map(|_| ()).ok_or(SpdmStatus::InvalidCert)
    }
}

/// The signature that the stand-in for a signer makes of `data` under `cert`.
fn test_signature(size: usize, cert: &[u8], data: &[u8]) -> Vec<u8> {
    let mut input = cert.to_vec();
    input.extend_from_slice(data);
    test_digest(size, &input)
}

/// It keeps what it was asked to verify.
struct TestAsymVerify {
    seen: RefCell<Vec<Vec<u8>>>,
}

impl SpdmAsymVerify for TestAsymVerify {
    fn verify(
        &self,
        _base_hash_algo: SpdmBaseHashAlgo,
        base_asym_algo: SpdmBaseAsymAlgo,
        public_cert_der: &[u8],
        data: &[u8],
        signature: &SpdmSignatureStruct,
    ) -> SpdmResult {
        self.seen.borrow_mut().push(data.to_vec());
        let expected = test_signature(base_asym_algo.get_size() as usize, public_cert_der, data);
        if signature.data[..signature.data_size as usize] == expected[..] {
            Ok(())
        } else {
            Err(SpdmStatus::CryptoError)
        }
    }
}

struct TestRand {}

impl SpdmCryptoRandom for TestRand {
    fn get_random(&self, data: &mut [u8]) -> SpdmResult<usize> {
        for (i, b) in data.iter_mut().enumerate() {
            *b = 0xA0 ^ (i as u8);
        }
        Ok(data.len())
    }
}

fn test_cert(body_len: usize, seed: u8) -> Vec<u8> {
    let mut cert = vec![0x30, 0x82, (body_len >> 8) as u8, body_len as u8];
    for i in 0..body_len {
        cert.push(seed.wrapping_add((i * 7) as u8));
    }
    cert
}

fn leaf_cert() -> Vec<u8> {
    test_cert(300, 0x55)
}

/// The chain of the peer as it came over the wire, for SHA-384.
fn peer_chain() -> SpdmCertChain {
    let root = test_cert(200, 0x11);
    let mut chain = vec![0u8; 4];
    chain.extend_from_slice(&test_digest(48, &root));
    chain.extend_from_slice(&root);
    chain.extend_from_slice(&leaf_cert());
    let total = chain.len();
    chain[0] = total as u8;
    chain[1] = (total >> 8) as u8;
    SpdmCertChain { cert_chain: SpdmCertChainData::from_bytes(&chain).unwrap() }
}

fn measurements_response(
    version: u8,
    number_of_measurement: u8,
    param2: u8,
    number_of_blocks: u8,
    record: &[u8],
    opaque: &[u8],
) -> Vec<u8> {
    let mut response = vec![version, 0x60, number_of_measurement, param2, number_of_blocks];
    response.extend_from_slice(&(record.len() as u32).to_le_bytes()[..3]);
    response.extend_from_slice(record);
    response.extend_from_slice(&[0xC3u8; 32]);
    response.extend_from_slice(&(opaque.len() as u16).to_le_bytes());
    response.extend_from_slice(opaque);
    response
}

/// Two measurement blocks of the DMTF layout.
fn test_record() -> Vec<u8> {
    let mut record = Vec::new();
    for index in 1u8..=2 {
        record.extend_from_slice(&[index, 0x01, 0x07, 0x00, 0x81, 0x04, 0x00]);
        record.extend_from_slice(&[index; 4]);
    }
    record
}

const GET_ALL: [u8; 4] = [0x10, 0xE0, 0x00, 0xFF];

fn config() -> (SpdmConfigInfo, SpdmProvisionInfo) {
    (SpdmConfigInfo::default(), SpdmProvisionInfo::default())
}

fn attributes(bits: u8) -> SpdmMeasurementeAttributes {
    SpdmMeasurementeAttributes { bits }
}

#[test]
fn measurements_without_signature_are_recorded() {
    let (config_info, provision_info) = config();
    let mut device = ScriptedDevice::new(vec![]);
    let mut transport = PlainTransport {};
    let mut requester = RequesterContext::new(&mut device, &mut transport, config_info, provision_info);
    let response = measurements_response(0x10, 5, 0, 2, &test_record(), &[]);
    let r = requester.handle_spdm_measurement_record_response(
        None,
        attributes(0),
        SpdmMeasurementOperation::SpdmMeasurementRequestAll,
        &GET_ALL,
        &response,
    );
    assert_eq!(r, Ok(2));
    let mut expected = GET_ALL.to_vec();
    expected.extend_from_slice(&response);
    assert_eq!(requester.common.runtime_info.message_m.as_ref(), &expected[..]);
    assert_eq!(expected.len(), 4 + 2 + 6 + 22 + 32 + 2);
    assert!(!requester.common.runtime_info.need_measurement_signature);

    // The total number is what the first parameter says; an index reports the blocks.
    let r = requester.handle_spdm_measurement_record_response(
        None,
        attributes(0),
        SpdmMeasurementOperation::SpdmMeasurementQueryTotalNumber,
        &[0x10, 0xE0, 0x00, 0x00],
        &measurements_response(0x10, 5, 0, 0, &[], &[]),
    );
    assert_eq!(r, Ok(5));
    let r = requester.handle_spdm_measurement_record_response(
        None,
        attributes(0),
        SpdmMeasurementOperation::Unknown(5),
        &[0x10, 0xE0, 0x00, 0x05],
        &measurements_response(0x10, 9, 0, 1, &test_record()[..11], &[0xEE; 3]),
    );
    assert_eq!(r, Ok(1));
    // Without a signature the transcript goes on.
    assert_eq!(
        requester.common.runtime_info.message_m.as_ref().len(),
        expected.len() + (4 + 42) + (4 + 42 + 11 + 3)
    );
}

#[test]
fn measurement_with_signature_is_verified_and_the_transcript_starts_anew() {
    let (config_info, provision_info) = config();
    let mut device = ScriptedDevice::new(vec![]);
    let mut transport = PlainTransport {};
    let hash = TestHash {};
    let cert_operation = TestCertOperation {};
    let asym_verify = TestAsymVerify { seen: RefCell::new(Vec::new()) };
    let mut requester = RequesterContext::new(&mut device, &mut transport, config_info, provision_info);
    requester.common.crypto.register_hash(Some(&hash));
    requester.common.crypto.register_cert_operation(Some(&cert_operation));
    requester.common.crypto.register_asym_verify(Some(&asym_verify));
    requester.common.negotiate_info.base_hash_sel = SpdmBaseHashAlgo::TPM_ALG_SHA_384;
    requester.common.negotiate_info.base_asym_sel = SpdmBaseAsymAlgo::TPM_ALG_ECDSA_ECC_NIST_P384;
    requester.common.peer_info.peer_cert_chain[0] = Some(peer_chain());
    // An earlier exchange without a signature is part of what is signed.
    let earlier = [0x10u8, 0xE0, 0x00, 0x01, 0x55, 0x66];
    assert!(requester.common.runtime_info.message_m.append_message(&earlier).is_ok());

    let mut send = vec![0x10, 0xE0, 0x01, 0xFF];
    send.extend_from_slice(&[0x5A; 32]);
    let mut response = measurements_response(0x10, 5, 0, 2, &test_record(), &[1, 2, 3]);
    let mut signed = earlier.to_vec();
    signed.extend_from_slice(&send);
    signed.extend_from_slice(&response);
    let signature = test_signature(96, &leaf_cert(), &signed);
    response.extend_from_slice(&signature);

    let r = requester.handle_spdm_measurement_record_response(
        None,
        attributes(SPDM_MEASUREMENT_SIGNATURE_REQUESTED),
        SpdmMeasurementOperation::SpdmMeasurementRequestAll,
        &send,
        &response,
    );
    assert_eq!(r, Ok(2));
    assert!(requester.common.runtime_info.need_measurement_signature);
    assert_eq!(requester.common.runtime_info.message_m.as_ref().len(), 0);
    assert_eq!(asym_verify.seen.borrow().len(), 1);
    assert_eq!(asym_verify.seen.borrow()[0], signed);
}

#[test]
fn a_signature_that_does_not_hold_leaves_the_transcript() {
    let (config_info, provision_info) = config();
    let mut device = ScriptedDevice::new(vec![]);
    let mut transport = PlainTransport {};
    let hash = TestHash {};
    let cert_operation = TestCertOperation {};
    let asym_verify = TestAsymVerify { seen: RefCell::new(Vec::new()) };
    let mut requester = RequesterContext::new(&mut device, &mut transport, config_info, provision_info);
    requester.common.crypto.register_hash(Some(&hash));
    requester.common.crypto.register_cert_operation(Some(&cert_operation));
    requester.common.crypto.register_asym_verify(Some(&asym_verify));
    requester.common.negotiate_info.base_hash_sel = SpdmBaseHashAlgo::TPM_ALG_SHA_384;
    requester.common.negotiate_info.base_asym_sel = SpdmBaseAsymAlgo::TPM_ALG_ECDSA_ECC_NIST_P384;
    requester.common.peer_info.peer_cert_chain[0] = Some(peer_chain());
    let earlier = [0x10u8, 0xE0, 0x00, 0x01];
    assert!(requester.common.runtime_info.message_m.append_message(&earlier).is_ok());

    let mut send = vec![0x10, 0xE0, 0x01, 0xFF];
    send.extend_from_slice(&[0x5A; 32]);
    let mut response = measurements_response(0x10, 5, 0, 2, &test_record(), &[]);
    response.extend_from_slice(&[0x77; 96]);
    let r = requester.handle_spdm_measurement_record_response(
        None,
        attributes(SPDM_MEASUREMENT_SIGNATURE_REQUESTED),
        SpdmMeasurementOperation::SpdmMeasurementRequestAll,
        &send,
        &response,
    );
    assert_eq!(r, Err(SpdmStatus::CryptoError));
    assert_eq!(requester.common.runtime_info.message_m.as_ref(), &earlier[..]);

    // A response that ends before its signature does not read.
    let short = &response[..response.len() - 1];
    let r = requester.handle_spdm_measurement_record_response(
        None,
        attributes(SPDM_MEASUREMENT_SIGNATURE_REQUESTED),
        SpdmMeasurementOperation::SpdmMeasurementRequestAll,
        &send,
        short,
    );
    assert_eq!(r, Err(SpdmStatus::InvalidMsgField));
    assert_eq!(requester.common.runtime_info.message_m.as_ref(), &earlier[..]);

    // Without the chain of the peer there is no key to verify with.
    requester.common.peer_info.peer_cert_chain[0] = None;
    let r = requester.handle_spdm_measurement_record_response(
        None,
        attributes(SPDM_MEASUREMENT_SIGNATURE_REQUESTED),
        SpdmMeasurementOperation::SpdmMeasurementRequestAll,
        &send,
        &response,
    );
    assert_eq!(r, Err(SpdmStatus::InvalidStateLocal));
    assert_eq!(requester.common.runtime_info.message_m.as_ref(), &earlier[..]);
}

#[test]
fn from_the_third_version_on_a_context_and_a_digest_are_signed() {
    let (config_info, provision_info) = config();
    let mut device = ScriptedDevice::new(vec![]);
    let mut transport = PlainTransport {};
    let hash = TestHash {};
    let cert_operation = TestCertOperation {};
    let asym_verify = TestAsymVerify { seen: RefCell::new(Vec::new()) };
    let mut requester = RequesterContext::new(&mut device, &mut transport, config_info, provision_info);
    requester.common.crypto.register_hash(Some(&hash));
    requester.common.crypto.register_cert_operation(Some(&cert_operation));
    requester.common.crypto.register_asym_verify(Some(&asym_verify));
    requester.common.negotiate_info.spdm_version_sel = SpdmVersion::SpdmVersion12;
    requester.common.negotiate_info.base_hash_sel = SpdmBaseHashAlgo::TPM_ALG_SHA_256;
    requester.common.negotiate_info.base_asym_sel = SpdmBaseAsymAlgo::TPM_ALG_ECDSA_ECC_NIST_P256;
    let mut chain = peer_chain().cert_chain;
    // The prefix for SHA-256 is 36 bytes: put the certificates where they belong.
    let certs: Vec<u8> = chain.data[52..chain.data_size as usize].to_vec();
    let mut bytes = vec![0u8; 36];
    bytes.extend_from_slice(&certs);
    chain = SpdmCertChainData::from_bytes(&bytes).unwrap();
    requester.common.peer_info.peer_cert_chain[0] = Some(SpdmCertChain { cert_chain: chain });
    let vca = [0x12u8, 0x84, 0x00, 0x00];
    assert!(requester.common.runtime_info.message_a.append_message(&vca).is_ok());

    let mut send = vec![0x12, 0xE0, 0x01, 0xFF];
    send.extend_from_slice(&[0x5A; 32]);
    send.push(0x00);
    // Slot 0, and the responder says that nothing has changed.
    let mut response = measurements_response(0x12, 5, 0x20, 2, &test_record(), &[]);
    let mut transcript = vca.to_vec();
    transcript.extend_from_slice(&send);
    transcript.extend_from_slice(&response);
    let digest = test_digest(32, &transcript);
    let mut signed = Vec::new();
    for _ in 0..4 {
        signed.extend_from_slice(b"dmtf-spdm-v1.2.*");
    }
    signed.extend_from_slice(&[0u8; 6]);
    signed.extend_from_slice(b"responder-measurements signing");
    signed.extend_from_slice(&digest);
    assert_eq!(signed.len(), 100 + 32);
    assert_eq!(measurement_signing_data_v12(&digest), signed);
    response.extend_from_slice(&test_signature(64, &leaf_cert(), &signed));

    let r = requester.handle_spdm_measurement_record_response(
        None,
        attributes(SPDM_MEASUREMENT_SIGNATURE_REQUESTED),
        SpdmMeasurementOperation::SpdmMeasurementRequestAll,
        &send,
        &response,
    );
    assert_eq!(r, Ok(2));
    assert_eq!(asym_verify.seen.borrow()[0], signed);
    assert_eq!(requester.common.runtime_info.content_changed, SpdmMeasurementContentChanged::NoChange);
    assert_eq!(requester.common.runtime_info.message_m.as_ref().len(), 0);
}

fn not_ready(token: u8, request_code: u8) -> Vec<u8> {
    vec![0x10, 0x7F, 0x42, 0x00, 0x01, request_code, token, 0x02]
}

#[test]
fn a_deferral_is_followed_with_the_token_of_the_responder() {
    let (config_info, provision_info) = config();
    let answer = measurements_response(0x10, 5, 0, 2, &test_record(), &[]);
    let mut device = ScriptedDevice::new(vec![not_ready(0x5C, 0xE0), answer.clone()]);
    let mut transport = PlainTransport {};
    let rand = TestRand {};
    let mut total_number = 0u8;
    {
        let mut requester =
            RequesterContext::new(&mut device, &mut transport, config_info, provision_info);
        requester.common.crypto.register_rand(Some(&rand));
        let r = requester.send_receive_spdm_measurement(
            None,
            attributes(0),
            SpdmMeasurementOperation::SpdmMeasurementRequestAll,
            &mut total_number,
            0,
        );
        assert_eq!(r, Ok(()));
        let mut expected = GET_ALL.to_vec();
        expected.extend_from_slice(&answer);
        assert_eq!(requester.common.runtime_info.message_m.as_ref(), &expected[..]);
    }
    assert_eq!(total_number, 2);
    let sent = device.sent.borrow();
    assert_eq!(sent.len(), 2);
    assert_eq!(sent[0], GET_ALL.to_vec());
    assert_eq!(sent[1], vec![0x10, 0xFF, 0xE0, 0x5C]);
}

#[test]
fn a_responder_that_keeps_deferring_is_given_up() {
    let (config_info, provision_info) = config();
    let mut device = ScriptedDevice::new((0..8).map(|i| not_ready(i, 0xE0)).collect());
    let mut transport = PlainTransport {};
    let rand = TestRand {};
    let mut total_number = 0x77u8;
    {
        let mut requester =
            RequesterContext::new(&mut device, &mut transport, config_info, provision_info);
        requester.common.crypto.register_rand(Some(&rand));
        let r = requester.send_receive_spdm_measurement(
            None,
            attributes(0),
            SpdmMeasurementOperation::SpdmMeasurementRequestAll,
            &mut total_number,
            0,
        );
        assert_eq!(r, Err(SpdmStatus::NotReadyPeer));
        assert_eq!(requester.common.runtime_info.message_m.as_ref().len(), 0);
    }
    assert_eq!(total_number, 0x77);
    let sent = device.sent.borrow();
    assert_eq!(sent.len(), 5);
    assert_eq!(sent[4], vec![0x10, 0xFF, 0xE0, 0x03]);
}

#[test]
fn errors_that_are_no_deferral_of_the_request_end_the_exchange() {
    let (config_info, provision_info) = config();
    let mut device = ScriptedDevice::new(vec![]);
    let mut transport = PlainTransport {};
    let mut requester = RequesterContext::new(&mut device, &mut transport, config_info, provision_info);
    let cases: [(&[u8], SpdmStatus); 9] = [
        // Busy.
        (&[0x10, 0x7F, 0x03, 0x00], SpdmStatus::ErrorPeer),
        // A deferral of another request.
        (&[0x10, 0x7F, 0x42, 0x00, 0x01, 0x82, 0x09, 0x02], SpdmStatus::InvalidMsgField),
        // A deferral without its extension.
        (&[0x10, 0x7F, 0x42, 0x00, 0x01], SpdmStatus::InvalidMsgField),
        // Another response.
        (&[0x10, 0x02, 0x00, 0x00], SpdmStatus::ErrorPeer),
        // Another response, in another version.
        (&[0x11, 0x02, 0x00, 0x00], SpdmStatus::ErrorPeer),
        // Busy, in another version.
        (&[0x12, 0x7F, 0x03, 0x00], SpdmStatus::ErrorPeer),
        // A version that there is not.
        (&[0x13, 0x60, 0x00, 0x00], SpdmStatus::InvalidMsgField),
        // No header.
        (&[], SpdmStatus::InvalidMsgField),
        // A body that is too short.
        (&[0x10, 0x60, 0x00, 0x00, 0x00], SpdmStatus::InvalidMsgField),
    ];
    for (response, expected) in cases {
        let r = requester.handle_spdm_measurement_record_response(
            None,
            attributes(0),
            SpdmMeasurementOperation::SpdmMeasurementRequestAll,
            &GET_ALL,
            response,
        );
        assert_eq!(r, Err(expected));
        assert_eq!(requester.common.runtime_info.message_m.as_ref().len(), 0);
    }
    drop(requester);
    assert_eq!(device.sent.borrow().len(), 0);
}

#[test]
fn a_record_that_is_too_long_or_a_full_transcript_is_refused() {
    let (config_info, provision_info) = config();
    let mut device = ScriptedDevice::new(vec![]);
    let mut transport = PlainTransport {};
    let mut requester = RequesterContext::new(&mut device, &mut transport, config_info, provision_info);
    // The record says that it has 0x1001 bytes.
    let mut response = vec![0x10, 0x60, 5, 0, 2, 0x01, 0x10, 0x00];
    response.extend_from_slice(&vec![0u8; 0x1001 + 34]);
    let r = requester.handle_spdm_measurement_record_response(
        None,
        attributes(0),
        SpdmMeasurementOperation::SpdmMeasurementRequestAll,
        &GET_ALL,
        &response,
    );
    assert_eq!(r, Err(SpdmStatus::InvalidMsgField));

    let response = measurements_response(0x10, 5, 0, 2, &test_record(), &[]);
    let filler = vec![0x33u8; MAX_SPDM_MESSAGE_BUFFER_SIZE - 4 - response.len() + 1];
    assert!(requester.common.runtime_info.message_m.append_message(&filler).is_ok());
    let r = requester.handle_spdm_measurement_record_response(
        None,
        attributes(0),
        SpdmMeasurementOperation::SpdmMeasurementRequestAll,
        &GET_ALL,
        &response,
    );
    assert_eq!(r, Err(SpdmStatus::BufferFull));
    assert_eq!(requester.common.runtime_info.message_m.as_ref(), &filler[..]);
    // One byte less in the transcript, and the exchange fits exactly.
    requester.common.runtime_info.message_m.reset_message();
    assert!(requester.common.runtime_info.message_m.append_message(&filler[1..]).is_ok());
    let r = requester.handle_spdm_measurement_record_response(
        None,
        attributes(0),
        SpdmMeasurementOperation::SpdmMeasurementRequestAll,
        &GET_ALL,
        &response,
    );
    assert_eq!(r, Ok(2));
    assert_eq!(
        requester.common.runtime_info.message_m.as_ref().len(),
        MAX_SPDM_MESSAGE_BUFFER_SIZE
    );
}

#[test]
fn the_record_must_be_the_blocks_it_says() {
    let (config_info, provision_info) = config();
    let mut device = ScriptedDevice::new(vec![]);
    let mut transport = PlainTransport {};
    let mut requester = RequesterContext::new(&mut device, &mut transport, config_info, provision_info);
    requester.common.negotiate_info.measurement_hash_sel = SpdmMeasurementHashAlgo::TPM_ALG_SHA_256;
    let mut digest_block = vec![1, 0x01, 35, 0x00, 0x02, 32, 0x00];
    digest_block.extend_from_slice(&[0xD1; 32]);
    let raw_block = [2, 0x01, 5, 0x00, 0x83, 2, 0x00, 0xAA, 0xBB];
    let mut record = digest_block.clone();
    record.extend_from_slice(&raw_block);
    assert!(blocks_well_formed(&record, 2, 32));
    assert!(blocks_well_formed(&[], 0, 32));
    // One block more or less than there is.
    assert!(!blocks_well_formed(&record, 1, 32));
    assert!(!blocks_well_formed(&record, 3, 32));
    assert!(!blocks_well_formed(&[0], 0, 32));
    // A digest of another size than the negotiated hash has.
    assert!(!blocks_well_formed(&record, 2, 48));
    assert!(blocks_well_formed(&raw_block, 1, 48));
    // Another layout; a measurement that is not its value; a block that ends early.
    let mut other = raw_block;
    other[1] = 0x02;
    assert!(!blocks_well_formed(&other, 1, 32));
    let mut other = raw_block;
    other[2] = 6;
    assert!(!blocks_well_formed(&other, 1, 32));
    assert!(!blocks_well_formed(&raw_block[..8], 1, 32));
    assert!(!blocks_well_formed(&raw_block[..6], 1, 32));

    let cases: [(&[u8], u8, Result<u8, SpdmStatus>); 4] = [
        (&record, 2, Ok(2)),
        (&record, 1, Err(SpdmStatus::InvalidMsgField)),
        (&record[..record.len() - 1], 2, Err(SpdmStatus::InvalidMsgField)),
        (&[], 0, Ok(0)),
    ];
    for (record, blocks, expected) in cases {
        requester.common.runtime_info.message_m.reset_message();
        let r = requester.handle_spdm_measurement_record_response(
            None,
            attributes(0),
            SpdmMeasurementOperation::SpdmMeasurementRequestAll,
            &GET_ALL,
            &measurements_response(0x10, 5, 0, blocks, record, &[]),
        );
        assert_eq!(r, expected);
        assert_eq!(requester.common.runtime_info.message_m.as_ref().is_empty(), expected.is_err());
    }
}

#[test]
fn within_a_session_the_session_records() {
    let (config_info, provision_info) = config();
    let mut device = ScriptedDevice::new(vec![]);
    let mut transport = PlainTransport {};
    let mut requester = RequesterContext::new(&mut device, &mut transport, config_info, provision_info);
    assert_eq!(requester.common.session[1].setup(0x0102_0304), Ok(()));
    assert_eq!(
        requester.common.session[1].set_session_state(SpdmSessionState::SpdmSessionHandshaking),
        Ok(())
    );
    let response = measurements_response(0x10, 5, 0, 2, &test_record(), &[]);
    let r = requester.handle_spdm_measurement_record_response(
        Some(0x0102_0304),
        attributes(0),
        SpdmMeasurementOperation::SpdmMeasurementRequestAll,
        &GET_ALL,
        &response,
    );
    assert_eq!(r, Ok(2));
    assert_eq!(requester.common.runtime_info.message_m.as_ref().len(), 0);
    let mut expected = GET_ALL.to_vec();
    expected.extend_from_slice(&response);
    assert_eq!(requester.common.session[1].message(SpdmSessionTranscript::MessageM), &expected[..]);
    assert_eq!(requester.common.session[0].message(SpdmSessionTranscript::MessageM).len(), 0);

    // A session that is not in the table.
    let r = requester.handle_spdm_measurement_record_response(
        Some(0x0102_0305),
        attributes(0),
        SpdmMeasurementOperation::SpdmMeasurementRequestAll,
        &GET_ALL,
        &response,
    );
    assert_eq!(r, Err(SpdmStatus::InvalidParameter));
}

#[test]
fn encode_measurement_request_bytes() {
    let (config_info, provision_info) = config();
    let mut device = ScriptedDevice::new(vec![]);
    let mut transport = PlainTransport {};
    let rand = TestRand {};
    let mut requester = RequesterContext::new(&mut device, &mut transport, config_info, provision_info);
    let mut buf = [0xFFu8; 40];
    // Without a source of random bytes there is no request.
    let r = requester.encode_spdm_measurement_record(
        attributes(0),
        SpdmMeasurementOperation::SpdmMeasurementRequestAll,
        0,
        &mut buf,
    );
    assert_eq!(r, Err(SpdmStatus::Unsupported));
    assert_eq!(buf, [0xFFu8; 40]);

    requester.common.crypto.register_rand(Some(&rand));
    let r = requester.encode_spdm_measurement_record(
        attributes(0),
        SpdmMeasurementOperation::SpdmMeasurementQueryTotalNumber,
        0,
        &mut buf,
    );
    assert_eq!(r, Ok(4));
    assert_eq!(&buf[..5], &[0x10, 0xE0, 0x00, 0x00, 0xFF]);

    // With a signature the nonce travels; the slot only after the first version.
    let r = requester.encode_spdm_measurement_record(
        attributes(SPDM_MEASUREMENT_SIGNATURE_REQUESTED),
        SpdmMeasurementOperation::Unknown(3),
        2,
        &mut buf,
    );
    assert_eq!(r, Ok(36));
    assert_eq!(&buf[..4], &[0x10, 0xE0, 0x01, 0x03]);
    let nonce: Vec<u8> = (0..32u8).map(|i| 0xA0 ^ i).collect();
    assert_eq!(&buf[4..36], &nonce[..]);
    assert_eq!(buf[36], 0xFF);

    requester.common.negotiate_info.spdm_version_sel = SpdmVersion::SpdmVersion11;
    let r = requester.encode_spdm_measurement_record(
        attributes(SPDM_MEASUREMENT_SIGNATURE_REQUESTED),
        SpdmMeasurementOperation::SpdmMeasurementRequestAll,
        2,
        &mut buf,
    );
    assert_eq!(r, Ok(37));
    assert_eq!(&buf[..4], &[0x11, 0xE0, 0x01, 0xFF]);
    assert_eq!(buf[36], 2);

    let mut small = [0xEEu8; 36];
    let r = requester.encode_spdm_measurement_record_with_nonce(
        attributes(SPDM_MEASUREMENT_SIGNATURE_REQUESTED),
        SpdmMeasurementOperation::SpdmMeasurementRequestAll,
        2,
        SpdmNonceStruct::from_bytes(&nonce).unwrap(),
        &mut small,
    );
    assert_eq!(r, Err(SpdmStatus::BufferFull));
    assert_eq!(small, [0xEEu8; 36]);
}

#[test]
fn the_verdict_on_the_signature_decides_the_exchange() {
    let (config_info, provision_info) = config();
    let mut device = ScriptedDevice::new(vec![]);
    let mut transport = PlainTransport {};
    let mut requester = RequesterContext::new(&mut device, &mut transport, config_info, provision_info);
    let earlier = [1u8, 2, 3];
    assert!(requester.common.runtime_info.message_m.append_message(&earlier).is_ok());
    let mut recorded = ManagedBuffer::new();
    assert!(recorded.append_message(&[1, 2, 3, 4, 5, 6]).is_ok());

    // A signature that was rejected fails the exchange with the verdict.
    for e in [SpdmStatus::CryptoError, SpdmStatus::InvalidCert, SpdmStatus::Unsupported] {
        let r = requester.conclude_measurement_record(
            None,
            Some(Err(e)),
            recorded,
            7,
            Some(SpdmMeasurementContentChanged::DetectedChange),
        );
        assert_eq!(r, Err(e));
        assert_eq!(requester.common.runtime_info.message_m.as_ref(), &earlier[..]);
        assert_eq!(
            requester.common.runtime_info.content_changed,
            SpdmMeasurementContentChanged::NotSupported
        );
    }
    // Without a signature the exchange is recorded.
    let r = requester.conclude_measurement_record(None, None, recorded, 7, None);
    assert_eq!(r, Ok(7));
    assert_eq!(requester.common.runtime_info.message_m.as_ref(), &[1, 2, 3, 4, 5, 6]);
    // A signature that holds reports the number and starts the transcript anew.
    let r = requester.conclude_measurement_record(
        None,
        Some(Ok(())),
        recorded,
        9,
        Some(SpdmMeasurementContentChanged::NoChange),
    );
    assert_eq!(r, Ok(9));
    assert_eq!(requester.common.runtime_info.message_m.as_ref().len(), 0);
    assert_eq!(requester.common.runtime_info.content_changed, SpdmMeasurementContentChanged::NoChange);
    // A session that is not in the table.
    let r = requester.conclude_measurement_record(Some(5), Some(Ok(())), recorded, 9, None);
    assert_eq!(r, Err(SpdmStatus::InvalidParameter));

    let mut number = 0x11u8;
    type Requester<'a> = RequesterContext<'a, ScriptedDevice, PlainTransport>;
    assert_eq!(Requester::report_measurement_number(&mut number, Err(SpdmStatus::BufferFull)), Err(SpdmStatus::BufferFull));
    assert_eq!(Requester::report_measurement_number(&mut number, Err(SpdmStatus::ErrorPeer)), Err(SpdmStatus::ErrorPeer));
    assert_eq!(number, 0x11);
    assert_eq!(Requester::report_measurement_number(&mut number, Ok(3)), Ok(()));
    assert_eq!(number, 3);
}

#[test]
fn a_failed_exchange_hands_its_error_on_and_moves_no_session() {
    let (config_info, provision_info) = config();
    let mut device = ScriptedDevice::new(vec![vec![0x10, 0x02, 0, 0]]);
    let mut transport = PlainTransport {};
    let rand = TestRand {};
    let mut total_number = 0x55u8;
    let mut requester = RequesterContext::new(&mut device, &mut transport, config_info, provision_info);
    requester.common.session[2].setup(9).unwrap();
    requester.common.session[2].set_session_state(SpdmSessionState::SpdmSessionHandshaking).unwrap();
    // No source of random bytes: nothing changes.
    requester.common.runtime_info.need_measurement_signature = true;
    let r = requester.send_receive_spdm_measurement(
        None,
        attributes(0),
        SpdmMeasurementOperation::SpdmMeasurementRequestAll,
        &mut total_number,
        3,
    );
    assert_eq!(r, Err(SpdmStatus::Unsupported));
    assert!(requester.common.runtime_info.need_measurement_signature);
    assert_eq!(requester.common.runtime_info.peer_used_cert_chain_slot_id, 0);
    // Another response than the one waited for: a fault of the peer, handed on.
    requester.common.crypto.register_rand(Some(&rand));
    let r = requester.send_receive_spdm_measurement(
        None,
        attributes(0),
        SpdmMeasurementOperation::SpdmMeasurementRequestAll,
        &mut total_number,
        3,
    );
    assert_eq!(r, Err(SpdmStatus::ErrorPeer));
    assert_eq!(total_number, 0x55);
    assert_eq!(requester.common.session[2].get_session_id(), 9);
    assert_eq!(requester.common.session[2].get_session_state(), SpdmSessionState::SpdmSessionHandshaking);
    assert_eq!(requester.common.session[0].get_session_id(), 0);
    // Nothing more comes.
    let r = requester.send_receive_spdm_measurement(
        None,
        attributes(0),
        SpdmMeasurementOperation::SpdmMeasurementRequestAll,
        &mut total_number,
        3,
    );
    assert_eq!(r, Err(SpdmStatus::ReceiveFail));
}

#[test]
fn a_request_that_could_not_be_made_changes_nothing() {
    let (config_info, provision_info) = config();
    let mut device = ScriptedDevice::new(vec![vec![0x10, 0x02, 0, 0]]);
    let mut transport = PlainTransport {};
    let mut requester = RequesterContext::new(&mut device, &mut transport, config_info, provision_info);
    requester.common.runtime_info.need_measurement_signature = true;
    requester.common.runtime_info.peer_used_cert_chain_slot_id = 1;
    assert!(requester.common.runtime_info.message_m.append_message(&[7, 7]).is_ok());
    let request = [0x10u8, 0xE0, 0x00, 0x00];
    for e in [SpdmStatus::CryptoError, SpdmStatus::Unsupported, SpdmStatus::BufferFull] {
        let r = requester.exchange_measurement_record(
            None,
            attributes(0),
            SpdmMeasurementOperation::SpdmMeasurementQueryTotalNumber,
            3,
            &request,
            Err(e),
        );
        assert_eq!(r, Err(e));
    }
    // A length that the buffer does not have.
    let r = requester.exchange_measurement_record(
        None,
        attributes(0),
        SpdmMeasurementOperation::SpdmMeasurementQueryTotalNumber,
        3,
        &request,
        Ok(5),
    );
    assert_eq!(r, Err(SpdmStatus::BufferFull));
    assert!(requester.common.runtime_info.need_measurement_signature);
    assert_eq!(requester.common.runtime_info.peer_used_cert_chain_slot_id, 1);
    assert_eq!(requester.common.runtime_info.message_m.as_ref(), &[7, 7]);
    // The request is there: it is sent, the slot is noted, and the answer decides.
    let r = requester.exchange_measurement_record(
        None,
        attributes(0),
        SpdmMeasurementOperation::SpdmMeasurementQueryTotalNumber,
        3,
        &request,
        Ok(4),
    );
    assert_eq!(r, Err(SpdmStatus::ErrorPeer));
    assert_eq!(requester.common.runtime_info.peer_used_cert_chain_slot_id, 3);
    assert_eq!(requester.common.runtime_info.message_m.as_ref(), &[7, 7]);
    drop(requester);
    assert_eq!(*device.sent.borrow(), vec![request.to_vec()]);
}

#[test]
fn a_response_is_taken_in_whatever_version_its_header_names() {
    let (config_info, provision_info) = config();
    let mut device = ScriptedDevice::new(vec![measurements_response(0x12, 7, 0, 0, &[], &[])]);
    let mut transport = PlainTransport {};
    let mut requester = RequesterContext::new(&mut device, &mut transport, config_info, provision_info);
    // The connection is in the first version; the header names the second.
    let response = measurements_response(0x11, 5, 0, 2, &test_record(), &[]);
    let r = requester.handle_spdm_measurement_record_response(
        None,
        attributes(0),
        SpdmMeasurementOperation::SpdmMeasurementRequestAll,
        &GET_ALL,
        &response,
    );
    assert_eq!(r, Ok(2));
    let mut expected = GET_ALL.to_vec();
    expected.extend_from_slice(&response);
    assert_eq!(requester.common.runtime_info.message_m.as_ref(), &expected[..]);
    // The number that was asked for is reported.
    let r = requester.handle_spdm_measurement_record_response(
        None,
        attributes(0),
        SpdmMeasurementOperation::SpdmMeasurementQueryTotalNumber,
        &[0x10, 0xE0, 0x00, 0x00],
        &measurements_response(0x12, 5, 0, 0, &[], &[]),
    );
    assert_eq!(r, Ok(5));
    // No room in the transcript.
    let recorded = requester.common.runtime_info.message_m.as_ref().len();
    let filler = vec![0x33u8; MAX_SPDM_MESSAGE_BUFFER_SIZE - recorded - 4 - response.len() + 1];
    assert!(requester.common.runtime_info.message_m.append_message(&filler).is_ok());
    let before = requester.common.runtime_info.message_m.as_ref().to_vec();
    let r = requester.handle_spdm_measurement_record_response(
        None,
        attributes(0),
        SpdmMeasurementOperation::SpdmMeasurementRequestAll,
        &GET_ALL,
        &response,
    );
    assert_eq!(r, Err(SpdmStatus::BufferFull));
    assert_eq!(requester.common.runtime_info.message_m.as_ref(), &before[..]);
    requester.common.runtime_info.message_m.reset_message();
    // A deferral in another version is followed, and so is what then comes.
    let mut deferred = not_ready(0x07, 0xE0);
    deferred[0] = 0x11;
    let r = requester.handle_spdm_measurement_record_response(
        None,
        attributes(0),
        SpdmMeasurementOperation::SpdmMeasurementQueryTotalNumber,
        &[0x10, 0xE0, 0x00, 0x00],
        &deferred,
    );
    assert_eq!(r, Ok(7));
    drop(requester);
    assert_eq!(*device.sent.borrow(), vec![vec![0x10, 0xFF, 0xE0, 0x07]]);
}

#[test]
fn what_the_response_says_of_changes_follows_the_version_of_its_header() {
    let (config_info, provision_info) = config();
    let mut device = ScriptedDevice::new(vec![]);
    let mut transport = PlainTransport {};
    let mut requester = RequesterContext::new(&mut device, &mut transport, config_info, provision_info);
    requester.common.negotiate_info.spdm_version_sel = SpdmVersion::SpdmVersion12;
    let send = [0x12u8, 0xE0, 0x00, 0xFF];
    // The header names the second version: what the response says of changes is left.
    let r = requester.handle_spdm_measurement_record_response(
        None,
        attributes(0),
        SpdmMeasurementOperation::SpdmMeasurementRequestAll,
        &send,
        &measurements_response(0x11, 5, 0x10, 2, &test_record(), &[]),
    );
    assert_eq!(r, Ok(2));
    assert_eq!(
        requester.common.runtime_info.content_changed,
        SpdmMeasurementContentChanged::NotSupported
    );
    // The header names the third version.
    let r = requester.handle_spdm_measurement_record_response(
        None,
        attributes(0),
        SpdmMeasurementOperation::SpdmMeasurementRequestAll,
        &send,
        &measurements_response(0x12, 5, 0x10, 2, &test_record(), &[]),
    );
    assert_eq!(r, Ok(2));
    assert_eq!(
        requester.common.runtime_info.content_changed,
        SpdmMeasurementContentChanged::DetectedChange
    );
    // The connection is in the first version: the body says nothing of changes,
    // whatever its header names.
    requester.common.negotiate_info.spdm_version_sel = SpdmVersion::SpdmVersion10;
    let r = requester.handle_spdm_measurement_record_response(
        None,
        attributes(0),
        SpdmMeasurementOperation::SpdmMeasurementRequestAll,
        &GET_ALL,
        &measurements_response(0x12, 5, 0x20, 2, &test_record(), &[]),
    );
    assert_eq!(r, Ok(2));
    assert_eq!(
        requester.common.runtime_info.content_changed,
        SpdmMeasurementContentChanged::NotSupported
    );
}
