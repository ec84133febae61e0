use std::cell::RefCell;
use std::collections::VecDeque;

use spdmlib::common::{
    SpdmCertChain, SpdmConfigInfo, SpdmDeviceIo, SpdmProvisionInfo, SpdmTransportEncap,
};
use spdmlib::config::{
    MAX_SPDM_CERT_CHAIN_DATA_SIZE, MAX_SPDM_CERT_PORTION_LEN, MAX_SPDM_MESSAGE_BUFFER_SIZE,
};
use spdmlib::crypto::{SpdmAead, SpdmCertOperation, SpdmHash, SpdmHkdf, SpdmHmac};
use spdmlib::error::{SpdmResult, SpdmStatus};
use spdmlib::protocol::{
    SpdmAeadAlgo, SpdmBaseAsymAlgo, SpdmBaseHashAlgo, SpdmCertChainData, SpdmDheAlgo,
    SpdmDigestStruct, SpdmKeyScheduleAlgo, SpdmResponseCapabilityFlags, SpdmVersion,
    SPDM_CAP_CERT, SPDM_CAP_CHAL,
};
use spdmlib::session::{SpdmSession, SpdmSessionState};
use spdmlib::requester::context::RequesterContext;
use spdmlib::requester::get_certificate_req::{
    anchor_cert_chain, certificate_announced, certificate_step,
};
use spdmlib::requester::handle_error_response_req::follow_deferral;
use spdmlib::responder::context::ResponderContext;

/// The queue of frames between the two sides.
struct SharedBuffer {
    frames: RefCell<VecDeque<Vec<u8>>>,
}

impl SharedBuffer {
    fn new() -> Self {
        SharedBuffer { frames: RefCell::new(VecDeque::new()) }
    }

    fn put(&self, frame: &[u8]) {
        self.frames.borrow_mut().push_back(frame.to_vec());
    }

    fn take(&self, buffer: &mut [u8]) -> SpdmResult<usize> {
        match self.frames.borrow_mut().pop_front() {
            Some(frame) if frame.len() <= buffer.len() => {
                buffer[..frame.len()].copy_from_slice(&frame);
                Ok(frame.len())
            }
            _ => Err(SpdmStatus::ReceiveFail),
        }
    }
}

/// The device of the responder: it takes what the requester put and puts what the
/// requester takes.
struct FakeSpdmDeviceIoReceve<'a> {
    data: &'a SharedBuffer,
}

impl<'a> FakeSpdmDeviceIoReceve<'a> {
    fn new(data: &'a SharedBuffer) -> Self {
        FakeSpdmDeviceIoReceve { data }
    }
}

impl SpdmDeviceIo for FakeSpdmDeviceIoReceve<'_> {
    fn send(&mut self, buffer: &[u8]) -> SpdmResult {
        self.data.put(buffer);
        Ok(())
    }

    fn receive(&mut self, buffer: &mut [u8]) -> SpdmResult<usize> {
        self.data.take(buffer)
    }
}

/// The device of the requester: whatever it sends is handed to the responder at once.
struct FakeSpdmDeviceIo<'x, 'r, 's> {
    data: &'s SharedBuffer,
    responder: &'x mut ResponderContext<'r, FakeSpdmDeviceIoReceve<'s>, PciDoeTransportEncap>,
    sent: usize,
}

impl<'x, 'r, 's> FakeSpdmDeviceIo<'x, 'r, 's> {
    fn new(
        data: &'s SharedBuffer,
        responder: &'x mut ResponderContext<'r, FakeSpdmDeviceIoReceve<'s>, PciDoeTransportEncap>,
    ) -> Self {
        FakeSpdmDeviceIo { data, responder, sent: 0 }
    }
}

impl SpdmDeviceIo for FakeSpdmDeviceIo<'_, '_, '_> {
    fn send(&mut self, buffer: &[u8]) -> SpdmResult {
        self.data.put(buffer);
        self.sent += 1;
        self.responder.process_message()
    }

    fn receive(&mut self, buffer: &mut [u8]) -> SpdmResult<usize> {
        self.data.take(buffer)
    }
}

/// The framing of a PCI data object: vendor, type, and the length in double words.
struct PciDoeTransportEncap {}

impl SpdmTransportEncap for PciDoeTransportEncap {
    fn encap(
        &mut self,
        spdm_buffer: &[u8],
        transport_buffer: &mut [u8],
        secured_message: bool,
    ) -> SpdmResult<usize> {
        let padded = (spdm_buffer.len() + 3) / 4 * 4;
        let total = 8 + padded;
        if transport_buffer.len() < total {
            return Err(SpdmStatus::EncapFail);
        }
        transport_buffer[0] = 0x01;
        transport_buffer[1] = 0x00;
        transport_buffer[2] = if secured_message { 2 } else { 1 };
        transport_buffer[3] = 0;
        transport_buffer[4..8].copy_from_slice(&((total / 4) as u32).to_le_bytes());
        transport_buffer[8..8 + spdm_buffer.len()].copy_from_slice(spdm_buffer);
        for b in transport_buffer[8 + spdm_buffer.len()..total].iter_mut() {
            *b = 0;
        }
        Ok(total)
    }

    fn decap(
        &mut self,
        transport_buffer: &[u8],
        spdm_buffer: &mut [u8],
    ) -> SpdmResult<(usize, bool)> {
        if transport_buffer.len() < 8 || transport_buffer[0] != 0x01 || transport_buffer[1] != 0 {
            return Err(SpdmStatus::DecapFail);
        }
        let secured = match transport_buffer[2] {
            1 => false,
            2 => true,
            _ => return Err(SpdmStatus::DecapFail),
        };
        let dwords = u32::from_le_bytes([
            transport_buffer[4],
            transport_buffer[5],
            transport_buffer[6],
            transport_buffer[7],
        ]) as usize;
        let total = dwords * 4;
        if total < 8 || total > transport_buffer.len() || total - 8 > spdm_buffer.len() {
            return Err(SpdmStatus::DecapFail);
        }
        spdm_buffer[..total - 8].copy_from_slice(&transport_buffer[8..total]);
        Ok((total - 8, secured))
    }

    fn encap_app(
        &mut self,
        spdm_buffer: &[u8],
        app_buffer: &mut [u8],
        _is_app_message: bool,
    ) -> SpdmResult<usize> {
        if app_buffer.len() < spdm_buffer.len() {
            return Err(SpdmStatus::EncapFail);
        }
        app_buffer[..spdm_buffer.len()].copy_from_slice(spdm_buffer);
        Ok(spdm_buffer.len())
    }

    fn decap_app(
        &mut self,
        app_buffer: &[u8],
        spdm_buffer: &mut [u8],
    ) -> SpdmResult<(usize, bool)> {
        if spdm_buffer.len() < app_buffer.len() {
            return Err(SpdmStatus::DecapFail);
        }
        spdm_buffer[..app_buffer.len()].copy_from_slice(app_buffer);
        Ok((app_buffer.len(), false))
    }

    fn get_sequence_number_count(&mut self) -> u8 {
        0
    }
}

/// A stand-in for a hash: it mixes every byte of the data into each byte of the digest.
struct TestHash {}

fn test_digest(algo: SpdmBaseHashAlgo, data: &[u8]) -> Vec<u8> {
    let size = algo.get_size() as usize;
    let mut out = vec![0u8; size];
    let mut state: u32 = 0x811c_9dc5 ^ (size as u32);
    for (i, b) in data.iter().enumerate() {
        state = (state ^ (*b as u32)).wrapping_mul(0x0100_0193).rotate_left(5) ^ (i as u32);
    }
    for (i, o) in out.iter_mut().enumerate() {
        state = (state ^ (i as u32)).wrapping_mul(0x0100_0193).rotate_left(7);
        *o = (state >> 11) as u8;
    }
    out
}

impl SpdmHash for TestHash {
    fn hash_all(&self, base_hash_algo: SpdmBaseHashAlgo, data: &[u8]) -> Option<SpdmDigestStruct> {
        SpdmDigestStruct::from_bytes(&test_digest(base_hash_algo, data))
    }
}

/// Certificates as they are framed in DER: 0x30 0x82, the length in two bytes, the body.
struct TestCertOperation {}

fn cert_ranges(chain: &[u8]) -> Option<Vec<(usize, usize)>> {
    let mut ranges = Vec::new();
    let mut at = 0usize;
    while at < chain.len() {
        if chain.len() - at < 4 || chain[at] != 0x30 || chain[at + 1] != 0x82 {
            return None;
        }
        let len = ((chain[at + 2] as usize) << 8) | chain[at + 3] as usize;
        if chain.len() - at - 4 < len {
            return None;
        }
        ranges.push((at, at + 4 + len));
        at += 4 + len;
    }
    Some(ranges)
}

impl SpdmCertOperation for TestCertOperation {
    fn get_cert_from_cert_chain(&self, cert_chain: &[u8], index: isize) -> SpdmResult<(usize, usize)> {
        let ranges = cert_ranges(cert_chain).ok_or(SpdmStatus::InvalidCert)?;
        if ranges.is_empty() {
            return Err(SpdmStatus::InvalidCert);
        }
        let at = if index == -1 { ranges.len() - 1 } else { index as usize };
        ranges.get(at).copied().ok_or(SpdmStatus::InvalidCert)
    }

    fn verify_cert_chain(&self, cert_chain: &[u8]) -> SpdmResult {
        match cert_ranges(cert_chain) {
            Some(ranges) if !ranges.is_empty() => Ok(()),
            _ => Err(SpdmStatus::InvalidCert),
        }
    }
}

static TEST_HASH: TestHash = TestHash {};
static TEST_CERT_OPERATION: TestCertOperation = TestCertOperation {};

fn test_cert(body_len: usize, seed: u8) -> Vec<u8> {
    let mut cert = vec![0x30, 0x82, (body_len >> 8) as u8, body_len as u8];
    for i in 0..body_len {
        cert.push(seed.wrapping_add((i * 7) as u8));
    }
    cert
}

/// Two certificates, 1484 bytes in all.
fn test_cert_chain_data() -> Vec<u8> {
    let mut certs = test_cert(496, 0x11);
    certs.extend_from_slice(&test_cert(980, 0x55));
    certs
}

/// The chain as it goes over the wire: its length, two zero bytes, the digest of the
/// first certificate, the certificates.
fn test_cert_chain(algo: SpdmBaseHashAlgo, certs: &[u8]) -> Vec<u8> {
    let root_end = cert_ranges(certs).unwrap()[0].1;
    let total = 4 + algo.get_size() as usize + certs.len();
    let mut chain = vec![total as u8, (total >> 8) as u8, 0, 0];
    chain.extend_from_slice(&test_digest(algo, &certs[..root_end]));
    chain.extend_from_slice(certs);
    chain
}

fn create_info() -> (SpdmConfigInfo, SpdmProvisionInfo) {
    let config_info = SpdmConfigInfo {
        spdm_version: SpdmVersion::SpdmVersion10,
        rsp_capabilities: SpdmResponseCapabilityFlags { bits: SPDM_CAP_CERT | SPDM_CAP_CHAL },
        base_hash_algo: SpdmBaseHashAlgo::TPM_ALG_SHA_384,
        base_asym_algo: SpdmBaseAsymAlgo::TPM_ALG_ECDSA_ECC_NIST_P384,
        ..SpdmConfigInfo::default()
    };
    let certs = test_cert_chain_data();
    let provision_info = SpdmProvisionInfo {
        my_cert_chain_data: SpdmCertChainData::from_bytes(&certs),
        my_cert_chain: None,
        peer_cert_chain_data: SpdmCertChainData::from_bytes(&certs),
    };
    (config_info, provision_info)
}

fn req_cert_chain_data() -> SpdmCertChainData {
    SpdmCertChainData::from_bytes(&test_cert_chain(
        SpdmBaseHashAlgo::TPM_ALG_SHA_384,
        &test_cert_chain_data(),
    ))
    .unwrap()
}

#[test]
fn test_case0_send_receive_spdm_certificate() {
    let (rsp_config_info, rsp_provision_info) = create_info();
    let (req_config_info, req_provision_info) = create_info();

    let shared_buffer = SharedBuffer::new();
    let mut device_io_responder = FakeSpdmDeviceIoReceve::new(&shared_buffer);

    let pcidoe_transport_encap = &mut PciDoeTransportEncap {};

    let mut responder = ResponderContext::new(
        &mut device_io_responder,
        pcidoe_transport_encap,
        rsp_config_info,
        rsp_provision_info,
    );

    responder.common.reset_runtime_info();
    responder.common.negotiate_info.base_hash_sel = SpdmBaseHashAlgo::TPM_ALG_SHA_384;
    responder.common.negotiate_info.base_asym_sel = SpdmBaseAsymAlgo::TPM_ALG_ECDSA_ECC_NIST_P384;
    responder.common.provision_info.my_cert_chain = Some(req_cert_chain_data());

    let pcidoe_transport_encap2 = &mut PciDoeTransportEncap {};
    let mut device_io_requester = FakeSpdmDeviceIo::new(&shared_buffer, &mut responder);

    let mut requester = RequesterContext::new(
        &mut device_io_requester,
        pcidoe_transport_encap2,
        req_config_info,
        req_provision_info,
    );

    requester.common.crypto.register_hash(Some(&TEST_HASH));
    requester.common.crypto.register_cert_operation(Some(&TEST_CERT_OPERATION));
    requester.common.negotiate_info.base_hash_sel = SpdmBaseHashAlgo::TPM_ALG_SHA_384;
    requester.common.negotiate_info.base_asym_sel = SpdmBaseAsymAlgo::TPM_ALG_ECDSA_ECC_NIST_P384;

    let status = requester.send_receive_spdm_certificate(None, 0).is_ok();
    assert!(status);
}

#[test]
fn get_certificate_happy_path_takes_two_portions() {
    let (rsp_config_info, rsp_provision_info) = create_info();
    let (req_config_info, req_provision_info) = create_info();
    let shared_buffer = SharedBuffer::new();
    let mut device_io_responder = FakeSpdmDeviceIoReceve::new(&shared_buffer);
    let pcidoe_transport_encap = &mut PciDoeTransportEncap {};
    let mut responder = ResponderContext::new(
        &mut device_io_responder,
        pcidoe_transport_encap,
        rsp_config_info,
        rsp_provision_info,
    );
    responder.common.negotiate_info.base_hash_sel = SpdmBaseHashAlgo::TPM_ALG_SHA_384;
    let chain = req_cert_chain_data();
    assert_eq!(chain.data_size, 0x600);
    responder.common.provision_info.my_cert_chain = Some(chain);

    let pcidoe_transport_encap2 = &mut PciDoeTransportEncap {};
    let mut device_io_requester = FakeSpdmDeviceIo::new(&shared_buffer, &mut responder);
    let mut requester = RequesterContext::new(
        &mut device_io_requester,
        pcidoe_transport_encap2,
        req_config_info,
        req_provision_info,
    );
    requester.common.crypto.register_hash(Some(&TEST_HASH));
    requester.common.crypto.register_cert_operation(Some(&TEST_CERT_OPERATION));
    requester.common.negotiate_info.base_hash_sel = SpdmBaseHashAlgo::TPM_ALG_SHA_384;
    requester.common.negotiate_info.base_asym_sel = SpdmBaseAsymAlgo::TPM_ALG_ECDSA_ECC_NIST_P384;

    assert_eq!(requester.send_receive_spdm_certificate(None, 0), Ok(()));

    let stored = requester.common.peer_info.peer_cert_chain[0].unwrap().cert_chain;
    assert_eq!(stored.data_size, 0x600);
    assert_eq!(&stored.data[..0x600], &chain.data[..0x600]);
    assert_eq!(&stored.data[..4], &[0x00, 0x06, 0x00, 0x00]);
    assert_eq!(requester.verify_spdm_certificate_chain(0), Ok(()));

    // Two exchanges: 8 + (8 + 0x400) bytes and 8 + (8 + 0x200) bytes.
    let mut expected = vec![0x10, 0x82, 0x00, 0x00, 0x00, 0x00, 0x00, 0x04];
    expected.extend_from_slice(&[0x10, 0x02, 0x00, 0x00, 0x00, 0x04, 0x00, 0x02]);
    expected.extend_from_slice(&chain.data[..0x400]);
    expected.extend_from_slice(&[0x10, 0x82, 0x00, 0x00, 0x00, 0x04, 0x00, 0x02]);
    expected.extend_from_slice(&[0x10, 0x02, 0x00, 0x00, 0x00, 0x02, 0x00, 0x00]);
    expected.extend_from_slice(&chain.data[0x400..0x600]);
    assert_eq!(requester.common.runtime_info.message_b.as_ref(), &expected[..]);
    assert_eq!(expected.len(), 8 + 8 + 0x400 + 8 + 8 + 0x200);
    drop(requester);
    assert_eq!(device_io_requester.sent, 2);
    assert_eq!(responder.common.runtime_info.message_b.as_ref(), &expected[..]);
}

/// A requester that talks to nobody: for the handlers that take the response as an
/// argument.
struct NoDevice {}

impl SpdmDeviceIo for NoDevice {
    fn send(&mut self, _buffer: &[u8]) -> SpdmResult {
        Err(SpdmStatus::SendFail)
    }

    fn receive(&mut self, _buffer: &mut [u8]) -> SpdmResult<usize> {
        Err(SpdmStatus::ReceiveFail)
    }
}

fn certificate_response(slot: u8, portion: &[u8], remainder: u16) -> Vec<u8> {
    let mut response = vec![0x10, 0x02, slot, 0x00];
    response.extend_from_slice(&(portion.len() as u16).to_le_bytes());
    response.extend_from_slice(&remainder.to_le_bytes());
    response.extend_from_slice(portion);
    response
}

const GET_FIRST: [u8; 8] = [0x10, 0x82, 0x00, 0x00, 0x00, 0x00, 0x00, 0x04];

#[test]
fn slot_mismatch_is_a_bad_field_and_the_slot_stays_empty() {
    let (config_info, provision_info) = create_info();
    let mut device = NoDevice {};
    let mut transport = PciDoeTransportEncap {};
    let mut requester = RequesterContext::new(&mut device, &mut transport, config_info, provision_info);
    let chain = req_cert_chain_data();
    let response = certificate_response(1, &chain.data[..0x400], 0x200);
    let r = requester.handle_spdm_certificate_partial_response(
        None,
        0,
        0,
        (0, 0x400),
        &GET_FIRST,
        &response,
    );
    assert_eq!(r, Err(SpdmStatus::InvalidMsgField));
    assert!(requester.common.peer_info.peer_cert_chain[0].is_none());
    assert!(requester.common.peer_info.peer_cert_chain[1].is_none());
    assert_eq!(requester.common.runtime_info.message_b.as_ref().len(), 0);
}

#[test]
fn portion_longer_than_requested_is_a_bad_field() {
    let (config_info, provision_info) = create_info();
    let mut device = NoDevice {};
    let mut transport = PciDoeTransportEncap {};
    let mut requester = RequesterContext::new(&mut device, &mut transport, config_info, provision_info);
    let chain = req_cert_chain_data();
    let response = certificate_response(0, &chain.data[..0x101], 0);
    let r = requester.handle_spdm_certificate_partial_response(
        None,
        0,
        0,
        (0, 0x100),
        &[0x10, 0x82, 0x00, 0x00, 0x00, 0x00, 0x00, 0x01],
        &response,
    );
    assert_eq!(r, Err(SpdmStatus::InvalidMsgField));
    assert_eq!(requester.common.runtime_info.message_b.as_ref().len(), 0);
    assert!(requester.common.peer_info.peer_cert_chain[0].is_none());

    // As long as requested is accepted, and the exchange is recorded.
    let response = certificate_response(0, &chain.data[..0x100], 0);
    let r = requester.handle_spdm_certificate_partial_response(
        None,
        0,
        0,
        (0, 0x100),
        &[0x10, 0x82, 0x00, 0x00, 0x00, 0x00, 0x00, 0x01],
        &response,
    );
    assert_eq!(r, Ok((0x100, 0)));
    assert_eq!(requester.common.runtime_info.message_b.as_ref().len(), 8 + 8 + 0x100);
    assert_eq!(requester.common.peer_info.peer_cert_chain[0].unwrap().cert_chain.data_size, 0x100);
}

#[test]
fn portion_beyond_the_chain_store_is_a_bad_field() {
    let (config_info, provision_info) = create_info();
    let mut device = NoDevice {};
    let mut transport = PciDoeTransportEncap {};
    let mut requester = RequesterContext::new(&mut device, &mut transport, config_info, provision_info);
    requester.common.peer_info.peer_cert_chain[0] = Some(SpdmCertChain::default());
    let offset = (MAX_SPDM_CERT_CHAIN_DATA_SIZE - 0x10) as u16;
    let portion = [0xAAu8; 0x11];
    let response = certificate_response(0, &portion, 0);
    let r = requester.handle_spdm_certificate_partial_response(
        None,
        0,
        0,
        (offset, 0x400),
        &GET_FIRST,
        &response,
    );
    assert_eq!(r, Err(SpdmStatus::InvalidMsgField));
    assert_eq!(requester.common.runtime_info.message_b.as_ref().len(), 0);

    // One byte less ends exactly with the store and is accepted.
    let response = certificate_response(0, &portion[..0x10], 0);
    let r = requester.handle_spdm_certificate_partial_response(
        None,
        0,
        0,
        (offset, 0x400),
        &GET_FIRST,
        &response,
    );
    assert_eq!(r, Ok((0x10, 0)));
    let stored = requester.common.peer_info.peer_cert_chain[0].unwrap().cert_chain;
    assert_eq!(stored.data_size as usize, MAX_SPDM_CERT_CHAIN_DATA_SIZE);
    assert_eq!(&stored.data[MAX_SPDM_CERT_CHAIN_DATA_SIZE - 0x10..], &portion[..0x10]);
}

#[test]
fn total_size_must_match_once_known() {
    let (config_info, provision_info) = create_info();
    let mut device = NoDevice {};
    let mut transport = PciDoeTransportEncap {};
    let mut requester = RequesterContext::new(&mut device, &mut transport, config_info, provision_info);
    let chain = req_cert_chain_data();
    let response = certificate_response(0, &chain.data[..0x400], 0x200);
    let r = requester.handle_spdm_certificate_partial_response(
        None,
        0,
        0x601,
        (0, 0x400),
        &GET_FIRST,
        &response,
    );
    assert_eq!(r, Err(SpdmStatus::InvalidMsgField));
    let r = requester.handle_spdm_certificate_partial_response(
        None,
        0,
        0x600,
        (0, 0x400),
        &GET_FIRST,
        &response,
    );
    assert_eq!(r, Ok((0x400, 0x200)));
}

#[test]
fn first_portion_must_start_the_chain() {
    let (config_info, provision_info) = create_info();
    let mut device = NoDevice {};
    let mut transport = PciDoeTransportEncap {};
    let mut requester = RequesterContext::new(&mut device, &mut transport, config_info, provision_info);
    let response = certificate_response(0, &[1, 2, 3, 4], 0);
    let r = requester.handle_spdm_certificate_partial_response(
        None,
        0,
        0,
        (4, 4),
        &GET_FIRST,
        &response,
    );
    assert_eq!(r, Err(SpdmStatus::InvalidMsgField));
    assert!(requester.common.peer_info.peer_cert_chain[0].is_none());
}

#[test]
fn other_responses_and_versions_are_refused() {
    let (config_info, provision_info) = create_info();
    let mut device = NoDevice {};
    let mut transport = PciDoeTransportEncap {};
    let mut requester = RequesterContext::new(&mut device, &mut transport, config_info, provision_info);
    // DIGESTS where CERTIFICATE is waited for.
    let r = requester.handle_spdm_certificate_partial_response(
        None,
        0,
        0,
        (0, 0x400),
        &GET_FIRST,
        &[0x10, 0x01, 0x00, 0x00],
    );
    assert_eq!(r, Err(SpdmStatus::ErrorPeer));
    // Another version.
    let mut response = certificate_response(0, &[1, 2, 3, 4], 0);
    response[0] = 0x11;
    let r = requester.handle_spdm_certificate_partial_response(
        None,
        0,
        0,
        (0, 0x400),
        &GET_FIRST,
        &response,
    );
    assert_eq!(r, Err(SpdmStatus::InvalidMsgField));
    // No header at all.
    let r =
        requester.handle_spdm_certificate_partial_response(None, 0, 0, (0, 0x400), &GET_FIRST, &[0x10]);
    assert_eq!(r, Err(SpdmStatus::InvalidMsgField));
    // A body that ends before its portion does.
    let mut response = certificate_response(0, &[1, 2, 3, 4], 0);
    response.pop();
    let r = requester.handle_spdm_certificate_partial_response(
        None,
        0,
        0,
        (0, 0x400),
        &GET_FIRST,
        &response,
    );
    assert_eq!(r, Err(SpdmStatus::InvalidMsgField));
    // An ERROR that is no deferral.
    let r = requester.handle_spdm_certificate_partial_response(
        None,
        0,
        0,
        (0, 0x400),
        &GET_FIRST,
        &[0x10, 0x7F, 0x01, 0x00],
    );
    assert_eq!(r, Err(SpdmStatus::ErrorPeer));
    // A slot that no device has.
    let r = requester.handle_spdm_certificate_partial_response(
        None,
        8,
        0,
        (0, 0x400),
        &GET_FIRST,
        &certificate_response(8, &[1, 2, 3, 4], 0),
    );
    assert_eq!(r, Err(SpdmStatus::InvalidParameter));
    assert_eq!(requester.common.runtime_info.message_b.as_ref().len(), 0);
}

#[test]
fn transcript_without_room_refuses_the_portion() {
    let (config_info, provision_info) = create_info();
    let mut device = NoDevice {};
    let mut transport = PciDoeTransportEncap {};
    let mut requester = RequesterContext::new(&mut device, &mut transport, config_info, provision_info);
    let filler = vec![0xEEu8; MAX_SPDM_MESSAGE_BUFFER_SIZE - 8 - 12 + 1];
    assert!(requester.common.runtime_info.message_b.append_message(&filler).is_ok());
    let response = certificate_response(0, &[1, 2, 3, 4], 0);
    let r = requester.handle_spdm_certificate_partial_response(
        None,
        0,
        0,
        (0, 0x400),
        &GET_FIRST,
        &response,
    );
    assert_eq!(r, Err(SpdmStatus::BufferFull));
    assert_eq!(requester.common.runtime_info.message_b.as_ref(), &filler[..]);
    assert!(requester.common.peer_info.peer_cert_chain[0].is_none());
}

#[test]
fn encode_certificate_request_bytes() {
    let (config_info, provision_info) = create_info();
    let mut device = NoDevice {};
    let mut transport = PciDoeTransportEncap {};
    let mut requester = RequesterContext::new(&mut device, &mut transport, config_info, provision_info);
    requester.common.negotiate_info.spdm_version_sel = SpdmVersion::SpdmVersion11;
    let mut buf = [0xFFu8; 10];
    let used = requester.encode_spdm_certificate_partial(3, 0x1234, 0x0400, &mut buf);
    assert_eq!(used, 8);
    assert_eq!(buf, [0x11, 0x82, 0x03, 0x00, 0x34, 0x12, 0x00, 0x04, 0xFF, 0xFF]);
    let mut small = [0xFFu8; 7];
    assert_eq!(requester.encode_spdm_certificate_partial(3, 0x1234, 0x0400, &mut small), 0);
    assert_eq!(small, [0xFFu8; 7]);
    assert_eq!(MAX_SPDM_CERT_PORTION_LEN, 0x400);
}

fn requester_with_chain<'a>(
    device: &'a mut NoDevice,
    transport: &'a mut PciDoeTransportEncap,
    chain: &[u8],
) -> RequesterContext<'a, NoDevice, PciDoeTransportEncap> {
    let (config_info, provision_info) = create_info();
    let mut requester = RequesterContext::new(device, transport, config_info, provision_info);
    requester.common.crypto.register_hash(Some(&TEST_HASH));
    requester.common.crypto.register_cert_operation(Some(&TEST_CERT_OPERATION));
    requester.common.negotiate_info.base_hash_sel = SpdmBaseHashAlgo::TPM_ALG_SHA_384;
    requester.common.peer_info.peer_cert_chain[0] =
        Some(SpdmCertChain { cert_chain: SpdmCertChainData::from_bytes(chain).unwrap() });
    requester
}

#[test]
fn root_hash_mismatch_is_an_invalid_certificate() {
    let mut chain = test_cert_chain(SpdmBaseHashAlgo::TPM_ALG_SHA_384, &test_cert_chain_data());
    chain[4 + 17] ^= 0x01;
    let mut device = NoDevice {};
    let mut transport = PciDoeTransportEncap {};
    let mut requester = requester_with_chain(&mut device, &mut transport, &chain);
    assert_eq!(requester.verify_spdm_certificate_chain(0), Err(SpdmStatus::InvalidCert));
    // Also where nothing was provisioned to hold the chain against.
    requester.common.provision_info.peer_cert_chain_data = None;
    assert_eq!(requester.verify_spdm_certificate_chain(0), Err(SpdmStatus::InvalidCert));
    chain[4 + 17] ^= 0x01;
    let mut device = NoDevice {};
    let mut transport = PciDoeTransportEncap {};
    let mut requester = requester_with_chain(&mut device, &mut transport, &chain);
    assert_eq!(requester.verify_spdm_certificate_chain(0), Ok(()));
}

#[test]
fn pinning_mismatch_is_an_invalid_certificate() {
    // The last byte of the last certificate differs from the provisioned chain; the
    // digest of the root certificate still holds.
    let mut certs = test_cert_chain_data();
    let last = certs.len() - 1;
    certs[last] ^= 0x80;
    let chain = test_cert_chain(SpdmBaseHashAlgo::TPM_ALG_SHA_384, &certs);
    let mut device = NoDevice {};
    let mut transport = PciDoeTransportEncap {};
    let mut requester = requester_with_chain(&mut device, &mut transport, &chain);
    assert_eq!(requester.verify_spdm_certificate_chain(0), Err(SpdmStatus::InvalidCert));

    // Without provisioned certificates the chain is held against its own digest alone.
    requester.common.provision_info.peer_cert_chain_data = None;
    assert_eq!(requester.verify_spdm_certificate_chain(0), Ok(()));
    // A chain whose certificates do not follow one another does not verify.
    let mut broken = chain.clone();
    let second = 52 + 500;
    broken[second] = 0x31;
    requester.common.peer_info.peer_cert_chain[0] =
        Some(SpdmCertChain { cert_chain: SpdmCertChainData::from_bytes(&broken).unwrap() });
    assert_eq!(requester.verify_spdm_certificate_chain(0), Err(SpdmStatus::InvalidCert));
}

#[test]
fn verify_needs_a_chain_longer_than_its_prefix() {
    let chain = test_cert_chain(SpdmBaseHashAlgo::TPM_ALG_SHA_384, &test_cert_chain_data());
    let mut device = NoDevice {};
    let mut transport = PciDoeTransportEncap {};
    let mut requester = requester_with_chain(&mut device, &mut transport, &chain[..52]);
    assert_eq!(requester.verify_spdm_certificate_chain(0), Err(SpdmStatus::InvalidCert));
    assert_eq!(requester.verify_spdm_certificate_chain(1), Err(SpdmStatus::InvalidParameter));
    assert_eq!(requester.verify_spdm_certificate_chain(8), Err(SpdmStatus::InvalidParameter));
    requester.common.crypto.register_hash(None);
    requester.common.peer_info.peer_cert_chain[1] =
        Some(SpdmCertChain { cert_chain: SpdmCertChainData::from_bytes(&chain).unwrap() });
    assert_eq!(requester.verify_spdm_certificate_chain(1), Err(SpdmStatus::Unsupported));
}

#[test]
fn anchor_decides_on_digest_and_pin() {
    let pin = |p: &'static [u8]| Some(p);
    assert_eq!(anchor_cert_chain(&[1, 2], &[1, 2], &[9, 9, 9], pin(&[9, 9, 9])), Ok(()));
    assert_eq!(
        anchor_cert_chain(&[1, 2], &[1, 3], &[9, 9, 9], pin(&[9, 9, 9])),
        Err(SpdmStatus::InvalidCert)
    );
    assert_eq!(
        anchor_cert_chain(&[1, 2], &[1, 2], &[9, 9, 9], pin(&[9, 9, 8])),
        Err(SpdmStatus::InvalidCert)
    );
    assert_eq!(
        anchor_cert_chain(&[1, 2], &[1, 2], &[9, 9, 9], pin(&[9, 9])),
        Err(SpdmStatus::InvalidCert)
    );
    // Without provisioned certificates the digest alone decides.
    assert_eq!(anchor_cert_chain(&[1, 2], &[1, 2], &[9, 9, 9], None), Ok(()));
    assert_eq!(anchor_cert_chain(&[1, 2], &[1], &[9, 9, 9], None), Err(SpdmStatus::InvalidCert));
}

struct TestHmac {}

impl SpdmHmac for TestHmac {
    fn hmac(&self, base_hash_algo: SpdmBaseHashAlgo, key: &[u8], data: &[u8]) -> Option<SpdmDigestStruct> {
        let mut input = key.to_vec();
        input.extend_from_slice(data);
        SpdmDigestStruct::from_bytes(&test_digest(base_hash_algo, &input))
    }

    fn hmac_verify(
        &self,
        base_hash_algo: SpdmBaseHashAlgo,
        key: &[u8],
        data: &[u8],
        hmac: &SpdmDigestStruct,
    ) -> SpdmResult {
        let expected = self.hmac(base_hash_algo, key, data).unwrap();
        if expected.data == hmac.data {
            Ok(())
        } else {
            Err(SpdmStatus::CryptoError)
        }
    }
}

struct TestHkdf {}

impl SpdmHkdf for TestHkdf {
    fn hkdf_expand(
        &self,
        _base_hash_algo: SpdmBaseHashAlgo,
        pseudo_random_key: &[u8],
        info: &[u8],
        out_size: u16,
    ) -> Option<SpdmDigestStruct> {
        let mut input = pseudo_random_key.to_vec();
        input.extend_from_slice(info);
        let long = test_digest(SpdmBaseHashAlgo::TPM_ALG_SHA_512, &input);
        SpdmDigestStruct::from_bytes(&long[..out_size as usize])
    }
}

struct TestAead {}

fn test_tag(key: &[u8], iv: &[u8], aad: &[u8], cipher_text: &[u8]) -> Vec<u8> {
    let mut input = key.to_vec();
    input.extend_from_slice(iv);
    input.extend_from_slice(aad);
    input.extend_from_slice(cipher_text);
    test_digest(SpdmBaseHashAlgo::TPM_ALG_SHA_256, &input)[..16].to_vec()
}

impl SpdmAead for TestAead {
    fn encrypt(
        &self,
        _aead_algo: SpdmAeadAlgo,
        key: &[u8],
        iv: &[u8],
        aad: &[u8],
        plain_text: &[u8],
    ) -> SpdmResult<(Vec<u8>, Vec<u8>)> {
        let cipher_text: Vec<u8> =
            plain_text.iter().enumerate().map(|(i, b)| b ^ key[i % key.len()] ^ iv[i % 12]).collect();
        let tag = test_tag(key, iv, aad, &cipher_text);
        Ok((cipher_text, tag))
    }

    fn decrypt(
        &self,
        _aead_algo: SpdmAeadAlgo,
        key: &[u8],
        iv: &[u8],
        aad: &[u8],
        cipher_text: &[u8],
        tag: &[u8],
    ) -> SpdmResult<Vec<u8>> {
        if test_tag(key, iv, aad, cipher_text) != tag {
            return Err(SpdmStatus::CryptoError);
        }
        Ok(cipher_text.iter().enumerate().map(|(i, b)| b ^ key[i % key.len()] ^ iv[i % 12]).collect())
    }
}

static TEST_HMAC: TestHmac = TestHmac {};
static TEST_HKDF: TestHkdf = TestHkdf {};
static TEST_AEAD: TestAead = TestAead {};

#[test]
fn get_certificate_within_a_session() {
    const SESSION_ID: u32 = 0x0001_0002;
    let (rsp_config_info, rsp_provision_info) = create_info();
    let (req_config_info, req_provision_info) = create_info();
    let shared_buffer = SharedBuffer::new();
    let mut device_io_responder = FakeSpdmDeviceIoReceve::new(&shared_buffer);
    let pcidoe_transport_encap = &mut PciDoeTransportEncap {};
    let mut responder = ResponderContext::new(
        &mut device_io_responder,
        pcidoe_transport_encap,
        rsp_config_info,
        rsp_provision_info,
    );
    responder.common.crypto.register_aead(Some(&TEST_AEAD));
    responder.common.crypto.register_hmac(Some(&TEST_HMAC));
    responder.common.crypto.register_hkdf(Some(&TEST_HKDF));
    responder.common.negotiate_info.spdm_version_sel = SpdmVersion::SpdmVersion11;
    responder.common.negotiate_info.base_hash_sel = SpdmBaseHashAlgo::TPM_ALG_SHA_384;
    responder.common.provision_info.my_cert_chain = Some(req_cert_chain_data());

    // Both sides hold the same session, at the handshake, with the same keys.
    let mut session = SpdmSession::new();
    session.setup(SESSION_ID).unwrap();
    session.set_crypto_param(
        SpdmBaseHashAlgo::TPM_ALG_SHA_384,
        SpdmDheAlgo::SECP_384_R1,
        SpdmAeadAlgo::AES_256_GCM,
        SpdmKeyScheduleAlgo::SPDM_KEY_SCHEDULE,
    );
    session
        .generate_handshake_secret(
            &responder.common.crypto,
            SpdmVersion::SpdmVersion11,
            &[0x42; 48],
            &[0x77; 48],
        )
        .unwrap();
    session.set_session_state(SpdmSessionState::SpdmSessionHandshaking).unwrap();
    responder.common.session[3] = session;
    assert_eq!(responder.common.get_session_index(SESSION_ID), Some(3));
    assert_eq!(responder.common.get_session_index(SESSION_ID + 1), None);
    assert_eq!(responder.common.get_session_index(0), None);
    assert_eq!(responder.common.get_next_avaiable_session_index(), Some(0));
    assert_eq!(
        responder.common.get_immutable_session_via_id(SESSION_ID).unwrap().get_session_state(),
        SpdmSessionState::SpdmSessionHandshaking
    );
    assert!(responder.common.get_immutable_session_via_id(7).is_none());

    let pcidoe_transport_encap2 = &mut PciDoeTransportEncap {};
    let mut device_io_requester = FakeSpdmDeviceIo::new(&shared_buffer, &mut responder);
    let mut requester = RequesterContext::new(
        &mut device_io_requester,
        pcidoe_transport_encap2,
        req_config_info,
        req_provision_info,
    );
    requester.common.crypto.register_hash(Some(&TEST_HASH));
    requester.common.crypto.register_cert_operation(Some(&TEST_CERT_OPERATION));
    requester.common.crypto.register_aead(Some(&TEST_AEAD));
    requester.common.negotiate_info.spdm_version_sel = SpdmVersion::SpdmVersion11;
    requester.common.negotiate_info.base_hash_sel = SpdmBaseHashAlgo::TPM_ALG_SHA_384;
    requester.common.session[0] = session;

    // A session that is not in the table carries nothing.
    assert_eq!(
        requester.send_receive_spdm_certificate(Some(SESSION_ID + 1), 0),
        Err(SpdmStatus::InvalidParameter)
    );
    assert_eq!(requester.send_receive_spdm_certificate(Some(SESSION_ID), 0), Ok(()));
    let stored = requester.common.peer_info.peer_cert_chain[0].unwrap().cert_chain;
    assert_eq!(stored.data_size, 0x600);
    assert_eq!(&stored.data[..0x600], &req_cert_chain_data().data[..0x600]);
    // Within a session the transcript of the connection records nothing.
    assert_eq!(requester.common.runtime_info.message_b.as_ref().len(), 0);
    // Two messages went each way.
    let carried = requester.common.session[0].get_phase_secret(false);
    assert_eq!(carried.request_direction.sequence_number, 2);
    assert_eq!(carried.response_direction.sequence_number, 2);
    drop(requester);
    assert_eq!(device_io_requester.sent, 2);
    let carried = responder.common.session[3].get_phase_secret(false);
    assert_eq!(carried.request_direction.sequence_number, 2);
    assert_eq!(carried.response_direction.sequence_number, 2);
    assert_eq!(responder.common.runtime_info.message_b.as_ref().len(), 0);
    responder.common.reset_runtime_info();
    assert_eq!(MAX_SPDM_MESSAGE_BUFFER_SIZE, 0x1200);
}

/// A device that hands out frames from a list and takes whatever is sent.
struct ListDevice {
    frames: VecDeque<Vec<u8>>,
}

impl SpdmDeviceIo for ListDevice {
    fn send(&mut self, _buffer: &[u8]) -> SpdmResult {
        Ok(())
    }

    fn receive(&mut self, buffer: &mut [u8]) -> SpdmResult<usize> {
        match self.frames.pop_front() {
            Some(frame) => {
                buffer[..frame.len()].copy_from_slice(&frame);
                Ok(frame.len())
            }
            None => Err(SpdmStatus::ReceiveFail),
        }
    }
}

/// A transport that cannot frame anything.
struct BrokenTransport {}

impl SpdmTransportEncap for BrokenTransport {
    fn encap(&mut self, _: &[u8], _: &mut [u8], _: bool) -> SpdmResult<usize> {
        Err(SpdmStatus::InvalidParameter)
    }

    fn decap(&mut self, _: &[u8], _: &mut [u8]) -> SpdmResult<(usize, bool)> {
        Err(SpdmStatus::InvalidParameter)
    }

    fn encap_app(&mut self, _: &[u8], _: &mut [u8], _: bool) -> SpdmResult<usize> {
        Err(SpdmStatus::InvalidParameter)
    }

    fn decap_app(&mut self, _: &[u8], _: &mut [u8]) -> SpdmResult<(usize, bool)> {
        Err(SpdmStatus::InvalidParameter)
    }

    fn get_sequence_number_count(&mut self) -> u8 {
        0
    }
}

#[test]
fn failures_of_the_channel_and_of_the_framing_end_the_exchange() {
    let (config_info, provision_info) = create_info();
    // The device cannot send.
    let mut device = NoDevice {};
    let mut transport = PciDoeTransportEncap {};
    let mut requester = RequesterContext::new(&mut device, &mut transport, config_info, provision_info);
    assert_eq!(requester.send_receive_spdm_certificate(None, 0), Err(SpdmStatus::SendFail));
    assert_eq!(requester.send_message(&[1, 2, 3]), Err(SpdmStatus::SendFail));
    assert_eq!(requester.receive_message(), Err(SpdmStatus::ReceiveFail));

    // The transport cannot frame.
    let mut device = ListDevice { frames: VecDeque::new() };
    let mut transport = BrokenTransport {};
    let mut requester = RequesterContext::new(&mut device, &mut transport, config_info, provision_info);
    assert_eq!(requester.send_receive_spdm_certificate(None, 0), Err(SpdmStatus::EncapFail));

    // Nothing comes back.
    let mut device = ListDevice { frames: VecDeque::new() };
    let mut transport = PciDoeTransportEncap {};
    let mut requester = RequesterContext::new(&mut device, &mut transport, config_info, provision_info);
    assert_eq!(requester.send_receive_spdm_certificate(None, 0), Err(SpdmStatus::ReceiveFail));

    // What comes back is no frame of the transport, or is marked as secured although
    // the request went in the clear.
    for frame in [vec![0xFFu8; 12], vec![0x01, 0x00, 0x02, 0x00, 0x03, 0x00, 0x00, 0x00, 1, 2, 3, 4]] {
        let mut device = ListDevice { frames: VecDeque::from(vec![frame]) };
        let mut transport = PciDoeTransportEncap {};
        let mut requester =
            RequesterContext::new(&mut device, &mut transport, config_info, provision_info);
        assert_eq!(requester.send_receive_spdm_certificate(None, 0), Err(SpdmStatus::DecapFail));
        assert!(requester.common.peer_info.peer_cert_chain[0].is_none());
        assert_eq!(requester.common.runtime_info.message_b.as_ref().len(), 0);
    }

    // A responder that sends an empty portion although more is to come.
    let empty_portion = vec![
        0x01, 0x00, 0x01, 0x00, 0x04, 0x00, 0x00, 0x00, 0x10, 0x02, 0x00, 0x00, 0x00, 0x00, 0x10, 0x00,
    ];
    let mut device = ListDevice { frames: VecDeque::from(vec![empty_portion]) };
    let mut transport = PciDoeTransportEncap {};
    let mut requester = RequesterContext::new(&mut device, &mut transport, config_info, provision_info);
    assert_eq!(requester.send_receive_spdm_certificate(None, 0), Err(SpdmStatus::InvalidMsgField));

    // A responder that has no chain.
    let no_chain = vec![
        0x01, 0x00, 0x01, 0x00, 0x04, 0x00, 0x00, 0x00, 0x10, 0x02, 0x00, 0x00, 0x00, 0x00, 0x00, 0x00,
    ];
    let mut device = ListDevice { frames: VecDeque::from(vec![no_chain]) };
    let mut transport = PciDoeTransportEncap {};
    let mut requester = RequesterContext::new(&mut device, &mut transport, config_info, provision_info);
    assert_eq!(requester.send_receive_spdm_certificate(None, 0), Err(SpdmStatus::InvalidCert));
    assert_eq!(requester.send_receive_spdm_certificate(None, 8), Err(SpdmStatus::InvalidParameter));
}

#[test]
fn a_fetch_goes_on_as_its_step_says() {
    // The first portion announces the size of the whole chain.
    assert_eq!(certificate_step(0, 0, 0x400, 0x200), Ok((0x600, 0x400, 0x200)));
    assert_eq!(certificate_step(0x600, 0x400, 0x200, 0), Ok((0x600, 0x600, 0)));
    // No more is asked for than one message may carry.
    assert_eq!(certificate_step(0, 0, 0x10, 0x1000), Ok((0x1010, 0x10, 0x400)));
    assert_eq!(certificate_step(0x900, 0x400, 0x100, 0x400), Ok((0x900, 0x500, 0x400)));
    assert_eq!(certificate_step(0x900, 0x400, 0x100, 0x401), Ok((0x900, 0x500, 0x400)));
    // A chain of no bytes ends the fetch.
    assert_eq!(certificate_step(0, 0, 0, 0), Ok((0, 0, 0)));
    // No progress.
    assert_eq!(certificate_step(0, 0, 0, 5), Err(SpdmStatus::InvalidMsgField));
    assert_eq!(certificate_step(0x600, 0x400, 0, 0x200), Err(SpdmStatus::InvalidMsgField));
    // A size that a chain cannot say it has.
    assert_eq!(certificate_step(0, 0, 0x400, 0xFFFF), Err(SpdmStatus::InvalidMsgField));
    assert_eq!(certificate_step(0, 0, 1, 0xFFFF), Err(SpdmStatus::InvalidMsgField));
    assert_eq!(certificate_step(0, 0, 1, 0xFFFE), Ok((0xFFFF, 1, 0x400)));
    // A portion that ends beyond the store of a chain.
    assert_eq!(certificate_step(0x2000, 0x0FFF, 2, 0), Err(SpdmStatus::InvalidMsgField));
    assert_eq!(certificate_step(0x1000, 0x0FFF, 1, 0), Ok((0x1000, 0x1000, 0)));
    assert_eq!(certificate_announced(0), Err(SpdmStatus::InvalidCert));
    assert_eq!(certificate_announced(1), Ok(()));
    assert_eq!(follow_deferral(0), Ok(1));
    assert_eq!(follow_deferral(3), Ok(4));
    assert_eq!(follow_deferral(4), Err(SpdmStatus::NotReadyPeer));
    assert_eq!(follow_deferral(usize::MAX), Err(SpdmStatus::NotReadyPeer));
}

fn framed(message: &[u8]) -> Vec<u8> {
    let mut transport = PciDoeTransportEncap {};
    let mut frame = vec![0u8; message.len() + 16];
    let used = transport.encap(message, &mut frame, false).unwrap();
    frame.truncate(used);
    frame
}

#[test]
fn a_fetch_ends_with_the_error_of_the_round_that_fails() {
    let (config_info, provision_info) = create_info();
    let chain = req_cert_chain_data();

    // The first answer announces more than a chain can say it has.
    let first = certificate_response(0, &chain.data[..0x400], 0xFFFF);
    let mut device = ListDevice { frames: VecDeque::from(vec![framed(&first)]) };
    let mut transport = PciDoeTransportEncap {};
    let mut requester = RequesterContext::new(&mut device, &mut transport, config_info, provision_info);
    assert_eq!(requester.send_receive_spdm_certificate(None, 0), Err(SpdmStatus::InvalidMsgField));
    // The portion that came is stored, and the exchange is recorded.
    assert_eq!(requester.common.peer_info.peer_cert_chain[0].unwrap().cert_chain.data_size, 0x400);
    assert_eq!(requester.common.runtime_info.message_b.as_ref().len(), 8 + 8 + 0x400);

    // The second portion is for another slot: the fetch ends with that error, and the
    // first portion stays.
    let first = certificate_response(0, &chain.data[..0x400], 0x200);
    let second = certificate_response(1, &chain.data[0x400..0x600], 0);
    let mut device = ListDevice { frames: VecDeque::from(vec![framed(&first), framed(&second)]) };
    let mut transport = PciDoeTransportEncap {};
    let mut requester = RequesterContext::new(&mut device, &mut transport, config_info, provision_info);
    assert_eq!(requester.send_receive_spdm_certificate(None, 0), Err(SpdmStatus::InvalidMsgField));
    let stored = requester.common.peer_info.peer_cert_chain[0].unwrap().cert_chain;
    assert_eq!(stored.data_size, 0x400);
    assert_eq!(&stored.data[..0x400], &chain.data[..0x400]);
    let mut recorded = GET_FIRST.to_vec();
    recorded.extend_from_slice(&first);
    assert_eq!(requester.common.runtime_info.message_b.as_ref(), &recorded[..]);

    // The second round finds nothing to receive.
    let mut device = ListDevice { frames: VecDeque::from(vec![framed(&first)]) };
    let mut transport = PciDoeTransportEncap {};
    let mut requester = RequesterContext::new(&mut device, &mut transport, config_info, provision_info);
    assert_eq!(requester.send_receive_spdm_certificate(None, 0), Err(SpdmStatus::ReceiveFail));
    assert_eq!(requester.common.peer_info.peer_cert_chain[0].unwrap().cert_chain.data_size, 0x400);

    // An ERROR that is no deferral ends the round at once, with nothing changed.
    let mut device = ListDevice { frames: VecDeque::from(vec![framed(&[0x10, 0x7F, 0x03, 0x00])]) };
    let mut transport = PciDoeTransportEncap {};
    let mut requester = RequesterContext::new(&mut device, &mut transport, config_info, provision_info);
    assert_eq!(requester.send_receive_spdm_certificate(None, 0), Err(SpdmStatus::ErrorPeer));
    assert!(requester.common.peer_info.peer_cert_chain[0].is_none());
    assert_eq!(requester.common.runtime_info.message_b.as_ref().len(), 0);
}

#[test]
fn a_slot_that_no_device_has_is_looked_at_after_the_response() {
    let (config_info, provision_info) = create_info();
    let mut device = NoDevice {};
    let mut transport = PciDoeTransportEncap {};
    let mut requester = RequesterContext::new(&mut device, &mut transport, config_info, provision_info);
    let portion = [1u8, 2, 3, 4];
    // A CERTIFICATE that does not read.
    let mut short = certificate_response(8, &portion, 0);
    short.pop();
    // A portion that is longer than what was asked for.
    let long = certificate_response(8, &[7u8; 0x11], 0);
    // Another version.
    let mut other_version = certificate_response(8, &portion, 0);
    other_version[0] = 0x11;
    let cases: [(u16, (u16, u16), Vec<u8>, SpdmStatus); 9] = [
        (0, (0, 0x400), short, SpdmStatus::InvalidMsgField),
        (0, (0, 0x10), long, SpdmStatus::InvalidMsgField),
        // A portion that ends beyond the store of a chain.
        (0, (0x0FFE, 0x400), certificate_response(8, &portion, 0), SpdmStatus::InvalidMsgField),
        // A known size that the lengths do not come to.
        (0x20, (0x10, 0x400), certificate_response(8, &portion, 0), SpdmStatus::InvalidMsgField),
        (0, (0, 0x400), other_version, SpdmStatus::InvalidMsgField),
        // Neither CERTIFICATE nor ERROR.
        (0, (0, 0x400), vec![0x10, 0x01, 0x00, 0x00], SpdmStatus::ErrorPeer),
        // An ERROR that is no deferral.
        (0, (0, 0x400), vec![0x10, 0x7F, 0x03, 0x00], SpdmStatus::ErrorPeer),
        // The response is for another slot.
        (0, (0, 0x400), certificate_response(9, &portion, 0), SpdmStatus::InvalidMsgField),
        // The response passes its checks: the slot is the fault.
        (0, (0, 0x400), certificate_response(8, &portion, 0), SpdmStatus::InvalidParameter),
    ];
    for (total_size, param, response, expected) in cases {
        let r = requester.handle_spdm_certificate_partial_response(
            None,
            8,
            total_size,
            param,
            &GET_FIRST,
            &response,
        );
        assert_eq!(r, Err(expected));
        assert_eq!(requester.common.runtime_info.message_b.as_ref().len(), 0);
        assert!(requester.common.peer_info.peer_cert_chain.iter().all(|c| c.is_none()));
    }
    // The same holds for every slot number that no device has.
    for slot in [8u8, 15, 0x80, 0xFF] {
        let r = requester.handle_spdm_certificate_partial_response(
            None,
            slot,
            0,
            (0, 0x400),
            &GET_FIRST,
            &certificate_response(slot, &portion, 0),
        );
        assert_eq!(r, Err(SpdmStatus::InvalidParameter));
        let r = requester.handle_spdm_certificate_partial_response(
            None,
            slot,
            0,
            (0, 2),
            &GET_FIRST,
            &certificate_response(slot, &portion, 0),
        );
        assert_eq!(r, Err(SpdmStatus::InvalidMsgField));
    }
}
