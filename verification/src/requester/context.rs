//! The requester and how it talks to the responder.

use vstd::prelude::*;
use crate::codec::Reader;
use crate::common::{SpdmConfigInfo, SpdmContext, SpdmDeviceIo, SpdmProvisionInfo, SpdmTransportEncap};
use crate::config::{MAX_SPDM_MESSAGE_BUFFER_SIZE, MAX_SPDM_SESSION_COUNT, SPDM_MAX_SLOT_NUMBER};
use crate::crypto::SpdmCryptoRegistry;
use crate::error::{SpdmResult, SpdmStatus};
use crate::message::header::{SpdmMessageHeader, SpdmRequestResponseCode};
use crate::protocol::SpdmVersion;

verus! {

/// The requester side of one connection.
pub struct RequesterContext<'a, D: SpdmDeviceIo, T: SpdmTransportEncap> {
    pub common: SpdmContext<'a, D, T>,
}

/// What a received message is to the exchange that waits for it.
#[derive(Clone, Copy, Debug, PartialEq, Eq, Structural)]
pub enum SpdmResponseClass {
    /// The response that the exchange waits for.
    Expected,
    /// An ERROR response.
    PeerError,
    /// Neither: the exchange ends with this error.
    Rejected(SpdmStatus),
}

impl SpdmResponseClass {
    /// What the message `bytes` is to an exchange that waits for `expected` and goes by
    /// the code of the response alone, whatever version its header names. A message
    /// without a header has a bad field; a message that is neither what is waited for
    /// nor an ERROR is a fault of the peer.
    pub open spec fn spec_of_code(
        expected: SpdmRequestResponseCode,
        bytes: Seq<u8>,
    ) -> SpdmResponseClass {
        match SpdmMessageHeader::spec_read(bytes) {
            None => SpdmResponseClass::Rejected(SpdmStatus::InvalidMsgField),
            Some(header) => if header.request_response_code == expected {
                SpdmResponseClass::Expected
            } else if header.request_response_code == SpdmRequestResponseCode::SpdmResponseError {
                SpdmResponseClass::PeerError
            } else {
                SpdmResponseClass::Rejected(SpdmStatus::ErrorPeer)
            },
        }
    }

    /// What the message `bytes` is to an exchange in `version` that waits for `expected`.
    /// A message without a header, or in another version, has a bad field; a message
    /// that is neither what is waited for nor an ERROR is a fault of the peer.
    pub open spec fn spec_of(
        version: SpdmVersion,
        expected: SpdmRequestResponseCode,
        bytes: Seq<u8>,
    ) -> SpdmResponseClass {
        match SpdmMessageHeader::spec_read(bytes) {
            None => SpdmResponseClass::Rejected(SpdmStatus::InvalidMsgField),
            Some(header) => if header.version != version {
                SpdmResponseClass::Rejected(SpdmStatus::InvalidMsgField)
            } else if header.request_response_code == expected {
                SpdmResponseClass::Expected
            } else if header.request_response_code == SpdmRequestResponseCode::SpdmResponseError {
                SpdmResponseClass::PeerError
            } else {
                SpdmResponseClass::Rejected(SpdmStatus::ErrorPeer)
            },
        }
    }
}

/// What the message `bytes` is to an exchange in `version` that waits for `expected`.
pub fn classify_response(
    version: SpdmVersion,
    expected: SpdmRequestResponseCode,
    bytes: &[u8],
) -> (r: SpdmResponseClass)
    ensures
        r == SpdmResponseClass::spec_of(version, expected, bytes@),
{
    let mut reader = Reader::init(bytes);
    assert(reader.remaining() =~= bytes@);
    match SpdmMessageHeader::read(&mut reader) {
        None => SpdmResponseClass::Rejected(SpdmStatus::InvalidMsgField),
        Some(header) => {
            if header.version != version {
                SpdmResponseClass::Rejected(SpdmStatus::InvalidMsgField)
            } else if header.request_response_code == expected {
                SpdmResponseClass::Expected
            } else if header.request_response_code == SpdmRequestResponseCode::SpdmResponseError {
                SpdmResponseClass::PeerError
            } else {
                SpdmResponseClass::Rejected(SpdmStatus::ErrorPeer)
            }
        },
    }
}

/// What the message `bytes` is to an exchange that waits for `expected` and goes by the
/// code of the response alone.
pub fn classify_response_code(expected: SpdmRequestResponseCode, bytes: &[u8]) -> (r:
    SpdmResponseClass)
    ensures
        r == SpdmResponseClass::spec_of_code(expected, bytes@),
{
    let mut reader = Reader::init(bytes);
    assert(reader.remaining() =~= bytes@);
    match SpdmMessageHeader::read(&mut reader) {
        None => SpdmResponseClass::Rejected(SpdmStatus::InvalidMsgField),
        Some(header) => {
            if header.request_response_code == expected {
                SpdmResponseClass::Expected
            } else if header.request_response_code == SpdmRequestResponseCode::SpdmResponseError {
                SpdmResponseClass::PeerError
            } else {
                SpdmResponseClass::Rejected(SpdmStatus::ErrorPeer)
            }
        },
    }
}

impl<'a, D: SpdmDeviceIo, T: SpdmTransportEncap> RequesterContext<'a, D, T> {
    /// A requester on which nothing has happened yet. No primitive is registered.
    pub fn new(
        device_io: &'a mut D,
        transport_encap: &'a mut T,
        config_info: SpdmConfigInfo,
        provision_info: SpdmProvisionInfo,
    ) -> (r: Self)
        ensures
            r.common.config_info == config_info,
            r.common.provision_info == provision_info,
            r.common.crypto.hash is None,
            r.common.crypto.cert_operation is None,
            r.common.crypto.asym_verify is None,
            r.common.crypto.rand is None,
            r.common.negotiate_info.spdm_version_sel == SpdmVersion::SpdmVersion10,
            r.common.runtime_info.message_a@ == Seq::<u8>::empty(),
            r.common.runtime_info.message_b@ == Seq::<u8>::empty(),
            r.common.runtime_info.message_c@ == Seq::<u8>::empty(),
            r.common.runtime_info.message_m@ == Seq::<u8>::empty(),
            forall|i: int|
                0 <= i < SPDM_MAX_SLOT_NUMBER ==> r.common.peer_info.peer_cert_chain@[i] is None,
            forall|i: int|
                0 <= i < MAX_SPDM_SESSION_COUNT ==> (#[trigger] r.common.session@[i]).spec_is_blank(),
    {
        RequesterContext {
            common: SpdmContext::new(
                device_io,
                transport_encap,
                SpdmCryptoRegistry::new(),
                config_info,
                provision_info,
            ),
        }
    }

    /// Send a request in the clear. The state of the connection stays as it is; a
    /// failure is the transport's or the device's.
    pub fn send_message(&mut self, send_buffer: &[u8]) -> (r: SpdmResult)
        ensures
            final(self).common.spec_same_state(old(self).common),
            final(self).common.spec_sent_in_clear(old(self).common, r),
    {
        self.common.send_message(send_buffer)
    }

    /// Send a request within the session `session_id`, in the direction of requests:
    /// what comes of it is what `SpdmContext::spec_sent_secured` says.
    pub fn send_secured_message(
        &mut self,
        session_id: u32,
        send_buffer: &[u8],
        is_app_message: bool,
    ) -> (r: SpdmResult)
        ensures
            final(self).common.spec_same_outside_sessions(old(self).common),
            final(self).common.spec_sessions_carried_on(old(self).common),
            final(self).common.spec_sent_secured(old(self).common, session_id, true, r),
    {
        self.common.send_secured_message(session_id, send_buffer, true, is_app_message)
    }

    /// Receive a response that comes in the clear.
    pub fn receive_message(&mut self) -> (r: SpdmResult<Vec<u8>>)
        ensures
            r matches Ok(m) ==> m@.len() <= MAX_SPDM_MESSAGE_BUFFER_SIZE,
            final(self).common.spec_same_state(old(self).common),
    {
        self.common.receive_message()
    }

    /// Receive a response that comes within the session `session_id`.
    pub fn receive_secured_message(&mut self, session_id: u32) -> (r: SpdmResult<Vec<u8>>)
        ensures
            r matches Ok(m) ==> m@.len() <= MAX_SPDM_MESSAGE_BUFFER_SIZE,
            final(self).common.spec_same_outside_sessions(old(self).common),
            final(self).common.spec_sessions_carried_on(old(self).common),
    {
        self.common.receive_secured_message(session_id, true)
    }

    /// Send a request, within the session where one is given, and receive what comes
    /// back. Outside a session the state of the connection stays as it is; within one,
    /// the session carries on.
    pub fn send_receive(&mut self, session_id: Option<u32>, send_buffer: &[u8]) -> (r: SpdmResult<
        Vec<u8>,
    >)
        ensures
            r matches Ok(m) ==> m@.len() <= MAX_SPDM_MESSAGE_BUFFER_SIZE,
            final(self).common.spec_same_outside_sessions(old(self).common),
            final(self).common.spec_sessions_carried_on(old(self).common),
            session_id is None ==> final(self).common.spec_same_state(old(self).common),
    {
        proof {
            crate::common::lemma_table_carried_on(
                self.common.session@,
                self.common.session@,
                self.common.session@,
            );
        }
        match session_id {
            Some(session_id) => {
                self.send_secured_message(session_id, send_buffer, false)?;
                let ghost middle = self.common.session@;
                let r = self.receive_secured_message(session_id);
                proof {
                    crate::common::lemma_table_carried_on(
                        self.common.session@,
                        middle,
                        old(self).common.session@,
                    );
                }
                r
            },
            None => {
                self.send_message(send_buffer)?;
                self.receive_message()
            },
        }
    }
}

} // verus!
