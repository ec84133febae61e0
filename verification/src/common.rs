//! The state of one connection, shared by the requester and the responder engine.

use vstd::prelude::*;
use crate::codec::{slice_range, Reader};
use crate::config::{
    MAX_SPDM_MESSAGE_BUFFER_SIZE, MAX_SPDM_SESSION_COUNT, MAX_SPDM_TRANSPORT_SIZE,
    SPDM_MAX_SLOT_NUMBER,
};
use crate::crypto::SpdmCryptoRegistry;
use crate::error::{SpdmResult, SpdmStatus};
use crate::message::measurement::SpdmMeasurementContentChanged;
use crate::protocol::{
    SpdmAeadAlgo, SpdmBaseAsymAlgo, SpdmBaseHashAlgo, SpdmCertChainData, SpdmDheAlgo,
    SpdmKeyScheduleAlgo, SpdmMeasurementHashAlgo, SpdmMeasurementSpecification,
    SpdmRequestCapabilityFlags, SpdmResponseCapabilityFlags, SpdmVersion,
};
use crate::session::{SpdmSession, SpdmSessionState, SpdmSessionTranscript};
use crate::transcript::ManagedBuffer;

verus! {

/// The byte channel to the peer. The embedder provides it.
pub trait SpdmDeviceIo {
    /// Send one framed message.
    fn send(&mut self, buffer: &[u8]) -> SpdmResult;

    /// Receive one framed message into `buffer` and say how long it is.
    fn receive(&mut self, buffer: &mut [u8]) -> SpdmResult<usize>;
}

/// The framing of a transport. The embedder provides it.
pub trait SpdmTransportEncap {
    /// Frame `spdm_buffer` into `transport_buffer`, marked as secured or not, and say
    /// how long the frame is.
    fn encap(
        &mut self,
        spdm_buffer: &[u8],
        transport_buffer: &mut [u8],
        secured_message: bool,
    ) -> SpdmResult<usize>;

    /// Take the message out of the frame `transport_buffer` into `spdm_buffer`, and say
    /// how long it is and whether the frame was marked as secured.
    fn decap(&mut self, transport_buffer: &[u8], spdm_buffer: &mut [u8]) -> SpdmResult<
        (usize, bool),
    >;

    /// Frame `spdm_buffer` as the payload of a secured message into `app_buffer`.
    fn encap_app(
        &mut self,
        spdm_buffer: &[u8],
        app_buffer: &mut [u8],
        is_app_message: bool,
    ) -> SpdmResult<usize>;

    /// Take the message out of the payload `app_buffer` of a secured message.
    fn decap_app(&mut self, app_buffer: &[u8], spdm_buffer: &mut [u8]) -> SpdmResult<
        (usize, bool),
    >;

    /// How many bytes of the sequence number a secured message carries.
    fn get_sequence_number_count(&mut self) -> u8;
}

/// What this side is able and willing to negotiate.
#[derive(Clone, Copy, Debug)]
pub struct SpdmConfigInfo {
    pub spdm_version: SpdmVersion,
    pub req_capabilities: SpdmRequestCapabilityFlags,
    pub rsp_capabilities: SpdmResponseCapabilityFlags,
    pub req_ct_exponent: u8,
    pub rsp_ct_exponent: u8,
    pub measurement_specification: SpdmMeasurementSpecification,
    pub measurement_hash_algo: SpdmMeasurementHashAlgo,
    pub base_hash_algo: SpdmBaseHashAlgo,
    pub base_asym_algo: SpdmBaseAsymAlgo,
    pub dhe_algo: SpdmDheAlgo,
    pub aead_algo: SpdmAeadAlgo,
    pub key_schedule_algo: SpdmKeyScheduleAlgo,
}

impl Default for SpdmConfigInfo {
    fn default() -> (r: Self) {
        SpdmConfigInfo {
            spdm_version: SpdmVersion::SpdmVersion10,
            req_capabilities: SpdmRequestCapabilityFlags { bits: 0 },
            rsp_capabilities: SpdmResponseCapabilityFlags { bits: 0 },
            req_ct_exponent: 0,
            rsp_ct_exponent: 0,
            measurement_specification: SpdmMeasurementSpecification::DMTF,
            measurement_hash_algo: SpdmMeasurementHashAlgo::RAW_BIT_STREAM,
            base_hash_algo: SpdmBaseHashAlgo::TPM_ALG_SHA_256,
            base_asym_algo: SpdmBaseAsymAlgo::TPM_ALG_ECDSA_ECC_NIST_P256,
            dhe_algo: SpdmDheAlgo::SECP_256_R1,
            aead_algo: SpdmAeadAlgo::AES_128_GCM,
            key_schedule_algo: SpdmKeyScheduleAlgo::SPDM_KEY_SCHEDULE,
        }
    }
}

/// What both sides have agreed on.
#[derive(Clone, Copy, Debug)]
pub struct SpdmNegotiateInfo {
    pub spdm_version_sel: SpdmVersion,
    pub req_capabilities_sel: SpdmRequestCapabilityFlags,
    pub rsp_capabilities_sel: SpdmResponseCapabilityFlags,
    pub req_ct_exponent_sel: u8,
    pub rsp_ct_exponent_sel: u8,
    pub measurement_specification_sel: SpdmMeasurementSpecification,
    pub measurement_hash_sel: SpdmMeasurementHashAlgo,
    pub base_hash_sel: SpdmBaseHashAlgo,
    pub base_asym_sel: SpdmBaseAsymAlgo,
    pub dhe_sel: SpdmDheAlgo,
    pub aead_sel: SpdmAeadAlgo,
    pub key_schedule_sel: SpdmKeyScheduleAlgo,
}

impl Default for SpdmNegotiateInfo {
    fn default() -> (r: Self)
        ensures
            r.spdm_version_sel == SpdmVersion::SpdmVersion10,
    {
        SpdmNegotiateInfo {
            spdm_version_sel: SpdmVersion::SpdmVersion10,
            req_capabilities_sel: SpdmRequestCapabilityFlags { bits: 0 },
            rsp_capabilities_sel: SpdmResponseCapabilityFlags { bits: 0 },
            req_ct_exponent_sel: 0,
            rsp_ct_exponent_sel: 0,
            measurement_specification_sel: SpdmMeasurementSpecification::DMTF,
            measurement_hash_sel: SpdmMeasurementHashAlgo::RAW_BIT_STREAM,
            base_hash_sel: SpdmBaseHashAlgo::TPM_ALG_SHA_256,
            base_asym_sel: SpdmBaseAsymAlgo::TPM_ALG_ECDSA_ECC_NIST_P256,
            dhe_sel: SpdmDheAlgo::SECP_256_R1,
            aead_sel: SpdmAeadAlgo::AES_128_GCM,
            key_schedule_sel: SpdmKeyScheduleAlgo::SPDM_KEY_SCHEDULE,
        }
    }
}

/// What the connection has recorded outside any session.
#[derive(Clone, Copy, Debug)]
pub struct SpdmRuntimeInfo {
    /// Whether the MEASUREMENTS response in flight ends with a signature.
    pub need_measurement_signature: bool,
    /// The slot whose chain signs what the peer sends.
    pub peer_used_cert_chain_slot_id: u8,
    /// The negotiation of version, capabilities and algorithms.
    pub message_a: ManagedBuffer,
    /// Digests and certificate.
    pub message_b: ManagedBuffer,
    /// Challenge and its answer.
    pub message_c: ManagedBuffer,
    /// Measurements.
    pub message_m: ManagedBuffer,
    /// What the last MEASUREMENTS response said of changes.
    pub content_changed: SpdmMeasurementContentChanged,
}

impl SpdmRuntimeInfo {
    pub fn new() -> (r: Self)
        ensures
            !r.need_measurement_signature,
            r.peer_used_cert_chain_slot_id == 0,
            r.message_a@ == Seq::<u8>::empty(),
            r.message_b@ == Seq::<u8>::empty(),
            r.message_c@ == Seq::<u8>::empty(),
            r.message_m@ == Seq::<u8>::empty(),
            r.content_changed == SpdmMeasurementContentChanged::NotSupported,
    {
        SpdmRuntimeInfo {
            need_measurement_signature: false,
            peer_used_cert_chain_slot_id: 0,
            message_a: ManagedBuffer::new(),
            message_b: ManagedBuffer::new(),
            message_c: ManagedBuffer::new(),
            message_m: ManagedBuffer::new(),
            content_changed: SpdmMeasurementContentChanged::NotSupported,
        }
    }
}

/// What was given to this side before the connection began. The engine only reads it.
#[derive(Clone, Copy, Debug)]
pub struct SpdmProvisionInfo {
    /// The certificates of this side, DER after DER.
    pub my_cert_chain_data: Option<SpdmCertChainData>,
    /// The chain of this side as it goes over the wire: length, root digest, certificates.
    pub my_cert_chain: Option<SpdmCertChainData>,
    /// The certificates that the peer must present, DER after DER, where it is pinned.
    pub peer_cert_chain_data: Option<SpdmCertChainData>,
}

impl Default for SpdmProvisionInfo {
    fn default() -> (r: Self)
        ensures
            r.my_cert_chain_data is None,
            r.my_cert_chain is None,
            r.peer_cert_chain_data is None,
    {
        SpdmProvisionInfo { my_cert_chain_data: None, my_cert_chain: None, peer_cert_chain_data: None }
    }
}

/// The chain of the peer in one slot, as it came over the wire.
#[derive(Clone, Copy, Debug)]
pub struct SpdmCertChain {
    pub cert_chain: SpdmCertChainData,
}

impl Default for SpdmCertChain {
    fn default() -> (r: Self)
        ensures
            r.cert_chain.data_size == 0,
            r.cert_chain.data@ == Seq::new(
                crate::config::MAX_SPDM_CERT_CHAIN_DATA_SIZE as nat,
                |i: int| 0u8,
            ),
    {
        SpdmCertChain { cert_chain: SpdmCertChainData::new() }
    }
}

/// What is known of the peer.
#[derive(Clone, Copy, Debug)]
pub struct SpdmPeerInfo {
    pub peer_cert_chain: [Option<SpdmCertChain>; SPDM_MAX_SLOT_NUMBER],
}

impl Default for SpdmPeerInfo {
    fn default() -> (r: Self)
        ensures
            forall|i: int| 0 <= i < SPDM_MAX_SLOT_NUMBER ==> r.peer_cert_chain@[i] is None,
    {
        SpdmPeerInfo { peer_cert_chain: [None; SPDM_MAX_SLOT_NUMBER] }
    }
}

/// The state of one connection together with the channel, the framing and the
/// primitives that it runs on.
pub struct SpdmContext<'a, D: SpdmDeviceIo, T: SpdmTransportEncap> {
    pub device_io: &'a mut D,
    pub transport_encap: &'a mut T,
    pub crypto: SpdmCryptoRegistry<'a>,
    pub config_info: SpdmConfigInfo,
    pub negotiate_info: SpdmNegotiateInfo,
    pub runtime_info: SpdmRuntimeInfo,
    pub provision_info: SpdmProvisionInfo,
    pub peer_info: SpdmPeerInfo,
    pub session: [SpdmSession; MAX_SPDM_SESSION_COUNT],
}

/// What a length that the transport or the device reports is taken for: itself where
/// the call succeeded and the length is no more than `limit`, the room that there was
/// for it; else the failure `failure`.
pub open spec fn spec_check_length(reported: SpdmResult<usize>, limit: usize, failure: SpdmStatus) -> SpdmResult<
    usize,
> {
    match reported {
        Ok(n) => if n <= limit {
            Ok(n)
        } else {
            Err(failure)
        },
        Err(_) => Err(failure),
    }
}

/// What a length that the transport or the device reports is taken for: see
/// `spec_check_length`.
pub fn check_length(reported: SpdmResult<usize>, limit: usize, failure: SpdmStatus) -> (r: SpdmResult<
    usize,
>)
    ensures
        r == spec_check_length(reported, limit, failure),
{
    match reported {
        Ok(n) => {
            if n <= limit {
                Ok(n)
            } else {
                Err(failure)
            }
        },
        Err(_) => Err(failure),
    }
}

/// The first entry of `table`, from the entry `from` on, that holds the session
/// `session_id`, if one does.
pub open spec fn spec_session_index_from(table: Seq<SpdmSession>, session_id: u32, from: int) -> Option<
    int,
>
    decreases table.len() - from,
{
    if from < 0 || from >= table.len() {
        None
    } else if table[from].spec_session_id() == session_id {
        Some(from)
    } else {
        spec_session_index_from(table, session_id, from + 1)
    }
}

/// Where in `table` the session `session_id` is. The id 0 marks the free entries and
/// names no session, and neither does the reserved id.
pub open spec fn spec_session_index(table: Seq<SpdmSession>, session_id: u32) -> Option<int> {
    if !crate::session::spec_session_id_valid(session_id) {
        None
    } else {
        spec_session_index_from(table, session_id, 0)
    }
}

/// An entry that is found lies in the table and holds the session.
pub proof fn lemma_session_index(table: Seq<SpdmSession>, session_id: u32, from: int)
    requires
        0 <= from,
    ensures
        spec_session_index_from(table, session_id, from) matches Some(i) ==> from <= i < table.len()
            && table[i].spec_session_id() == session_id,
    decreases table.len() - from,
{
    if from < table.len() && table[from].spec_session_id() != session_id {
        lemma_session_index(table, session_id, from + 1);
    }
}

/// Whether the table `now` is the table `before`, but that sessions may have carried
/// more messages: each entry is as it was, or differs from what it was in the sequence
/// numbers of its directions alone.
pub open spec fn spec_table_carried_on(now: Seq<SpdmSession>, before: Seq<SpdmSession>) -> bool {
    &&& now.len() == before.len()
    &&& forall|i: int| 0 <= i < now.len() ==> (#[trigger] now[i]).spec_carried_on(before[i])
}

/// A table has carried on from itself, and carrying on is transitive.
pub proof fn lemma_table_carried_on(
    now: Seq<SpdmSession>,
    middle: Seq<SpdmSession>,
    before: Seq<SpdmSession>,
)
    ensures
        spec_table_carried_on(now, now),
        spec_table_carried_on(now, middle) && spec_table_carried_on(middle, before)
            ==> spec_table_carried_on(now, before),
{
    assert forall|i: int| 0 <= i < now.len() implies (#[trigger] now[i]).spec_carried_on(now[i]) by {
        now[i].lemma_carried_on(now[i], now[i]);
    }
    if spec_table_carried_on(now, middle) && spec_table_carried_on(middle, before) {
        assert forall|i: int| 0 <= i < now.len() implies (#[trigger] now[i]).spec_carried_on(
            before[i],
        ) by {
            assert(middle[i].spec_carried_on(before[i]));
            now[i].lemma_carried_on(middle[i], before[i]);
        }
    }
}

/// Tables whose entries hold the same sessions find each session in the same place.
pub proof fn lemma_session_index_same_ids(
    table: Seq<SpdmSession>,
    other: Seq<SpdmSession>,
    session_id: u32,
    from: int,
)
    requires
        table.len() == other.len(),
        forall|i: int|
            0 <= i < table.len() ==> (#[trigger] table[i]).spec_session_id()
                == other[i].spec_session_id(),
    ensures
        spec_session_index_from(table, session_id, from) == spec_session_index_from(
            other,
            session_id,
            from,
        ),
    decreases table.len() - from,
{
    if 0 <= from < table.len() {
        assert(table[from].spec_session_id() == other[from].spec_session_id());
        if table[from].spec_session_id() != session_id {
            lemma_session_index_same_ids(table, other, session_id, from + 1);
        }
    }
}

impl<'a, D: SpdmDeviceIo, T: SpdmTransportEncap> SpdmContext<'a, D, T> {
    /// The place in the table of the session that an exchange within the session
    /// `session_id` records its measurements in; none outside any session, and none
    /// where the session is not in the table.
    pub open spec fn spec_measurement_session(self, session_id: Option<u32>) -> Option<int> {
        match session_id {
            None => None,
            Some(id) => spec_session_index(self.session@, id),
        }
    }

    /// The transcript of measurements that an exchange within the session `session_id`,
    /// or outside any session, records in; none where the session is not in the table.
    pub open spec fn spec_measurement_transcript(self, session_id: Option<u32>) -> Option<Seq<u8>> {
        match session_id {
            None => Some(self.runtime_info.message_m@),
            Some(id) => match spec_session_index(self.session@, id) {
                Some(i) => Some(self.session@[i].spec_message(SpdmSessionTranscript::MessageM)),
                None => None,
            },
        }
    }

    /// Whether the connection state is as in `before`, but for the session table.
    pub open spec fn spec_same_outside_sessions(self, before: Self) -> bool {
        &&& self.crypto == before.crypto
        &&& self.config_info == before.config_info
        &&& self.negotiate_info == before.negotiate_info
        &&& self.runtime_info == before.runtime_info
        &&& self.provision_info == before.provision_info
        &&& self.peer_info == before.peer_info
    }

    /// Whether the connection state is as in `before`.
    pub open spec fn spec_same_state(self, before: Self) -> bool {
        &&& self.spec_same_outside_sessions(before)
        &&& self.session == before.session
    }

    /// Whether the session table is as in `before`, but that sessions may have carried
    /// more messages: each entry is as it was, or differs from what it was in the
    /// sequence numbers of its directions alone.
    pub open spec fn spec_sessions_carried_on(self, before: Self) -> bool {
        spec_table_carried_on(self.session@, before.session@)
    }

    /// Whether `r` and the connection are what sending a message in the clear leaves:
    /// the state of the connection is as in `before`, and a failure is the transport's
    /// or the device's.
    pub open spec fn spec_sent_in_clear(self, before: Self, r: SpdmResult) -> bool {
        &&& self.spec_same_state(before)
        &&& r matches Err(e) ==> e.spec_send_failure()
    }

    /// Whether the session table is that of `before` after the session at `index` has
    /// protected one more message in its direction, and nothing else. The direction is
    /// that of requests where the requester sends; the keys are those of the
    /// established session where the session is established, else those of the
    /// handshake.
    pub open spec fn spec_protected_one(self, before: Self, index: int, is_requester: bool) -> bool {
        &&& forall|j: int|
            0 <= j < MAX_SPDM_SESSION_COUNT && j != index ==> (#[trigger] self.session@[j])
                == before.session@[j]
        &&& self.session@[index].spec_advanced_from(
            before.session@[index],
            before.session@[index].spec_session_state() == SpdmSessionState::SpdmSessionEstablished,
            is_requester,
        )
    }

    /// Whether the session at `index` can protect a message in its direction as far as
    /// the state of the connection tells: it has started, the direction has keys that
    /// fit the cipher of the session and has not carried all the messages it can, and
    /// a cipher is registered.
    pub open spec fn spec_can_protect(self, index: int, is_requester: bool) -> bool {
        let session = self.session@[index];
        let direction = session.spec_phase_secret(
            session.spec_session_state() == SpdmSessionState::SpdmSessionEstablished,
        ).spec_direction(is_requester);
        &&& session.spec_session_state() != SpdmSessionState::SpdmSessionNotStarted
        &&& direction.spec_fits(session.spec_crypto_param().aead_algo)
        &&& direction.sequence_number < u64::MAX
        &&& self.crypto.aead is Some
    }

    /// Whether `r` and the connection are what sending a message within the session
    /// `session_id` leaves.
    ///
    /// Outside the session table nothing changes. A session that is not in the table
    /// is a fault of the caller, and nothing changes. Else the message goes out only
    /// where the session can protect it, and then the session has protected one more
    /// message; where the session refuses or fails to protect it, the table is as it
    /// was. A message that was protected and then could not be framed or sent has been
    /// counted all the same. A failure is one of protecting or one of sending.
    pub open spec fn spec_sent_secured(
        self,
        before: Self,
        session_id: u32,
        is_requester: bool,
        r: SpdmResult,
    ) -> bool {
        &&& self.spec_same_outside_sessions(before)
        &&& r matches Err(e) ==> e.spec_send_failure() || e.spec_protect_failure()
        &&& match spec_session_index(before.session@, session_id) {
            None => r == Err::<(), SpdmStatus>(SpdmStatus::InvalidParameter) && self.session
                == before.session,
            Some(index) => {
                &&& self.session == before.session || self.spec_protected_one(
                    before,
                    index,
                    is_requester,
                )
                &&& r is Ok ==> before.spec_can_protect(index, is_requester)
                    && self.spec_protected_one(before, index, is_requester)
                &&& !before.spec_can_protect(index, is_requester) ==> r is Err && self.session
                    == before.session
                &&& r matches Err(e) ==> (e.spec_protect_failure() ==> self.session
                    == before.session)
            },
        }
    }

    /// A connection that has sent within a session has let its sessions carry on.
    pub proof fn lemma_sent_secured(
        self,
        before: Self,
        session_id: u32,
        is_requester: bool,
        r: SpdmResult,
    )
        requires
            self.spec_sent_secured(before, session_id, is_requester, r),
        ensures
            self.spec_sessions_carried_on(before),
    {
        lemma_table_carried_on(before.session@, before.session@, before.session@);
        match spec_session_index(before.session@, session_id) {
            None => {},
            Some(index) => {
                lemma_session_index(before.session@, session_id, 0);
                if self.session != before.session {
                    assert forall|i: int| 0 <= i < self.session@.len() implies (
                    #[trigger] self.session@[i]).spec_carried_on(before.session@[i]) by {
                        if i == index {
                            self.session@[i].lemma_carried_on(
                                before.session@[i],
                                before.session@[i],
                            );
                        } else {
                            assert(self.session@[i] == before.session@[i]);
                        }
                    }
                }
            },
        }
    }

    /// The state of a connection on which nothing has happened yet.
    pub fn new(
        device_io: &'a mut D,
        transport_encap: &'a mut T,
        crypto: SpdmCryptoRegistry<'a>,
        config_info: SpdmConfigInfo,
        provision_info: SpdmProvisionInfo,
    ) -> (r: Self)
        ensures
            r.config_info == config_info,
            r.provision_info == provision_info,
            r.crypto == crypto,
            r.negotiate_info.spdm_version_sel == SpdmVersion::SpdmVersion10,
            r.runtime_info.message_a@ == Seq::<u8>::empty(),
            r.runtime_info.message_b@ == Seq::<u8>::empty(),
            r.runtime_info.message_c@ == Seq::<u8>::empty(),
            r.runtime_info.message_m@ == Seq::<u8>::empty(),
            forall|i: int| 0 <= i < SPDM_MAX_SLOT_NUMBER ==> r.peer_info.peer_cert_chain@[i] is None,
            forall|i: int| 0 <= i < MAX_SPDM_SESSION_COUNT ==> (#[trigger] r.session@[i]).spec_is_blank(),
    {
        SpdmContext {
            device_io,
            transport_encap,
            crypto,
            config_info,
            negotiate_info: SpdmNegotiateInfo::default(),
            runtime_info: SpdmRuntimeInfo::new(),
            provision_info,
            peer_info: SpdmPeerInfo::default(),
            session: [SpdmSession::new(); MAX_SPDM_SESSION_COUNT],
        }
    }

    /// Forget every transcript of the connection.
    pub fn reset_runtime_info(&mut self)
        ensures
            final(self).runtime_info.message_a@ == Seq::<u8>::empty(),
            final(self).runtime_info.message_b@ == Seq::<u8>::empty(),
            final(self).runtime_info.message_c@ == Seq::<u8>::empty(),
            final(self).runtime_info.message_m@ == Seq::<u8>::empty(),
            final(self).negotiate_info == old(self).negotiate_info,
            final(self).peer_info == old(self).peer_info,
            final(self).provision_info == old(self).provision_info,
            final(self).session == old(self).session,
    {
        self.runtime_info = SpdmRuntimeInfo::new();
    }

    /// Where in the table the session `session_id` is, if it is there. The id 0 marks the
    /// free entries and names no session, and neither does the reserved id.
    pub fn get_session_index(&self, session_id: u32) -> (r: Option<usize>)
        ensures
            r is Some <==> spec_session_index(self.session@, session_id) is Some,
            r matches Some(i) ==> spec_session_index(self.session@, session_id) == Some(i as int),
            r matches Some(i) ==> i < MAX_SPDM_SESSION_COUNT && crate::session::spec_session_id_valid(
                session_id,
            ) && self.session@[i as int].spec_session_id() == session_id
                && forall|j: int| 0 <= j < i ==> (#[trigger] self.session@[j]).spec_session_id() != session_id,
            r is None ==> !crate::session::spec_session_id_valid(session_id) || forall|j: int|
                0 <= j < MAX_SPDM_SESSION_COUNT ==> (#[trigger] self.session@[j]).spec_session_id()
                    != session_id,
    {
        if session_id == crate::session::INVALID_SESSION_ID || session_id
            == crate::session::RESERVED_SESSION_ID {
            return None;
        }
        let mut i: usize = 0;
        while i < MAX_SPDM_SESSION_COUNT
            invariant
                i <= MAX_SPDM_SESSION_COUNT,
                crate::session::spec_session_id_valid(session_id),
                spec_session_index_from(self.session@, session_id, i as int) == spec_session_index(
                    self.session@,
                    session_id,
                ),
                forall|j: int| 0 <= j < i ==> (#[trigger] self.session@[j]).spec_session_id() != session_id,
            decreases MAX_SPDM_SESSION_COUNT - i,
        {
            if self.session[i].get_session_id() == session_id {
                return Some(i);
            }
            i = i + 1;
        }
        None
    }

    /// The session `session_id`, if it is in the table.
    pub fn get_immutable_session_via_id(&self, session_id: u32) -> (r: Option<&SpdmSession>)
        ensures
            r matches Some(s) ==> s.spec_session_id() == session_id && session_id != 0 && exists|
                i: int,
            |
                0 <= i < MAX_SPDM_SESSION_COUNT && self.session@[i] == *s,
            r is None ==> !crate::session::spec_session_id_valid(session_id) || forall|j: int|
                0 <= j < MAX_SPDM_SESSION_COUNT ==> (#[trigger] self.session@[j]).spec_session_id()
                    != session_id,
    {
        match self.get_session_index(session_id) {
            Some(i) => Some(&self.session[i]),
            None => None,
        }
    }

    /// Where in the table a free entry is, if there is one.
    pub fn get_next_avaiable_session_index(&self) -> (r: Option<usize>)
        ensures
            r matches Some(i) ==> i < MAX_SPDM_SESSION_COUNT && self.session@[i as int].spec_session_id()
                == 0,
            r is None ==> forall|j: int|
                0 <= j < MAX_SPDM_SESSION_COUNT ==> (#[trigger] self.session@[j]).spec_session_id()
                    != 0,
    {
        let mut i: usize = 0;
        while i < MAX_SPDM_SESSION_COUNT
            invariant
                i <= MAX_SPDM_SESSION_COUNT,
                forall|j: int| 0 <= j < i ==> (#[trigger] self.session@[j]).spec_session_id() != 0,
            decreases MAX_SPDM_SESSION_COUNT - i,
        {
            if self.session[i].get_session_id() == 0 {
                return Some(i);
            }
            i = i + 1;
        }
        None
    }

    /// Frame `spdm_buffer` and send it. The transport and the device decide whether it
    /// goes out; where the transport cannot frame it, or makes a frame that is longer
    /// than a frame may be, nothing is sent.
    pub fn send_framed(&mut self, spdm_buffer: &[u8], secured_message: bool) -> (r: SpdmResult)
        ensures
            final(self).spec_same_state(*old(self)),
            final(self).spec_sent_in_clear(*old(self), r),
    {
        let mut transport_buffer = [0u8; MAX_SPDM_TRANSPORT_SIZE];
        let used = check_length(
            self.transport_encap.encap(spdm_buffer, &mut transport_buffer, secured_message),
            MAX_SPDM_TRANSPORT_SIZE,
            SpdmStatus::EncapFail,
        )?;
        match self.device_io.send(slice_range(&transport_buffer, 0, used)) {
            Ok(()) => Ok(()),
            Err(_) => Err(SpdmStatus::SendFail),
        }
    }

    /// Receive one frame and take the message out of it: the message, and whether the
    /// frame was marked as secured.
    pub fn receive_framed(&mut self) -> (r: SpdmResult<(Vec<u8>, bool)>)
        ensures
            r matches Ok(p) ==> p.0@.len() <= MAX_SPDM_MESSAGE_BUFFER_SIZE,
            r matches Err(e) ==> e.spec_receive_failure(),
            final(self).spec_same_state(*old(self)),
    {
        let mut transport_buffer = [0u8; MAX_SPDM_TRANSPORT_SIZE];
        let received = check_length(
            self.device_io.receive(&mut transport_buffer),
            MAX_SPDM_TRANSPORT_SIZE,
            SpdmStatus::ReceiveFail,
        )?;
        let mut spdm_buffer = [0u8; MAX_SPDM_MESSAGE_BUFFER_SIZE];
        let (used, secured) = match self.transport_encap.decap(
            slice_range(&transport_buffer, 0, received),
            &mut spdm_buffer,
        ) {
            Ok(p) => p,
            Err(_) => {
                return Err(SpdmStatus::DecapFail);
            },
        };
        let used = check_length(Ok(used), MAX_SPDM_MESSAGE_BUFFER_SIZE, SpdmStatus::DecapFail)?;
        let mut message: Vec<u8> = Vec::new();
        message.extend_from_slice(slice_range(&spdm_buffer, 0, used));
        Ok((message, secured))
    }

    /// Send the message `spdm_buffer` in the clear: framed as a message that is not
    /// secured.
    pub fn send_message(&mut self, spdm_buffer: &[u8]) -> (r: SpdmResult)
        ensures
            final(self).spec_same_state(*old(self)),
            final(self).spec_sent_in_clear(*old(self), r),
    {
        self.send_framed(spdm_buffer, false)
    }

    /// Receive one message that came in the clear.
    pub fn receive_message(&mut self) -> (r: SpdmResult<Vec<u8>>)
        ensures
            r matches Ok(m) ==> m@.len() <= MAX_SPDM_MESSAGE_BUFFER_SIZE,
            r matches Err(e) ==> e.spec_receive_failure(),
            final(self).spec_same_state(*old(self)),
    {
        let (message, secured) = self.receive_framed()?;
        if secured {
            return Err(SpdmStatus::DecapFail);
        }
        Ok(message)
    }

    /// Send the message `spdm_buffer` within the session `session_id`: what comes of it
    /// is what `spec_sent_secured` says.
    pub fn send_secured_message(
        &mut self,
        session_id: u32,
        spdm_buffer: &[u8],
        is_requester: bool,
        is_app_message: bool,
    ) -> (r: SpdmResult)
        ensures
            final(self).spec_same_outside_sessions(*old(self)),
            final(self).spec_sessions_carried_on(*old(self)),
            final(self).spec_sent_secured(*old(self), session_id, is_requester, r),
    {
        proof {
            lemma_table_carried_on(self.session@, self.session@, self.session@);
            lemma_session_index(self.session@, session_id, 0);
        }
        let index = match self.get_session_index(session_id) {
            Some(i) => i,
            None => {
                return Err(SpdmStatus::InvalidParameter);
            },
        };
        let mut app_buffer = [0u8; MAX_SPDM_MESSAGE_BUFFER_SIZE];
        let used = check_length(
            self.transport_encap.encap_app(spdm_buffer, &mut app_buffer, is_app_message),
            MAX_SPDM_MESSAGE_BUFFER_SIZE,
            SpdmStatus::EncapFail,
        )?;
        let sequence_number_count: u8 = self.transport_encap.get_sequence_number_count();
        let crypto = self.crypto;
        let mut session = self.session[index];
        let frame = session.encode_spdm_secured_message(
            &crypto,
            slice_range(&app_buffer, 0, used),
            is_requester,
            sequence_number_count,
        )?;
        self.session[index] = session;
        let r = self.send_framed(frame.as_slice(), true);
        proof {
            assert(self.spec_protected_one(*old(self), index as int, is_requester));
            self.lemma_sent_secured(*old(self), session_id, is_requester, r);
        }
        r
    }

    /// Open the secured frame `frame`: the session that it names, and the message in it.
    pub fn open_secured_frame(&mut self, frame: &[u8], is_requester: bool) -> (r: SpdmResult<
        (u32, Vec<u8>),
    >)
        ensures
            r matches Ok(p) ==> p.1@.len() <= MAX_SPDM_MESSAGE_BUFFER_SIZE && spec_session_index(
                old(self).session@,
                p.0,
            ) is Some,
            r matches Err(e) ==> e.spec_open_failure() || e == SpdmStatus::DecapFail,
            r matches Err(e) ==> (e != SpdmStatus::DecapFail ==> final(self).session
                == old(self).session),
            frame@.len() < 4 ==> r == Err::<(u32, Vec<u8>), SpdmStatus>(SpdmStatus::InvalidMsgField),
            final(self).spec_same_outside_sessions(*old(self)),
            final(self).spec_sessions_carried_on(*old(self)),
    {
        let mut reader = Reader::init(frame);
        assert(reader.remaining() =~= frame@);
        let session_id = match reader.read_u32() {
            Some(id) => id,
            None => {
                return Err(SpdmStatus::InvalidMsgField);
            },
        };
        let index = match self.get_session_index(session_id) {
            Some(i) => i,
            None => {
                return Err(SpdmStatus::InvalidParameter);
            },
        };
        let sequence_number_count: u8 = self.transport_encap.get_sequence_number_count();
        let crypto = self.crypto;
        let mut session = self.session[index];
        let app = session.decode_spdm_secured_message(
            &crypto,
            frame,
            is_requester,
            sequence_number_count,
        )?;
        self.session[index] = session;
        let mut spdm_buffer = [0u8; MAX_SPDM_MESSAGE_BUFFER_SIZE];
        let (used, _) = match self.transport_encap.decap_app(app.as_slice(), &mut spdm_buffer) {
            Ok(p) => p,
            Err(_) => {
                return Err(SpdmStatus::DecapFail);
            },
        };
        let used = check_length(Ok(used), MAX_SPDM_MESSAGE_BUFFER_SIZE, SpdmStatus::DecapFail)?;
        let mut message: Vec<u8> = Vec::new();
        message.extend_from_slice(slice_range(&spdm_buffer, 0, used));
        Ok((session_id, message))
    }

    /// Receive one message that came within the session `session_id`.
    pub fn receive_secured_message(&mut self, session_id: u32, is_requester: bool) -> (r: SpdmResult<
        Vec<u8>,
    >)
        ensures
            r matches Ok(m) ==> m@.len() <= MAX_SPDM_MESSAGE_BUFFER_SIZE,
            r matches Err(e) ==> e.spec_open_failure() || e.spec_receive_failure(),
            r == Err::<Vec<u8>, SpdmStatus>(SpdmStatus::ReceiveFail) ==> final(self).session
                == old(self).session,
            final(self).spec_same_outside_sessions(*old(self)),
            final(self).spec_sessions_carried_on(*old(self)),
    {
        proof {
            lemma_table_carried_on(self.session@, self.session@, self.session@);
        }
        let (frame, secured) = self.receive_framed()?;
        if !secured {
            return Err(SpdmStatus::DecapFail);
        }
        let (id, message) = self.open_secured_frame(frame.as_slice(), is_requester)?;
        if id != session_id {
            return Err(SpdmStatus::InvalidMsgField);
        }
        Ok(message)
    }

    /// Receive one message, in the clear or within a session: the session that it
    /// came in, if any, and the message.
    pub fn receive_any_message(&mut self, is_requester: bool) -> (r: SpdmResult<
        (Option<u32>, Vec<u8>),
    >)
        ensures
            r matches Ok(p) ==> p.1@.len() <= MAX_SPDM_MESSAGE_BUFFER_SIZE,
            r matches Ok(p) ==> (p.0 matches Some(id) ==> spec_session_index(old(self).session@, id) is Some),
            r matches Ok(p) ==> (p.0 is None ==> final(self).session == old(self).session),
            r matches Err(e) ==> e.spec_open_failure() || e.spec_receive_failure(),
            r == Err::<(Option<u32>, Vec<u8>), SpdmStatus>(SpdmStatus::ReceiveFail) ==> final(self).session == old(self).session,
            final(self).spec_same_outside_sessions(*old(self)),
            final(self).spec_sessions_carried_on(*old(self)),
    {
        proof {
            lemma_table_carried_on(self.session@, self.session@, self.session@);
        }
        let (frame, secured) = self.receive_framed()?;
        if secured {
            let (id, message) = self.open_secured_frame(frame.as_slice(), is_requester)?;
            Ok((Some(id), message))
        } else {
            proof {
                lemma_table_carried_on(self.session@, self.session@, self.session@);
            }
            Ok((None, frame))
        }
    }
}

} // verus!
