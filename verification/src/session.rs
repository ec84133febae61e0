//! One secure session: its identity, its state, and what it has recorded.

use vstd::prelude::*;
use crate::codec::{bytes_equal, slice_range, u64_to_le, Reader, Writer};
use crate::config::{
    MAX_SPDM_MESSAGE_BUFFER_SIZE, SPDM_MAX_AEAD_IV_SIZE, SPDM_MAX_AEAD_KEY_SIZE,
    SPDM_MAX_AEAD_TAG_SIZE, SPDM_MAX_HASH_SIZE,
};
use crate::key_schedule::SpdmKeyLabel;
use crate::crypto::SpdmCryptoRegistry;
use crate::error::{SpdmResult, SpdmStatus};
use crate::protocol::{
    SpdmAeadAlgo, SpdmBaseHashAlgo, SpdmDheAlgo, SpdmDigestStruct, SpdmKeyScheduleAlgo,
    SpdmVersion,
};
use crate::transcript::ManagedBuffer;

verus! {

/// The session id that marks a free entry of the session table.
pub const INVALID_SESSION_ID: u32 = 0;

/// The session id that the protocol reserves.
pub const RESERVED_SESSION_ID: u32 = 0xFFFF_FFFF;

/// How far a session has come.
#[derive(Clone, Copy, Debug, PartialEq, Eq, Structural)]
pub enum SpdmSessionState {
    /// No session: the entry is free, or was set up and has not yet exchanged keys.
    SpdmSessionNotStarted,
    /// Keys are exchanged; the handshake is protected by the handshake secret.
    SpdmSessionHandshaking,
    /// The handshake is finished; messages are protected by the data secret.
    SpdmSessionEstablished,
}

/// Whether a session may pass from `from` to `to`. A session moves one step forward at
/// a time, may stay where it is, and may be torn down from anywhere.
pub open spec fn spec_transition_allowed(from: SpdmSessionState, to: SpdmSessionState) -> bool {
    ||| to == SpdmSessionState::SpdmSessionNotStarted
    ||| from == to
    ||| (from == SpdmSessionState::SpdmSessionNotStarted && to
        == SpdmSessionState::SpdmSessionHandshaking)
    ||| (from == SpdmSessionState::SpdmSessionHandshaking && to
        == SpdmSessionState::SpdmSessionEstablished)
}

/// Whether `session_id` can name a session.
pub open spec fn spec_session_id_valid(session_id: u32) -> bool {
    session_id != INVALID_SESSION_ID && session_id != RESERVED_SESSION_ID
}

/// The states of a session that runs its whole course, in order.
pub open spec fn spec_session_lifetime() -> Seq<SpdmSessionState> {
    seq![
        SpdmSessionState::SpdmSessionNotStarted,
        SpdmSessionState::SpdmSessionHandshaking,
        SpdmSessionState::SpdmSessionEstablished,
        SpdmSessionState::SpdmSessionNotStarted,
    ]
}

/// Whether `trace` can be what an observer sees of one session from its creation on:
/// it starts where a session starts, each value follows the one before it by an allowed
/// change, it ends with the first return to the start, and the session is torn down
/// only when it is established.
pub open spec fn spec_observed_lifetime(trace: Seq<SpdmSessionState>) -> bool {
    &&& trace.len() > 0
    &&& trace[0] == SpdmSessionState::SpdmSessionNotStarted
    &&& forall|i: int|
        0 <= i < trace.len() - 1 ==> #[trigger] trace[i] != trace[i + 1]
            && spec_transition_allowed(trace[i], trace[i + 1])
    &&& forall|i: int|
        0 < i < trace.len() - 1 ==> #[trigger] trace[i] != SpdmSessionState::SpdmSessionNotStarted
    &&& forall|i: int|
        0 <= i < trace.len() - 1 && trace[i + 1] == SpdmSessionState::SpdmSessionNotStarted
            ==> #[trigger] trace[i] == SpdmSessionState::SpdmSessionEstablished
}

/// What is observed of a session is the beginning of the one course that a session can
/// run: not started, handshaking, established, not started.
pub proof fn lemma_session_lifetime_is_prefix(trace: Seq<SpdmSessionState>)
    requires
        spec_observed_lifetime(trace),
    ensures
        trace.len() <= 4,
        trace == spec_session_lifetime().subrange(0, trace.len() as int),
{
    let life = spec_session_lifetime();
    if trace.len() >= 2 {
        assert(trace[0] != trace[1] && spec_transition_allowed(trace[0], trace[1]));
        assert(trace[1] == SpdmSessionState::SpdmSessionHandshaking);
    }
    if trace.len() >= 3 {
        assert(trace[1] != trace[2] && spec_transition_allowed(trace[1], trace[2]));
        assert(trace[1] == SpdmSessionState::SpdmSessionEstablished || trace[2]
            != SpdmSessionState::SpdmSessionNotStarted);
        assert(trace[2] == SpdmSessionState::SpdmSessionEstablished);
    }
    if trace.len() >= 4 {
        assert(trace[2] != trace[3] && spec_transition_allowed(trace[2], trace[3]));
        assert(trace[3] == SpdmSessionState::SpdmSessionNotStarted);
    }
    if trace.len() >= 5 {
        assert(trace[3] != SpdmSessionState::SpdmSessionNotStarted);
    }
    assert(trace =~= life.subrange(0, trace.len() as int));
}

/// The algorithms that a session runs with.
#[derive(Clone, Copy, Debug, PartialEq, Eq, Structural)]
pub struct SpdmSessionCryptoParam {
    pub base_hash_algo: SpdmBaseHashAlgo,
    pub dhe_algo: SpdmDheAlgo,
    pub aead_algo: SpdmAeadAlgo,
    pub key_schedule_algo: SpdmKeyScheduleAlgo,
}

/// The transcripts that belong to one session.
#[derive(Clone, Copy, Debug)]
pub struct SpdmSessionRuntimeInfo {
    /// The key-exchange handshake.
    pub message_k: ManagedBuffer,
    /// The finish handshake.
    pub message_f: ManagedBuffer,
    /// Measurements taken within the session.
    pub message_m: ManagedBuffer,
}

/// One of the transcripts of a session.
#[derive(Clone, Copy, Debug, PartialEq, Eq, Structural)]
pub enum SpdmSessionTranscript {
    MessageK,
    MessageF,
    MessageM,
}

/// An AEAD key: the first `data_size` bytes of `data`.
#[derive(Clone, Copy, Debug)]
pub struct SpdmAeadKeyStruct {
    pub data_size: u16,
    pub data: [u8; SPDM_MAX_AEAD_KEY_SIZE],
}

/// An AEAD nonce base: the first `data_size` bytes of `data`.
#[derive(Clone, Copy, Debug)]
pub struct SpdmAeadIvStruct {
    pub data_size: u16,
    pub data: [u8; SPDM_MAX_AEAD_IV_SIZE],
}

/// What protects the messages of one direction: the key, the nonce base, and how many
/// messages the direction has carried.
#[derive(Clone, Copy, Debug)]
pub struct SpdmSessionSecretParam {
    pub encryption_key: SpdmAeadKeyStruct,
    pub salt: SpdmAeadIvStruct,
    pub sequence_number: u64,
}

impl SpdmSessionSecretParam {
    /// Whether the direction holds no key and has carried no message: the key and the
    /// nonce base are empty and their storage is zero, and the next message is the
    /// first.
    pub open spec fn spec_is_blank(self) -> bool {
        &&& self.sequence_number == 0
        &&& self.encryption_key.data_size == 0
        &&& crate::codec::spec_all_zero(self.encryption_key.data@)
        &&& self.salt.data_size == 0
        &&& crate::codec::spec_all_zero(self.salt.data@)
    }

    /// A direction without a key, at its first message.
    pub fn new() -> (r: Self)
        ensures
            r.spec_is_blank(),
    {
        SpdmSessionSecretParam {
            encryption_key: SpdmAeadKeyStruct { data_size: 0, data: [0u8; SPDM_MAX_AEAD_KEY_SIZE] },
            salt: SpdmAeadIvStruct { data_size: 0, data: [0u8; SPDM_MAX_AEAD_IV_SIZE] },
            sequence_number: 0,
        }
    }

    /// Whether the key and the nonce base are ones that the cipher `aead_algo` takes.
    pub open spec fn spec_fits(self, aead_algo: SpdmAeadAlgo) -> bool {
        &&& self.encryption_key.data_size == aead_algo.spec_key_size()
        &&& self.salt.data_size == SPDM_MAX_AEAD_IV_SIZE
    }
}

/// The keys of one phase of a session: one direction for what the requester sends, one
/// for what the responder sends, and the keys that prove the handshake.
#[derive(Clone, Copy, Debug)]
pub struct SpdmSessionPhaseSecret {
    /// What the secrets of the two directions are drawn from: the handshake secret in
    /// the handshake, the master secret after it.
    pub main_secret: SpdmDigestStruct,
    pub request_secret: SpdmDigestStruct,
    pub response_secret: SpdmDigestStruct,
    pub request_finished_key: SpdmDigestStruct,
    pub response_finished_key: SpdmDigestStruct,
    pub request_direction: SpdmSessionSecretParam,
    pub response_direction: SpdmSessionSecretParam,
}

impl SpdmSessionPhaseSecret {
    /// Whether the phase holds no key and has carried no message: every secret and
    /// every key is empty, and its storage is zero.
    pub open spec fn spec_is_blank(self) -> bool {
        &&& self.main_secret.spec_is_zero()
        &&& self.request_secret.spec_is_zero()
        &&& self.response_secret.spec_is_zero()
        &&& self.request_finished_key.spec_is_zero()
        &&& self.response_finished_key.spec_is_zero()
        &&& self.request_direction.spec_is_blank()
        &&& self.response_direction.spec_is_blank()
    }

    /// A phase without keys.
    pub fn new() -> (r: Self)
        ensures
            r.spec_is_blank(),
    {
        SpdmSessionPhaseSecret {
            main_secret: SpdmDigestStruct::new(),
            request_secret: SpdmDigestStruct::new(),
            response_secret: SpdmDigestStruct::new(),
            request_finished_key: SpdmDigestStruct::new(),
            response_finished_key: SpdmDigestStruct::new(),
            request_direction: SpdmSessionSecretParam::new(),
            response_direction: SpdmSessionSecretParam::new(),
        }
    }

    /// Whether the phase has the secrets and keys of `other`; the two may differ in how
    /// many messages each direction has carried.
    pub open spec fn spec_same_keys(self, other: Self) -> bool {
        &&& self.main_secret == other.main_secret
        &&& self.request_secret == other.request_secret
        &&& self.response_secret == other.response_secret
        &&& self.request_finished_key == other.request_finished_key
        &&& self.response_finished_key == other.response_finished_key
        &&& self.request_direction.encryption_key == other.request_direction.encryption_key
        &&& self.request_direction.salt == other.request_direction.salt
        &&& self.response_direction.encryption_key == other.response_direction.encryption_key
        &&& self.response_direction.salt == other.response_direction.salt
    }

    /// Whether the phase has the keys of `other` and each direction has carried no
    /// fewer messages than there.
    pub open spec fn spec_carried_on(self, other: Self) -> bool {
        &&& self.spec_same_keys(other)
        &&& self.request_direction.sequence_number >= other.request_direction.sequence_number
        &&& self.response_direction.sequence_number >= other.response_direction.sequence_number
    }

    /// The direction that carries requests, or the one that carries responses.
    pub open spec fn spec_direction(self, request: bool) -> SpdmSessionSecretParam {
        if request {
            self.request_direction
        } else {
            self.response_direction
        }
    }
}

/// One entry of the session table.
#[derive(Clone, Copy, Debug)]
pub struct SpdmSession {
    session_id: u32,
    use_psk: bool,
    session_state: SpdmSessionState,
    crypto_param: SpdmSessionCryptoParam,
    handshake_secret: SpdmSessionPhaseSecret,
    application_secret: SpdmSessionPhaseSecret,
    runtime_info: SpdmSessionRuntimeInfo,
}

/// The start of a secured message: the session, the low `sequence_number_count` bytes of
/// the sequence number, and how many bytes of cipher text and tag follow.
pub open spec fn spec_secured_header(
    session_id: u32,
    sequence_number: u64,
    sequence_number_count: nat,
    length: u16,
) -> Seq<u8> {
    crate::codec::spec_u32_to_le(session_id) + crate::codec::spec_u64_to_le(
        sequence_number,
    ).subrange(0, sequence_number_count as int) + crate::codec::spec_u16_to_le(length)
}

/// The start of a secured message reads back as what it was made of: the session in
/// its first four bytes, the low bytes of the sequence number after them, and the
/// length in its last two.
pub proof fn lemma_secured_header(
    session_id: u32,
    sequence_number: u64,
    sequence_number_count: nat,
    length: u16,
)
    requires
        sequence_number_count <= 8,
    ensures
        ({
            let header = spec_secured_header(session_id, sequence_number, sequence_number_count, length);
            let count = sequence_number_count as int;
            &&& header.len() == 4 + sequence_number_count + 2
            &&& crate::codec::spec_u32_from_le(header.subrange(0, 4)) == session_id
            &&& header.subrange(4, 4 + count) == crate::codec::spec_u64_to_le(
                sequence_number,
            ).subrange(0, sequence_number_count as int)
            &&& crate::codec::spec_u16_from_le(
                header.subrange(4 + count, 6 + count),
            ) == length
        }),
{
    let header = spec_secured_header(session_id, sequence_number, sequence_number_count, length);
    let count = sequence_number_count as int;
    crate::codec::lemma_le_value_roundtrip(length, session_id);
    assert(header.subrange(0, 4) =~= crate::codec::spec_u32_to_le(session_id));
    assert(header.subrange(4, 4 + count) =~= crate::codec::spec_u64_to_le(
        sequence_number,
    ).subrange(0, sequence_number_count as int));
    assert(header.subrange(4 + count, 6 + count)
        =~= crate::codec::spec_u16_to_le(length));
}

/// The nonce of the message number `sequence_number` of a direction whose nonce base is
/// `salt`: the base with the sequence number folded into its first eight bytes.
pub open spec fn spec_secured_nonce(salt: Seq<u8>, sequence_number: u64) -> Seq<u8> {
    Seq::new(
        salt.len(),
        |i: int|
            if i < 8 {
                salt[i] ^ crate::codec::spec_u64_to_le(sequence_number)[i]
            } else {
                salt[i]
            },
    )
}

/// The nonce of the message number `sequence_number` under the nonce base `salt`.
pub fn secured_nonce(salt: &[u8], sequence_number: u64) -> (r: Vec<u8>)
    ensures
        r@ == spec_secured_nonce(salt@, sequence_number),
{
    let seq = u64_to_le(sequence_number);
    let mut r: Vec<u8> = Vec::new();
    let mut i: usize = 0;
    while i < salt.len()
        invariant
            i <= salt@.len(),
            seq@ == crate::codec::spec_u64_to_le(sequence_number),
            r@.len() == i,
            forall|j: int| 0 <= j < i ==> r@[j] == spec_secured_nonce(salt@, sequence_number)[j],
        decreases salt@.len() - i,
    {
        if i < 8 {
            r.push(salt[i] ^ seq[i]);
        } else {
            r.push(salt[i]);
        }
        i = i + 1;
    }
    assert(r@ =~= spec_secured_nonce(salt@, sequence_number));
    r
}

impl SpdmSession {
    pub closed spec fn spec_session_id(self) -> u32 {
        self.session_id
    }

    pub closed spec fn spec_session_state(self) -> SpdmSessionState {
        self.session_state
    }

    pub closed spec fn spec_crypto_param(self) -> SpdmSessionCryptoParam {
        self.crypto_param
    }

    pub closed spec fn spec_use_psk(self) -> bool {
        self.use_psk
    }

    pub closed spec fn spec_runtime_info(self) -> SpdmSessionRuntimeInfo {
        self.runtime_info
    }

    /// The keys of the handshake phase, or those of the established session.
    pub closed spec fn spec_phase_secret(self, established: bool) -> SpdmSessionPhaseSecret {
        if established {
            self.application_secret
        } else {
            self.handshake_secret
        }
    }

    /// What the session has recorded in the transcript `which`.
    pub open spec fn spec_message(self, which: SpdmSessionTranscript) -> Seq<u8> {
        match which {
            SpdmSessionTranscript::MessageK => self.spec_runtime_info().message_k@,
            SpdmSessionTranscript::MessageF => self.spec_runtime_info().message_f@,
            SpdmSessionTranscript::MessageM => self.spec_runtime_info().message_m@,
        }
    }

    /// Whether the session differs from `before` at most in the transcript `which`.
    pub open spec fn spec_same_but_message(self, before: Self, which: SpdmSessionTranscript) -> bool {
        &&& self.spec_session_id() == before.spec_session_id()
        &&& self.spec_session_state() == before.spec_session_state()
        &&& self.spec_use_psk() == before.spec_use_psk()
        &&& self.spec_crypto_param() == before.spec_crypto_param()
        &&& forall|established: bool|
            self.spec_phase_secret(established) == before.spec_phase_secret(established)
        &&& forall|other: SpdmSessionTranscript|
            other != which ==> self.spec_message(other) == before.spec_message(other)
    }

    /// Whether the entry is as a new one: free, with the algorithms that a session
    /// starts from, with nothing recorded, and with every secret and key empty and
    /// its storage zero.
    pub open spec fn spec_is_blank(self) -> bool {
        &&& self.spec_session_id() == INVALID_SESSION_ID
        &&& self.spec_session_state() == SpdmSessionState::SpdmSessionNotStarted
        &&& !self.spec_use_psk()
        &&& self.spec_crypto_param() == (SpdmSessionCryptoParam {
            base_hash_algo: SpdmBaseHashAlgo::TPM_ALG_SHA_256,
            dhe_algo: SpdmDheAlgo::SECP_256_R1,
            aead_algo: SpdmAeadAlgo::AES_128_GCM,
            key_schedule_algo: SpdmKeyScheduleAlgo::SPDM_KEY_SCHEDULE,
        })
        &&& forall|established: bool| (#[trigger] self.spec_phase_secret(established)).spec_is_blank()
        &&& self.spec_message(SpdmSessionTranscript::MessageK) == Seq::<u8>::empty()
        &&& self.spec_message(SpdmSessionTranscript::MessageF) == Seq::<u8>::empty()
        &&& self.spec_message(SpdmSessionTranscript::MessageM) == Seq::<u8>::empty()
    }

    /// A free entry: it holds no session, no key and no record.
    pub fn new() -> (r: Self)
        ensures
            r.spec_is_blank(),
    {
        SpdmSession {
            session_id: INVALID_SESSION_ID,
            use_psk: false,
            session_state: SpdmSessionState::SpdmSessionNotStarted,
            crypto_param: SpdmSessionCryptoParam {
                base_hash_algo: SpdmBaseHashAlgo::TPM_ALG_SHA_256,
                dhe_algo: SpdmDheAlgo::SECP_256_R1,
                aead_algo: SpdmAeadAlgo::AES_128_GCM,
                key_schedule_algo: SpdmKeyScheduleAlgo::SPDM_KEY_SCHEDULE,
            },
            handshake_secret: SpdmSessionPhaseSecret::new(),
            application_secret: SpdmSessionPhaseSecret::new(),
            runtime_info: SpdmSessionRuntimeInfo {
                message_k: ManagedBuffer::new(),
                message_f: ManagedBuffer::new(),
                message_m: ManagedBuffer::new(),
            },
        }
    }

    /// Take a free entry for the session `session_id`. The ids 0 and 0xFFFFFFFF name
    /// no session and are rejected; so is an entry that is in use.
    pub fn setup(&mut self, session_id: u32) -> (r: SpdmResult)
        ensures
            !spec_session_id_valid(session_id) ==> r == Err::<(), SpdmStatus>(
                SpdmStatus::InvalidParameter,
            ),
            spec_session_id_valid(session_id) && old(self).spec_session_state()
                != SpdmSessionState::SpdmSessionNotStarted ==> r == Err::<(), SpdmStatus>(
                SpdmStatus::InvalidStateLocal,
            ),
            spec_session_id_valid(session_id) && old(self).spec_session_state()
                == SpdmSessionState::SpdmSessionNotStarted ==> r is Ok,
            r is Err ==> *final(self) == *old(self),
            r is Ok ==> {
                &&& final(self).spec_session_id() == session_id
                &&& final(self).spec_session_state() == SpdmSessionState::SpdmSessionNotStarted
                &&& !final(self).spec_use_psk()
                &&& forall|which: SpdmSessionTranscript|
                    final(self).spec_message(which) == Seq::<u8>::empty()
            },
    {
        if session_id == INVALID_SESSION_ID || session_id == RESERVED_SESSION_ID {
            return Err(SpdmStatus::InvalidParameter);
        }
        match self.session_state {
            SpdmSessionState::SpdmSessionNotStarted => {},
            _ => {
                return Err(SpdmStatus::InvalidStateLocal);
            },
        }
        let mut fresh = SpdmSession::new();
        fresh.session_id = session_id;
        *self = fresh;
        Ok(())
    }

    /// Fix the algorithms of the session.
    pub fn set_crypto_param(
        &mut self,
        base_hash_algo: SpdmBaseHashAlgo,
        dhe_algo: SpdmDheAlgo,
        aead_algo: SpdmAeadAlgo,
        key_schedule_algo: SpdmKeyScheduleAlgo,
    )
        ensures
            final(self).spec_crypto_param() == (SpdmSessionCryptoParam {
                base_hash_algo,
                dhe_algo,
                aead_algo,
                key_schedule_algo,
            }),
            final(self).spec_session_id() == old(self).spec_session_id(),
            final(self).spec_session_state() == old(self).spec_session_state(),
            final(self).spec_use_psk() == old(self).spec_use_psk(),
            final(self).spec_runtime_info() == old(self).spec_runtime_info(),
            forall|established: bool|
                final(self).spec_phase_secret(established) == old(self).spec_phase_secret(
                    established,
                ),
    {
        self.crypto_param =
        SpdmSessionCryptoParam { base_hash_algo, dhe_algo, aead_algo, key_schedule_algo };
    }

    /// Say whether the session rests on a pre-shared key.
    pub fn set_use_psk(&mut self, use_psk: bool)
        ensures
            final(self).spec_use_psk() == use_psk,
            final(self).spec_crypto_param() == old(self).spec_crypto_param(),
            final(self).spec_session_id() == old(self).spec_session_id(),
            final(self).spec_session_state() == old(self).spec_session_state(),
            final(self).spec_runtime_info() == old(self).spec_runtime_info(),
            forall|established: bool|
                final(self).spec_phase_secret(established) == old(self).spec_phase_secret(
                    established,
                ),
    {
        self.use_psk = use_psk;
    }

    pub fn get_session_id(&self) -> (id: u32)
        ensures
            id == self.spec_session_id(),
    {
        self.session_id
    }

    pub fn get_session_state(&self) -> (s: SpdmSessionState)
        ensures
            s == self.spec_session_state(),
    {
        self.session_state
    }

    pub fn get_crypto_param(&self) -> (p: SpdmSessionCryptoParam)
        ensures
            p == self.spec_crypto_param(),
    {
        self.crypto_param
    }

    pub fn get_use_psk(&self) -> (b: bool)
        ensures
            b == self.spec_use_psk(),
    {
        self.use_psk
    }

    /// Move the session to `session_state`, where a session that was set up may pass
    /// there from where it is; moving to the start tears the session down. A change
    /// that is not allowed is refused and leaves the session as it is.
    pub fn set_session_state(&mut self, session_state: SpdmSessionState) -> (r: SpdmResult)
        ensures
            r is Ok <==> spec_transition_allowed(old(self).spec_session_state(), session_state)
                && (session_state != SpdmSessionState::SpdmSessionNotStarted
                ==> spec_session_id_valid(old(self).spec_session_id())),
            r is Err ==> r == Err::<(), SpdmStatus>(SpdmStatus::InvalidStateLocal) && *final(self)
                == *old(self),
            r is Ok && session_state == SpdmSessionState::SpdmSessionNotStarted ==> final(self).spec_is_blank(),
            r is Ok && session_state != SpdmSessionState::SpdmSessionNotStarted ==> {
                &&& final(self).spec_session_state() == session_state
                &&& final(self).spec_session_id() == old(self).spec_session_id()
                &&& final(self).spec_use_psk() == old(self).spec_use_psk()
                &&& final(self).spec_crypto_param() == old(self).spec_crypto_param()
                &&& final(self).spec_runtime_info() == old(self).spec_runtime_info()
                &&& forall|established: bool|
                    final(self).spec_phase_secret(established) == old(self).spec_phase_secret(
                        established,
                    )
            },
    {
        let from = self.session_state;
        let id_valid: bool = self.session_id != INVALID_SESSION_ID && self.session_id
            != RESERVED_SESSION_ID;
        match session_state {
            SpdmSessionState::SpdmSessionNotStarted => {
                *self = SpdmSession::new();
                Ok(())
            },
            SpdmSessionState::SpdmSessionHandshaking => {
                if id_valid && (from == SpdmSessionState::SpdmSessionNotStarted || from
                    == SpdmSessionState::SpdmSessionHandshaking) {
                    self.session_state = session_state;
                    Ok(())
                } else {
                    Err(SpdmStatus::InvalidStateLocal)
                }
            },
            SpdmSessionState::SpdmSessionEstablished => {
                if id_valid && (from == SpdmSessionState::SpdmSessionHandshaking || from
                    == SpdmSessionState::SpdmSessionEstablished) {
                    self.session_state = session_state;
                    Ok(())
                } else {
                    Err(SpdmStatus::InvalidStateLocal)
                }
            },
        }
    }

    /// What the session has recorded in the transcript `which`.
    pub fn message(&self, which: SpdmSessionTranscript) -> (r: &[u8])
        ensures
            r@ == self.spec_message(which),
            r@.len() <= MAX_SPDM_MESSAGE_BUFFER_SIZE,
    {
        match which {
            SpdmSessionTranscript::MessageK => self.runtime_info.message_k.as_ref(),
            SpdmSessionTranscript::MessageF => self.runtime_info.message_f.as_ref(),
            SpdmSessionTranscript::MessageM => self.runtime_info.message_m.as_ref(),
        }
    }

    /// Record `bytes` in the transcript `which`. With too little room nothing is
    /// recorded.
    pub fn append_message(&mut self, which: SpdmSessionTranscript, bytes: &[u8]) -> (r:
        SpdmResult<usize>)
        ensures
            final(self).spec_same_but_message(*old(self), which),
            ManagedBuffer::spec_append(old(self).spec_message(which), bytes@) matches Some(
                after,
            ) ==> r is Ok && final(self).spec_message(which) == after,
            ManagedBuffer::spec_append(old(self).spec_message(which), bytes@) is None ==> r
                == Err::<usize, SpdmStatus>(SpdmStatus::BufferFull) && *final(self) == *old(self),
    {
        match which {
            SpdmSessionTranscript::MessageK => self.runtime_info.message_k.append_message(bytes),
            SpdmSessionTranscript::MessageF => self.runtime_info.message_f.append_message(bytes),
            SpdmSessionTranscript::MessageM => self.runtime_info.message_m.append_message(bytes),
        }
    }

    /// Let the transcript `which` be `buffer`.
    pub fn set_message(&mut self, which: SpdmSessionTranscript, buffer: ManagedBuffer)
        ensures
            final(self).spec_same_but_message(*old(self), which),
            final(self).spec_message(which) == buffer@,
    {
        match which {
            SpdmSessionTranscript::MessageK => {
                self.runtime_info.message_k = buffer;
            },
            SpdmSessionTranscript::MessageF => {
                self.runtime_info.message_f = buffer;
            },
            SpdmSessionTranscript::MessageM => {
                self.runtime_info.message_m = buffer;
            },
        }
    }

    /// Forget what the transcript `which` has recorded.
    pub fn reset_message(&mut self, which: SpdmSessionTranscript)
        ensures
            final(self).spec_same_but_message(*old(self), which),
            final(self).spec_message(which) == Seq::<u8>::empty(),
    {
        match which {
            SpdmSessionTranscript::MessageK => self.runtime_info.message_k.reset_message(),
            SpdmSessionTranscript::MessageF => self.runtime_info.message_f.reset_message(),
            SpdmSessionTranscript::MessageM => self.runtime_info.message_m.reset_message(),
        }
    }

    /// Whether the session is `before` after one more message in the direction `request`
    /// of the phase `established`, and nothing else.
    pub open spec fn spec_advanced_from(self, before: Self, established: bool, request: bool) -> bool {
        &&& self.spec_session_id() == before.spec_session_id()
        &&& self.spec_session_state() == before.spec_session_state()
        &&& self.spec_use_psk() == before.spec_use_psk()
        &&& self.spec_crypto_param() == before.spec_crypto_param()
        &&& self.spec_runtime_info() == before.spec_runtime_info()
        &&& self.spec_phase_secret(!established) == before.spec_phase_secret(!established)
        &&& self.spec_phase_secret(established).spec_same_keys(
            before.spec_phase_secret(established),
        )
        &&& self.spec_phase_secret(established).spec_direction(!request).sequence_number
            == before.spec_phase_secret(established).spec_direction(!request).sequence_number
        &&& self.spec_phase_secret(established).spec_direction(request).sequence_number
            == before.spec_phase_secret(established).spec_direction(request).sequence_number + 1
    }

    /// Whether the session is `before`, but that it may have carried more messages: the
    /// sequence numbers of its directions are the only thing that may differ.
    pub open spec fn spec_carried_on(self, before: Self) -> bool {
        &&& self.spec_keys_carried_on(before)
        &&& self.spec_runtime_info() == before.spec_runtime_info()
    }

    /// Whether the session is `before` in its identity, its state and its keys, but
    /// that it may have carried more messages.
    pub open spec fn spec_keys_carried_on(self, before: Self) -> bool {
        &&& self.spec_session_id() == before.spec_session_id()
        &&& self.spec_session_state() == before.spec_session_state()
        &&& self.spec_use_psk() == before.spec_use_psk()
        &&& self.spec_crypto_param() == before.spec_crypto_param()
        &&& self.spec_phase_secret(true).spec_carried_on(before.spec_phase_secret(true))
        &&& self.spec_phase_secret(false).spec_carried_on(before.spec_phase_secret(false))
    }

    /// Carrying on is transitive, and a session that is as it was has carried on; so
    /// has one that has taken one more message, and one that has only recorded more.
    pub proof fn lemma_carried_on(self, middle: Self, before: Self)
        ensures
            self.spec_carried_on(self),
            self.spec_keys_carried_on(self),
            self.spec_keys_carried_on(middle) && middle.spec_keys_carried_on(before)
                ==> self.spec_keys_carried_on(before),
            self.spec_carried_on(middle) && middle.spec_carried_on(before) ==> self.spec_carried_on(
                before,
            ),
            forall|established: bool, request: bool|
                self.spec_advanced_from(before, established, request) ==> self.spec_carried_on(
                    before,
                ),
            forall|which: SpdmSessionTranscript|
                self.spec_same_but_message(before, which) ==> self.spec_keys_carried_on(before),
    {
        assert forall|established: bool, request: bool|
            self.spec_advanced_from(before, established, request) implies self.spec_carried_on(
            before,
        ) by {
            if established {
                assert(!established == false);
            } else {
                assert(!established == true);
            }
            if request {
                assert(!request == false);
            } else {
                assert(!request == true);
            }
        }
        assert forall|which: SpdmSessionTranscript|
            self.spec_same_but_message(before, which) implies self.spec_keys_carried_on(before) by {
            assert(self.spec_phase_secret(true) == before.spec_phase_secret(true));
            assert(self.spec_phase_secret(false) == before.spec_phase_secret(false));
        }
    }

    /// Why the session cannot protect or open a message of `app_len` bytes in the
    /// direction `request`, if it cannot, before any primitive is asked.
    pub open spec fn spec_secured_refusal(
        self,
        request: bool,
        sequence_number_count: u8,
        app_len: nat,
    ) -> Option<SpdmStatus> {
        let established = self.spec_session_state() == SpdmSessionState::SpdmSessionEstablished;
        let direction = self.spec_phase_secret(established).spec_direction(request);
        if self.spec_session_state() == SpdmSessionState::SpdmSessionNotStarted {
            Some(SpdmStatus::InvalidStateLocal)
        } else if sequence_number_count > 8 {
            Some(SpdmStatus::InvalidParameter)
        } else if !direction.spec_fits(self.spec_crypto_param().aead_algo) {
            Some(SpdmStatus::InvalidStateLocal)
        } else if direction.sequence_number == u64::MAX {
            Some(SpdmStatus::SequenceNumberOverflow)
        } else if app_len > MAX_SPDM_MESSAGE_BUFFER_SIZE {
            Some(SpdmStatus::BufferFull)
        } else {
            None
        }
    }

    /// Give the phase `established` its keys.
    pub fn set_phase_secret(&mut self, established: bool, secret: SpdmSessionPhaseSecret)
        ensures
            final(self).spec_phase_secret(established) == secret,
            final(self).spec_phase_secret(!established) == old(self).spec_phase_secret(
                !established,
            ),
            final(self).spec_session_id() == old(self).spec_session_id(),
            final(self).spec_session_state() == old(self).spec_session_state(),
            final(self).spec_use_psk() == old(self).spec_use_psk(),
            final(self).spec_crypto_param() == old(self).spec_crypto_param(),
            final(self).spec_runtime_info() == old(self).spec_runtime_info(),
    {
        if established {
            self.application_secret = secret;
        } else {
            self.handshake_secret = secret;
        }
    }

    /// The keys of the phase `established`.
    pub fn get_phase_secret(&self, established: bool) -> (r: SpdmSessionPhaseSecret)
        ensures
            r == self.spec_phase_secret(established),
    {
        if established {
            self.application_secret
        } else {
            self.handshake_secret
        }
    }

    /// Wrap the message `app_buffer` for the peer: the header, the cipher text of the
    /// length-prefixed message, and the tag. The direction is that of requests where the
    /// requester wraps. A message that is wrapped advances the sequence number of the
    /// direction by one; a failure changes nothing.
    pub fn encode_spdm_secured_message(
        &mut self,
        crypto: &SpdmCryptoRegistry,
        app_buffer: &[u8],
        is_requester: bool,
        sequence_number_count: u8,
    ) -> (r: SpdmResult<Vec<u8>>)
        ensures
            old(self).spec_secured_refusal(is_requester, sequence_number_count, app_buffer@.len())
                matches Some(e) ==> r == Err::<Vec<u8>, SpdmStatus>(e),
            old(self).spec_secured_refusal(
                is_requester,
                sequence_number_count,
                app_buffer@.len(),
            ) is None ==> {
                &&& crypto.aead is None ==> r == Err::<Vec<u8>, SpdmStatus>(SpdmStatus::Unsupported)
                &&& crypto.aead is Some ==> r is Ok || r == Err::<Vec<u8>, SpdmStatus>(
                    SpdmStatus::CryptoError,
                )
            },
            r is Err ==> *final(self) == *old(self),
            r matches Ok(frame) ==> {
                let established = old(self).spec_session_state()
                    == SpdmSessionState::SpdmSessionEstablished;
                let header = spec_secured_header(
                    old(self).spec_session_id(),
                    old(self).spec_phase_secret(established).spec_direction(
                        is_requester,
                    ).sequence_number,
                    sequence_number_count as nat,
                    (2 + app_buffer@.len() + SPDM_MAX_AEAD_TAG_SIZE) as u16,
                );
                &&& final(self).spec_advanced_from(*old(self), established, is_requester)
                &&& frame@.len() == header.len() + 2 + app_buffer@.len() + SPDM_MAX_AEAD_TAG_SIZE
                &&& frame@.subrange(0, header.len() as int) == header
            },
    {
        let established: bool = match self.session_state {
            SpdmSessionState::SpdmSessionNotStarted => {
                return Err(SpdmStatus::InvalidStateLocal);
            },
            SpdmSessionState::SpdmSessionHandshaking => false,
            SpdmSessionState::SpdmSessionEstablished => true,
        };
        if sequence_number_count > 8 {
            return Err(SpdmStatus::InvalidParameter);
        }
        let phase = self.get_phase_secret(established);
        let direction = if is_requester {
            phase.request_direction
        } else {
            phase.response_direction
        };
        let aead_algo = self.crypto_param.aead_algo;
        if direction.encryption_key.data_size != aead_algo.get_key_size() || direction.salt.data_size as usize
            != SPDM_MAX_AEAD_IV_SIZE {
            return Err(SpdmStatus::InvalidStateLocal);
        }
        let sequence_number: u64 = direction.sequence_number;
        if sequence_number == u64::MAX {
            return Err(SpdmStatus::SequenceNumberOverflow);
        }
        if app_buffer.len() > MAX_SPDM_MESSAGE_BUFFER_SIZE {
            return Err(SpdmStatus::BufferFull);
        }
        let app_len: u16 = app_buffer.len() as u16;
        let length: u16 = 2 + app_len + SPDM_MAX_AEAD_TAG_SIZE as u16;
        let seq_bytes = u64_to_le(sequence_number);
        let mut header = Writer::init(4 + 8 + 2);
        let _ = header.push_u32(self.session_id);
        let _ = header.extend_from_slice(slice_range(&seq_bytes, 0, sequence_number_count as usize));
        let _ = header.push_u16(length);
        let mut plain_text = Writer::init(2 + MAX_SPDM_MESSAGE_BUFFER_SIZE);
        let _ = plain_text.push_u16(app_len);
        let _ = plain_text.extend_from_slice(app_buffer);
        let iv = secured_nonce(slice_range(&direction.salt.data, 0, SPDM_MAX_AEAD_IV_SIZE), sequence_number);
        let key = slice_range(
            &direction.encryption_key.data,
            0,
            direction.encryption_key.data_size as usize,
        );
        let (cipher_text, tag) = crypto.aead_encrypt(
            aead_algo,
            key,
            iv.as_slice(),
            header.used_slice(),
            plain_text.used_slice(),
        )?;
        let mut frame: Vec<u8> = Vec::new();
        frame.extend_from_slice(header.used_slice());
        frame.extend_from_slice(cipher_text.as_slice());
        frame.extend_from_slice(tag.as_slice());
        let mut advanced = phase;
        if is_requester {
            advanced.request_direction.sequence_number = sequence_number + 1;
        } else {
            advanced.response_direction.sequence_number = sequence_number + 1;
        }
        self.set_phase_secret(established, advanced);
        proof {
            let h = spec_secured_header(
                old(self).spec_session_id(),
                sequence_number,
                sequence_number_count as nat,
                length,
            );
            assert(header@ =~= h);
            assert(frame@.subrange(0, h.len() as int) =~= h);
        }
        Ok(frame)
    }

    /// Open the secured message `secured_buffer` from the peer and give the message in
    /// it. The direction is that of responses where the requester opens. The message
    /// must name this session and carry the sequence number that the direction has
    /// come to; its tag must hold. A message that is opened advances the sequence
    /// number of the direction by one; a failure changes nothing.
    pub fn decode_spdm_secured_message(
        &mut self,
        crypto: &SpdmCryptoRegistry,
        secured_buffer: &[u8],
        is_requester: bool,
        sequence_number_count: u8,
    ) -> (r: SpdmResult<Vec<u8>>)
        ensures
            old(self).spec_secured_refusal(!is_requester, sequence_number_count, 0) matches Some(
                e,
            ) ==> r == Err::<Vec<u8>, SpdmStatus>(e),
            old(self).spec_secured_refusal(!is_requester, sequence_number_count, 0) is None ==> {
                &&& secured_buffer@.len() < 4 + sequence_number_count + 2 ==> r == Err::<
                    Vec<u8>,
                    SpdmStatus,
                >(SpdmStatus::InvalidMsgField)
                &&& crypto.aead is None ==> r == Err::<Vec<u8>, SpdmStatus>(
                    SpdmStatus::InvalidMsgField,
                ) || r == Err::<Vec<u8>, SpdmStatus>(SpdmStatus::Unsupported)
            },
            r matches Err(e) ==> e.spec_open_failure(),
            r is Err ==> *final(self) == *old(self),
            r matches Ok(app) ==> {
                let established = old(self).spec_session_state()
                    == SpdmSessionState::SpdmSessionEstablished;
                let header_len = 4 + sequence_number_count + 2;
                let length = crate::codec::spec_u16_from_le(
                    secured_buffer@.subrange(header_len - 2, header_len),
                );
                &&& final(self).spec_advanced_from(*old(self), established, !is_requester)
                &&& secured_buffer@.len() >= header_len + length
                &&& length >= 2 + SPDM_MAX_AEAD_TAG_SIZE
                &&& app@.len() + 2 + SPDM_MAX_AEAD_TAG_SIZE <= length
                &&& secured_buffer@.subrange(0, header_len) == spec_secured_header(
                    old(self).spec_session_id(),
                    old(self).spec_phase_secret(established).spec_direction(
                        !is_requester,
                    ).sequence_number,
                    sequence_number_count as nat,
                    length,
                )
            },
    {
        let established: bool = match self.session_state {
            SpdmSessionState::SpdmSessionNotStarted => {
                return Err(SpdmStatus::InvalidStateLocal);
            },
            SpdmSessionState::SpdmSessionHandshaking => false,
            SpdmSessionState::SpdmSessionEstablished => true,
        };
        if sequence_number_count > 8 {
            return Err(SpdmStatus::InvalidParameter);
        }
        let phase = self.get_phase_secret(established);
        let direction = if is_requester {
            phase.response_direction
        } else {
            phase.request_direction
        };
        let aead_algo = self.crypto_param.aead_algo;
        if direction.encryption_key.data_size != aead_algo.get_key_size() || direction.salt.data_size as usize
            != SPDM_MAX_AEAD_IV_SIZE {
            return Err(SpdmStatus::InvalidStateLocal);
        }
        let sequence_number: u64 = direction.sequence_number;
        if sequence_number == u64::MAX {
            return Err(SpdmStatus::SequenceNumberOverflow);
        }
        let header_len: usize = 4 + sequence_number_count as usize + 2;
        if secured_buffer.len() < header_len {
            return Err(SpdmStatus::InvalidMsgField);
        }
        let seq_bytes = u64_to_le(sequence_number);
        let mut reader = Reader::init(secured_buffer);
        let ghost r0 = reader;
        let session_id = match reader.read_u32() {
            Some(v) => v,
            None => {
                return Err(SpdmStatus::InvalidMsgField);
            },
        };
        let ghost r1 = reader;
        let seq = match reader.take(sequence_number_count as usize) {
            Some(v) => v,
            None => {
                return Err(SpdmStatus::InvalidMsgField);
            },
        };
        let ghost r2 = reader;
        let length = match reader.read_u16() {
            Some(v) => v,
            None => {
                return Err(SpdmStatus::InvalidMsgField);
            },
        };
        let ghost r3 = reader;
        proof {
            r1.lemma_advanced(r0, 4);
            r2.lemma_advanced(r1, sequence_number_count as nat);
            r3.lemma_advanced(r2, 2);
            assert(r0.remaining() =~= secured_buffer@);
            assert(secured_buffer@.subrange(header_len - 2, header_len as int)[0]
                == r2.remaining()[0]);
            assert(secured_buffer@.subrange(header_len - 2, header_len as int)[1]
                == r2.remaining()[1]);
        }
        if session_id != self.session_id {
            return Err(SpdmStatus::InvalidMsgField);
        }
        if !bytes_equal(seq, slice_range(&seq_bytes, 0, sequence_number_count as usize)) {
            return Err(SpdmStatus::InvalidMsgField);
        }
        if (length as usize) < 2 + SPDM_MAX_AEAD_TAG_SIZE || reader.left() < length as usize {
            return Err(SpdmStatus::InvalidMsgField);
        }
        let cipher_len: usize = length as usize - SPDM_MAX_AEAD_TAG_SIZE;
        let cipher_text = match reader.take(cipher_len) {
            Some(v) => v,
            None => {
                return Err(SpdmStatus::InvalidMsgField);
            },
        };
        let tag = match reader.take(SPDM_MAX_AEAD_TAG_SIZE) {
            Some(v) => v,
            None => {
                return Err(SpdmStatus::InvalidMsgField);
            },
        };
        let iv = secured_nonce(slice_range(&direction.salt.data, 0, SPDM_MAX_AEAD_IV_SIZE), sequence_number);
        let key = slice_range(
            &direction.encryption_key.data,
            0,
            direction.encryption_key.data_size as usize,
        );
        let plain_text = crypto.aead_decrypt(
            aead_algo,
            key,
            iv.as_slice(),
            slice_range(secured_buffer, 0, header_len),
            cipher_text,
            tag,
        )?;
        let mut plain_reader = Reader::init(plain_text.as_slice());
        let app_len = match plain_reader.read_u16() {
            Some(v) => v,
            None => {
                return Err(SpdmStatus::InvalidMsgField);
            },
        };
        let app = match plain_reader.take(app_len as usize) {
            Some(v) => v,
            None => {
                return Err(SpdmStatus::InvalidMsgField);
            },
        };
        let mut message: Vec<u8> = Vec::new();
        message.extend_from_slice(app);
        let mut advanced = phase;
        if is_requester {
            advanced.response_direction.sequence_number = sequence_number + 1;
        } else {
            advanced.request_direction.sequence_number = sequence_number + 1;
        }
        self.set_phase_secret(established, advanced);
        proof {
            let h = spec_secured_header(
                old(self).spec_session_id(),
                sequence_number,
                sequence_number_count as nat,
                length,
            );
            crate::codec::lemma_u32_bytes_roundtrip(secured_buffer@.subrange(0, 4));
            crate::codec::lemma_u16_bytes_roundtrip(
                secured_buffer@.subrange(header_len - 2, header_len as int),
            );
            assert(r0.remaining().subrange(0, 4) =~= secured_buffer@.subrange(0, 4));
            assert(secured_buffer@.subrange(0, header_len as int) =~= h);
        }
        Ok(message)
    }

    /// Whether the session is `before` with new keys for the phase `established`, ready
    /// for the first message of either direction, and nothing else.
    pub open spec fn spec_rekeyed_from(self, before: Self, established: bool) -> bool {
        &&& self.spec_session_id() == before.spec_session_id()
        &&& self.spec_session_state() == before.spec_session_state()
        &&& self.spec_use_psk() == before.spec_use_psk()
        &&& self.spec_crypto_param() == before.spec_crypto_param()
        &&& self.spec_runtime_info() == before.spec_runtime_info()
        &&& self.spec_phase_secret(!established) == before.spec_phase_secret(!established)
        &&& crate::key_schedule::spec_phase_ready(
            self.spec_phase_secret(established),
            self.spec_crypto_param().base_hash_algo,
            self.spec_crypto_param().aead_algo,
        )
    }

    /// Give the handshake its keys: the handshake secret is the keyed digest of
    /// `shared_secret` under a key of zero bytes, and the secrets of the two directions
    /// are drawn from it, bound to the digest `th1` of the handshake so far. A failure
    /// changes nothing.
    pub fn generate_handshake_secret(
        &mut self,
        crypto: &SpdmCryptoRegistry,
        version: SpdmVersion,
        shared_secret: &[u8],
        th1: &[u8],
    ) -> (r: SpdmResult)
        ensures
            crypto.hmac is None ==> r == Err::<(), SpdmStatus>(SpdmStatus::Unsupported),
            crypto.hmac is Some && crypto.hkdf is None ==> r is Err,
            r is Err ==> *final(self) == *old(self),
            r is Ok ==> final(self).spec_rekeyed_from(*old(self), false),
    {
        let hash_algo = self.crypto_param.base_hash_algo;
        let aead_algo = self.crypto_param.aead_algo;
        let zeros = [0u8; SPDM_MAX_HASH_SIZE];
        let salt_0 = slice_range(&zeros, 0, hash_algo.get_size() as usize);
        let main_secret = crypto.hmac(hash_algo, salt_0, shared_secret)?;
        let phase = crate::key_schedule::derive_phase(
            crypto,
            version,
            hash_algo,
            aead_algo,
            &main_secret,
            SpdmKeyLabel::RequestHandshake,
            SpdmKeyLabel::ResponseHandshake,
            th1,
        )?;
        self.handshake_secret = phase;
        Ok(())
    }

    /// Give the established session its keys: the master secret is the keyed digest
    /// of zero bytes under a salt drawn from the handshake secret, and the secrets of
    /// the two directions are drawn from it, bound to the digest `th2` of the whole
    /// handshake. A failure changes nothing.
    pub fn generate_data_secret(
        &mut self,
        crypto: &SpdmCryptoRegistry,
        version: SpdmVersion,
        th2: &[u8],
    ) -> (r: SpdmResult)
        ensures
            !old(self).spec_phase_secret(false).main_secret.wf() ==> r == Err::<(), SpdmStatus>(
                SpdmStatus::InvalidStateLocal,
            ),
            old(self).spec_phase_secret(false).main_secret.wf() && crypto.hkdf is None ==> r
                == Err::<(), SpdmStatus>(SpdmStatus::Unsupported),
            r is Err ==> *final(self) == *old(self),
            r is Ok ==> final(self).spec_rekeyed_from(*old(self), true),
    {
        let hash_algo = self.crypto_param.base_hash_algo;
        let aead_algo = self.crypto_param.aead_algo;
        let hash_size: u16 = hash_algo.get_size();
        let salt_1 = crate::key_schedule::derive(
            crypto,
            version,
            hash_algo,
            &self.handshake_secret.main_secret,
            SpdmKeyLabel::Derived,
            &[],
            hash_size,
        )?;
        let zeros = [0u8; SPDM_MAX_HASH_SIZE];
        let master_secret = crypto.hmac(
            hash_algo,
            salt_1.as_ref(),
            slice_range(&zeros, 0, hash_size as usize),
        )?;
        let phase = crate::key_schedule::derive_phase(
            crypto,
            version,
            hash_algo,
            aead_algo,
            &master_secret,
            SpdmKeyLabel::RequestData,
            SpdmKeyLabel::ResponseData,
            th2,
        )?;
        self.application_secret = phase;
        Ok(())
    }

    /// Whether `hmac` is the keyed digest of `message` under the key with which the
    /// requester proves the handshake.
    pub fn verify_hmac_with_request_finished_key(
        &self,
        crypto: &SpdmCryptoRegistry,
        message: &[u8],
        hmac: &SpdmDigestStruct,
    ) -> (r: SpdmResult)
        ensures
            !self.spec_phase_secret(false).request_finished_key.wf() ==> r == Err::<(), SpdmStatus>(
                SpdmStatus::InvalidStateLocal,
            ),
            self.spec_phase_secret(false).request_finished_key.wf() && crypto.hmac is None ==> r
                == Err::<(), SpdmStatus>(SpdmStatus::Unsupported),
            self.spec_phase_secret(false).request_finished_key.wf() && crypto.hmac is Some ==> r
                is Ok || r == Err::<(), SpdmStatus>(SpdmStatus::CryptoError),
    {
        let key = self.handshake_secret.request_finished_key;
        if key.data_size as usize > SPDM_MAX_HASH_SIZE {
            return Err(SpdmStatus::InvalidStateLocal);
        }
        crypto.hmac_verify(self.crypto_param.base_hash_algo, key.as_ref(), message, hmac)
    }

    /// The keyed digest of `message` under the key with which the responder proves
    /// the handshake.
    pub fn generate_hmac_with_response_finished_key(
        &self,
        crypto: &SpdmCryptoRegistry,
        message: &[u8],
    ) -> (r: SpdmResult<SpdmDigestStruct>)
        ensures
            !self.spec_phase_secret(false).response_finished_key.wf() ==> r == Err::<
                SpdmDigestStruct,
                SpdmStatus,
            >(SpdmStatus::InvalidStateLocal),
            r matches Ok(d) ==> d.wf() && d.data_size
                == self.spec_crypto_param().base_hash_algo.spec_size(),
    {
        let key = self.handshake_secret.response_finished_key;
        if key.data_size as usize > SPDM_MAX_HASH_SIZE {
            return Err(SpdmStatus::InvalidStateLocal);
        }
        crypto.hmac(self.crypto_param.base_hash_algo, key.as_ref(), message)
    }

    /// End the session `session_id`: the entry becomes free and keeps nothing.
    pub fn teardown(&mut self, session_id: u32) -> (r: SpdmResult)
        ensures
            r is Ok <==> session_id == old(self).spec_session_id(),
            r is Ok ==> final(self).spec_is_blank(),
            r is Err ==> r == Err::<(), SpdmStatus>(SpdmStatus::InvalidParameter) && *final(self)
                == *old(self),
    {
        if session_id != self.session_id {
            return Err(SpdmStatus::InvalidParameter);
        }
        *self = SpdmSession::new();
        Ok(())
    }
}

impl Default for SpdmSession {
    fn default() -> (r: Self)
        ensures
            r.spec_is_blank(),
    {
        SpdmSession::new()
    }
}

} // verus!
