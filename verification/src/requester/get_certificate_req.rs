//! Fetching the certificate chain of the responder, portion by portion, and anchoring it.

use vstd::prelude::*;
use crate::codec::{bytes_equal, copy_to_front, slice_range, Reader, Writer};
use crate::common::{SpdmCertChain, SpdmDeviceIo, SpdmPeerInfo, SpdmRuntimeInfo, SpdmTransportEncap};
use crate::config::{
    MAX_SPDM_CERT_CHAIN_DATA_SIZE, MAX_SPDM_CERT_PORTION_LEN, MAX_SPDM_MESSAGE_BUFFER_SIZE,
    MAX_SPDM_RETRY_COUNT, SPDM_MAX_SLOT_NUMBER,
};
use crate::error::{SpdmResult, SpdmStatus};
use crate::message::certificate::{
    SpdmCertificateResponse, SpdmCertificateResponsePayload, SpdmGetCertificateRequestPayload,
};
use crate::message::header::{SpdmMessageHeader, SpdmRequestResponseCode};
use crate::protocol::{SpdmCertChainData, SpdmVersion};
use crate::requester::context::{classify_response, RequesterContext, SpdmResponseClass};
use crate::requester::handle_error_response_req::{follow_deferral, SpdmErrorResponseAction};
use crate::transcript::ManagedBuffer;

verus! {

/// What the requester holds after it has accepted one portion of a chain.
pub struct SpdmCertificatePortionAccepted {
    /// How long the portion was.
    pub portion_length: u16,
    /// How much of the chain follows the portion.
    pub remainder_length: u16,
    /// The store of the slot.
    pub chain_data: Seq<u8>,
    /// How much of the store the chain takes up.
    pub chain_size: u16,
    /// The transcript of digests and certificate.
    pub message_b: Seq<u8>,
}

impl SpdmCertificatePortionAccepted {
    /// What the requester makes of `response`, which is not an ERROR, to its request
    /// `send` for `length` bytes at `offset` of the chain in slot `slot_id`, where the
    /// slot holds `slot` and the transcript holds `message_b`.
    ///
    /// The response must be a CERTIFICATE in the negotiated version that reads as one
    /// and passes the checks of a portion. Only then is the slot looked at: it must be
    /// one that a device has. The portion then goes into the store of the slot at
    /// `offset`, and the chain ends with it. Outside a session the transcript takes the
    /// request and then the response as far as it was read; where they do not fit, the
    /// portion is refused and nothing is kept.
    pub open spec fn spec_of(
        version: SpdmVersion,
        slot: Option<SpdmCertChain>,
        message_b: Seq<u8>,
        in_session: bool,
        slot_id: u8,
        total_size: u16,
        offset: u16,
        length: u16,
        send: Seq<u8>,
        response: Seq<u8>,
    ) -> SpdmResult<SpdmCertificatePortionAccepted> {
        match SpdmResponseClass::spec_of(
            version,
            SpdmRequestResponseCode::SpdmResponseCertificate,
            response,
        ) {
            SpdmResponseClass::Rejected(e) => Err(e),
            SpdmResponseClass::PeerError => Err(SpdmStatus::ErrorPeer),
            SpdmResponseClass::Expected => match SpdmCertificateResponse::spec_read(
                response.subrange(2, response.len() as int),
            ) {
                None => Err(SpdmStatus::InvalidMsgField),
                Some((cert, body_len)) => match cert.spec_check(
                    slot is Some,
                    slot_id,
                    total_size,
                    offset,
                    length,
                ) {
                    Err(e) => Err(e),
                    Ok((portion_length, remainder_length)) => {
                        let recorded = send + response.subrange(0, (2 + body_len) as int);
                        if !in_session && ManagedBuffer::spec_append(message_b, recorded) is None {
                            Err(SpdmStatus::BufferFull)
                        } else {
                            Ok(
                                SpdmCertificatePortionAccepted {
                                    portion_length,
                                    remainder_length,
                                    chain_data: SpdmCertChainData::spec_put_portion(
                                        match slot {
                                            Some(chain) => chain.cert_chain.data@,
                                            None => SpdmCertChainData::spec_blank_data(),
                                        },
                                        offset as int,
                                        cert.cert_chain,
                                    ),
                                    chain_size: (offset + portion_length) as u16,
                                    message_b: if in_session {
                                        message_b
                                    } else {
                                        message_b + recorded
                                    },
                                },
                            )
                        }
                    },
                },
            },
        }
    }

    /// Whether `runtime_info` and `peer_info` are what `runtime_before` and
    /// `peer_before` become when this is accepted into slot `slot_id`: the slot holds
    /// the store, the transcript is the longer one, and nothing else has changed.
    pub open spec fn spec_held_by(
        self,
        runtime_info: SpdmRuntimeInfo,
        peer_info: SpdmPeerInfo,
        runtime_before: SpdmRuntimeInfo,
        peer_before: SpdmPeerInfo,
        slot_id: u8,
    ) -> bool {
        &&& runtime_info.message_b@ == self.message_b
        &&& runtime_info.message_a == runtime_before.message_a
        &&& runtime_info.message_c == runtime_before.message_c
        &&& runtime_info.message_m == runtime_before.message_m
        &&& runtime_info.need_measurement_signature == runtime_before.need_measurement_signature
        &&& runtime_info.peer_used_cert_chain_slot_id == runtime_before.peer_used_cert_chain_slot_id
        &&& runtime_info.content_changed == runtime_before.content_changed
        &&& peer_info.peer_cert_chain@[slot_id as int] matches Some(chain)
        &&& peer_info.peer_cert_chain@[slot_id as int]->0.cert_chain.data@ == self.chain_data
        &&& peer_info.peer_cert_chain@[slot_id as int]->0.cert_chain.data_size == self.chain_size
        &&& forall|i: int|
            0 <= i < SPDM_MAX_SLOT_NUMBER && i != slot_id ==> peer_info.peer_cert_chain@[i]
                == peer_before.peer_cert_chain@[i]
    }
}

/// What an accepted portion always comes to: it is no longer than what was asked for and
/// ends within the store; the chain in the slot ends with it, and holds it where it was
/// asked for; where the size of the whole chain was known, the portion and what follows
/// it end there. Outside a session the transcript grows by exactly the request and the
/// part of the response that was read; within one it stays as it is.
pub proof fn lemma_certificate_portion_accepted(
    version: SpdmVersion,
    slot: Option<SpdmCertChain>,
    message_b: Seq<u8>,
    in_session: bool,
    slot_id: u8,
    total_size: u16,
    offset: u16,
    length: u16,
    send: Seq<u8>,
    response: Seq<u8>,
)
    requires
        SpdmCertificatePortionAccepted::spec_of(
            version,
            slot,
            message_b,
            in_session,
            slot_id,
            total_size,
            offset,
            length,
            send,
            response,
        ) is Ok,
    ensures
        ({
            let accepted = SpdmCertificatePortionAccepted::spec_of(
                version,
                slot,
                message_b,
                in_session,
                slot_id,
                total_size,
                offset,
                length,
                send,
                response,
            )->Ok_0;
            let body = SpdmCertificateResponse::spec_read(
                response.subrange(2, response.len() as int),
            )->0;
            &&& accepted.portion_length <= length
            &&& offset + accepted.portion_length <= MAX_SPDM_CERT_CHAIN_DATA_SIZE
            &&& accepted.chain_size == offset + accepted.portion_length
            &&& total_size != 0 ==> total_size == offset + accepted.portion_length
                + accepted.remainder_length
            &&& slot is None ==> offset == 0
            &&& body.0.slot_id == slot_id
            &&& 2 + body.1 <= response.len()
            &&& accepted.chain_data.len() == match slot {
                Some(chain) => chain.cert_chain.data@.len(),
                None => MAX_SPDM_CERT_CHAIN_DATA_SIZE as nat,
            }
            &&& in_session ==> accepted.message_b == message_b
            &&& !in_session ==> accepted.message_b == message_b + send + response.subrange(
                0,
                (2 + body.1) as int,
            ) && accepted.message_b.len() == message_b.len() + send.len() + 2 + body.1
                && accepted.message_b.len() <= MAX_SPDM_MESSAGE_BUFFER_SIZE
            &&& message_b.is_prefix_of(accepted.message_b)
        }),
{
    let body = SpdmCertificateResponse::spec_read(response.subrange(2, response.len() as int))->0;
    let recorded = send + response.subrange(0, (2 + body.1) as int);
    assert(message_b + recorded =~= message_b + send + response.subrange(0, (2 + body.1) as int));
    assert((message_b + recorded).subrange(0, message_b.len() as int) =~= message_b);
}

/// A CERTIFICATE whose portion is longer than what was asked for, or reaches beyond the
/// store of a chain, is refused as a bad field, whatever else it says and whatever the
/// requester holds.
pub proof fn lemma_certificate_portion_out_of_bounds(
    version: SpdmVersion,
    slot: Option<SpdmCertChain>,
    message_b: Seq<u8>,
    in_session: bool,
    slot_id: u8,
    total_size: u16,
    offset: u16,
    length: u16,
    send: Seq<u8>,
    response: Seq<u8>,
)
    requires
        SpdmResponseClass::spec_of(
            version,
            SpdmRequestResponseCode::SpdmResponseCertificate,
            response,
        ) is Expected,
        SpdmCertificateResponse::spec_read(response.subrange(2, response.len() as int)) matches Some(
            body,
        ) && (body.0.portion_length > length || offset + body.0.portion_length
            > MAX_SPDM_CERT_CHAIN_DATA_SIZE),
    ensures
        SpdmCertificatePortionAccepted::spec_of(
            version,
            slot,
            message_b,
            in_session,
            slot_id,
            total_size,
            offset,
            length,
            send,
            response,
        ) == Err::<SpdmCertificatePortionAccepted, SpdmStatus>(SpdmStatus::InvalidMsgField),
{
}

/// What a fetch does with the lengths that an accepted portion announced, where the
/// size of the whole chain was known as `total_size` (0: not yet) and the portion was
/// asked for at `offset`: how the fetch goes on, or why it ends.
///
/// A portion of no bytes with more to come is a bad field, for the fetch would make no
/// progress; so is a first portion that, with what follows it, is longer than a chain
/// can say it is, and a portion that ends beyond the store of a chain. Else the size
/// of the whole chain is what it was known as, or what the first portion and what
/// follows it come to; the next portion is asked for where this one ended; and as
/// many bytes are asked for as follow, but no more than one message may carry. No
/// bytes to ask for ends the fetch.
pub open spec fn spec_certificate_step(
    total_size: u16,
    offset: u16,
    portion_length: u16,
    remainder_length: u16,
) -> SpdmResult<(u16, u16, u16)> {
    if portion_length == 0 && remainder_length != 0 {
        Err(SpdmStatus::InvalidMsgField)
    } else if total_size == 0 && portion_length + remainder_length > 0xFFFF {
        Err(SpdmStatus::InvalidMsgField)
    } else if offset + portion_length > MAX_SPDM_CERT_CHAIN_DATA_SIZE {
        Err(SpdmStatus::InvalidMsgField)
    } else {
        Ok(
            (
                if total_size == 0 {
                    (portion_length + remainder_length) as u16
                } else {
                    total_size
                },
                (offset + portion_length) as u16,
                if remainder_length > MAX_SPDM_CERT_PORTION_LEN {
                    MAX_SPDM_CERT_PORTION_LEN as u16
                } else {
                    remainder_length
                },
            ),
        )
    }
}

/// What a fetch does with the lengths that an accepted portion announced: the size of
/// the whole chain, and the offset and the length to ask for next; see
/// `spec_certificate_step`.
pub fn certificate_step(
    total_size: u16,
    offset: u16,
    portion_length: u16,
    remainder_length: u16,
) -> (r: SpdmResult<(u16, u16, u16)>)
    ensures
        r == spec_certificate_step(total_size, offset, portion_length, remainder_length),
{
    if portion_length == 0 && remainder_length != 0 {
        return Err(SpdmStatus::InvalidMsgField);
    }
    let whole: u32 = portion_length as u32 + remainder_length as u32;
    if total_size == 0 && whole > 0xFFFF {
        return Err(SpdmStatus::InvalidMsgField);
    }
    let end: u32 = offset as u32 + portion_length as u32;
    if end as usize > MAX_SPDM_CERT_CHAIN_DATA_SIZE {
        return Err(SpdmStatus::InvalidMsgField);
    }
    let total: u16 = if total_size == 0 {
        whole as u16
    } else {
        total_size
    };
    let length: u16 = if remainder_length as usize > MAX_SPDM_CERT_PORTION_LEN {
        MAX_SPDM_CERT_PORTION_LEN as u16
    } else {
        remainder_length
    };
    Ok((total, end as u16, length))
}

/// What a fetch that has nothing more to ask for makes of the size `total_size` that
/// the responder announced for the whole chain: a chain of no bytes is an invalid
/// certificate, and is not looked at any further.
pub open spec fn spec_certificate_announced(total_size: u16) -> SpdmResult {
    if total_size == 0 {
        Err(SpdmStatus::InvalidCert)
    } else {
        Ok(())
    }
}

/// What a fetch that has nothing more to ask for makes of the announced size: see
/// `spec_certificate_announced`.
pub fn certificate_announced(total_size: u16) -> (r: SpdmResult)
    ensures
        r == spec_certificate_announced(total_size),
{
    if total_size == 0 {
        Err(SpdmStatus::InvalidCert)
    } else {
        Ok(())
    }
}

/// One round of a fetch: what was asked for, and what came of it.
pub struct SpdmCertificateRound {
    /// The size of the whole chain as it was known before the round; 0: not yet.
    pub total_size: u16,
    /// Where the portion was asked for.
    pub offset: u16,
    /// How many bytes were asked for.
    pub length: u16,
    /// The lengths of the portion and of what follows it, or why the round failed.
    pub exchanged: SpdmResult<(u16, u16)>,
    /// The CERTIFICATE that was accepted, where one was.
    pub response: Seq<u8>,
}

impl SpdmCertificateRound {
    /// What the fetch does after the round: the step that follows the portion which
    /// the round brought, or the error of the round.
    pub open spec fn spec_step(self) -> SpdmResult<(u16, u16, u16)> {
        match self.exchanged {
            Ok(lengths) => spec_certificate_step(
                self.total_size,
                self.offset,
                lengths.0,
                lengths.1,
            ),
            Err(e) => Err(e),
        }
    }

    /// The size of the whole chain and the offset and the length of the round that
    /// follows this one, where one follows.
    pub open spec fn spec_next(self) -> Option<(u16, u16, u16)> {
        match self.exchanged {
            Ok((portion_length, remainder_length)) => match spec_certificate_step(
                self.total_size,
                self.offset,
                portion_length,
                remainder_length,
            ) {
                Ok(next) => if next.2 != 0 {
                    Some(next)
                } else {
                    None
                },
                Err(_) => None,
            },
            Err(_) => None,
        }
    }

    /// The error with which a fetch ends whose last round is this one, where the round
    /// decides it: the error of the round itself, the error of the step after it, or
    /// that of a chain of no bytes. Where the round decides nothing, the fetch ends as
    /// anchoring the chain does.
    pub open spec fn spec_verdict(self) -> Option<SpdmStatus> {
        match self.exchanged {
            Err(e) => Some(e),
            Ok((portion_length, remainder_length)) => match spec_certificate_step(
                self.total_size,
                self.offset,
                portion_length,
                remainder_length,
            ) {
                Err(e) => Some(e),
                Ok(next) => match spec_certificate_announced(next.0) {
                    Err(e) => Some(e),
                    Ok(_) => None,
                },
            },
        }
    }

    /// Where the chain ends after the round: where the portion that it brought ends,
    /// or where it was asked for, if it brought none.
    pub open spec fn spec_end(self) -> int {
        match self.exchanged {
            Ok(lengths) => self.offset + lengths.0,
            Err(_) => self.offset as int,
        }
    }

    /// The request of the round on the wire.
    pub open spec fn spec_request(self, version: SpdmVersion, slot_id: u8) -> Seq<u8> {
        (SpdmGetCertificateRequestPayload {
            slot_id,
            offset: self.offset,
            length: self.length,
        }).spec_message(version)
    }

    /// How many bytes of the response the body of the CERTIFICATE takes up.
    pub open spec fn spec_body_len(self) -> int {
        match SpdmCertificateResponse::spec_read(
            self.response.subrange(2, self.response.len() as int),
        ) {
            Some(body) => body.1 as int,
            None => 0,
        }
    }

    /// What the round adds to the transcript of digests and certificate outside a
    /// session: its request and its response as far as it was read, where it brought
    /// a portion; else nothing.
    pub open spec fn spec_recorded(self, version: SpdmVersion, slot_id: u8) -> Seq<u8> {
        match self.exchanged {
            Ok(_) => self.spec_request(version, slot_id) + self.response.subrange(
                0,
                2 + self.spec_body_len(),
            ),
            Err(_) => Seq::empty(),
        }
    }

    /// The bytes of the portion that the round brought; none where it brought no
    /// portion.
    #[verifier::opaque]
    pub open spec fn spec_portion(self) -> Seq<u8> {
        match self.exchanged {
            Ok(_) => match SpdmCertificateResponse::spec_read(
                self.response.subrange(2, self.response.len() as int),
            ) {
                Some(body) => body.0.cert_chain,
                None => Seq::empty(),
            },
            Err(_) => Seq::empty(),
        }
    }

    /// Whether a round that brought a portion was answered by its response, and the
    /// chain `chain` holds the portion where it was asked for: the response is a
    /// CERTIFICATE in `version` for slot `slot_id` with the lengths of the round, the
    /// portion is no longer than what was asked for, it and what follows it end where
    /// the chain was known to end, and the bytes of `chain` from the offset of the
    /// round on are the bytes that the response carries.
    pub open spec fn spec_answered(self, version: SpdmVersion, slot_id: u8, chain: Seq<u8>) -> bool {
        self.exchanged matches Ok(lengths) ==> {
            &&& SpdmResponseClass::spec_of(
                version,
                SpdmRequestResponseCode::SpdmResponseCertificate,
                self.response,
            ) is Expected
            &&& (SpdmCertificateResponse::spec_read(
                self.response.subrange(2, self.response.len() as int),
            ) matches Some(body) && body.0 == (SpdmCertificateResponse {
                slot_id,
                portion_length: lengths.0,
                remainder_length: lengths.1,
                cert_chain: chain.subrange(self.offset as int, self.offset + lengths.0),
            }))
            &&& lengths.0 <= self.length
            &&& self.total_size != 0 ==> self.total_size == self.offset + lengths.0 + lengths.1
            &&& self.offset + lengths.0 <= chain.len()
        }
    }
}

/// What the rounds `rounds` add to the transcript of digests and certificate outside a
/// session: for each round that brought a portion, in their order, the request of the
/// round and its response as far as it was read.
pub open spec fn spec_rounds_recorded(
    rounds: Seq<SpdmCertificateRound>,
    version: SpdmVersion,
    slot_id: u8,
) -> Seq<u8>
    decreases rounds.len(),
{
    if rounds.len() == 0 {
        Seq::empty()
    } else {
        spec_rounds_recorded(rounds.drop_last(), version, slot_id) + rounds.last().spec_recorded(
            version,
            slot_id,
        )
    }
}

/// Whether `rounds` are the rounds of one fetch, from its first to its last: the first
/// asks for as many bytes as one message may carry from the start of a chain whose
/// size is not known; each round but the last is followed by the round that
/// `spec_certificate_step` gives; and after the last none follows.
pub open spec fn spec_certificate_rounds(rounds: Seq<SpdmCertificateRound>) -> bool {
    &&& rounds.len() >= 1
    &&& rounds[0].total_size == 0
    &&& rounds[0].offset == 0
    &&& rounds[0].length == MAX_SPDM_CERT_PORTION_LEN
    &&& forall|k: int|
        0 <= k < rounds.len() - 1 ==> (#[trigger] rounds[k]).spec_next() == Some(
            (rounds[k + 1].total_size, rounds[k + 1].offset, rounds[k + 1].length),
        )
    &&& rounds.last().spec_next() is None
}

/// The bytes of the portions that `rounds` brought, in their order.
pub open spec fn spec_rounds_portions(rounds: Seq<SpdmCertificateRound>) -> Seq<u8>
    decreases rounds.len(),
{
    if rounds.len() == 0 {
        Seq::empty()
    } else {
        spec_rounds_portions(rounds.drop_last()) + rounds.last().spec_portion()
    }
}

/// The size of the whole chain that the first round of `rounds` learnt: what its
/// portion and what follows it come to; 0 where it brought no portion.
pub open spec fn spec_rounds_total(rounds: Seq<SpdmCertificateRound>) -> int {
    match rounds[0].exchanged {
        Ok(lengths) => lengths.0 + lengths.1,
        Err(_) => 0,
    }
}

/// Whether the round `next` goes on where the round `round` ended: `round` brought a
/// portion, and `next` asks where that portion ends, for as many bytes as `round` left
/// to come, but no more than one message may carry; and `next` knows the size of the
/// whole chain, as `round` knew it or as the lengths of `round` give it.
pub open spec fn spec_round_followed(round: SpdmCertificateRound, next: SpdmCertificateRound) -> bool {
    &&& next.offset == round.spec_end()
    &&& next.total_size != 0
    &&& round.exchanged matches Ok(lengths) && next.total_size == (if round.total_size == 0 {
        lengths.0 + lengths.1
    } else {
        round.total_size as int
    }) && next.length == (if lengths.1 > MAX_SPDM_CERT_PORTION_LEN {
        MAX_SPDM_CERT_PORTION_LEN as int
    } else {
        lengths.1 as int
    })
}

/// Whether the portion that the round `round` brought lies in `chain` where the round
/// asked for it.
pub open spec fn spec_round_held(round: SpdmCertificateRound, chain: Seq<u8>) -> bool {
    &&& round.exchanged is Ok ==> round.spec_end() <= chain.len() && round.spec_portion()
        == chain.subrange(round.offset as int, round.spec_end())
    &&& round.exchanged is Err ==> round.spec_portion() == Seq::<u8>::empty()
}

/// The round that a step gives goes on where the round before it ended.
pub proof fn lemma_round_followed(round: SpdmCertificateRound, next: SpdmCertificateRound)
    requires
        round.spec_next() == Some((next.total_size, next.offset, next.length)),
    ensures
        spec_round_followed(round, next),
{
}

/// The portion of a round that the chain `chain` answers lies in `chain` where the
/// round asked for it.
pub proof fn lemma_round_held(
    round: SpdmCertificateRound,
    version: SpdmVersion,
    slot_id: u8,
    chain: Seq<u8>,
)
    requires
        round.spec_answered(version, slot_id, chain),
    ensures
        spec_round_held(round, chain),
{
    reveal(SpdmCertificateRound::spec_portion);
}

/// The first `n` of rounds that each go on where the round before ended brought the
/// chain `chain` from its start to where the last of them ends, portion after portion
/// with no gap and no overlap; the round after them asks where they end; and every
/// round but the first knows the size of the whole chain as the first round learnt
/// it.
pub proof fn lemma_rounds_portions(rounds: Seq<SpdmCertificateRound>, chain: Seq<u8>, n: int)
    requires
        0 <= n <= rounds.len(),
        rounds.len() >= 1,
        rounds[0].total_size == 0,
        rounds[0].offset == 0,
        forall|k: int|
            0 <= k < rounds.len() - 1 ==> spec_round_followed(#[trigger] rounds[k], rounds[k + 1]),
        forall|k: int| 0 <= k < rounds.len() ==> spec_round_held(#[trigger] rounds[k], chain),
    ensures
        n < rounds.len() ==> rounds[n].offset == spec_rounds_portions(rounds.take(n)).len(),
        0 < n < rounds.len() ==> rounds[n].total_size == spec_rounds_total(rounds)
            && rounds[n].total_size != 0,
        n > 0 ==> 0 <= rounds[n - 1].spec_end() <= chain.len() && spec_rounds_portions(
            rounds.take(n),
        ) == chain.subrange(0, rounds[n - 1].spec_end()),
    decreases n,
{
    if n == 0 {
        assert(rounds.take(0).len() == 0);
    } else {
        lemma_rounds_portions(rounds, chain, n - 1);
        let round = rounds[n - 1];
        let earlier = spec_rounds_portions(rounds.take(n - 1));
        let end = round.spec_end();
        assert(rounds.take(n).drop_last() =~= rounds.take(n - 1));
        assert(rounds.take(n).last() == round);
        assert(spec_rounds_portions(rounds.take(n)) == earlier + round.spec_portion());
        assert(round.offset == earlier.len());
        assert(spec_round_held(round, chain));
        assert(0 <= round.offset <= chain.len() && earlier == chain.subrange(
            0,
            round.offset as int,
        )) by {
            if n - 1 > 0 {
                assert(spec_round_followed(rounds[n - 2], rounds[n - 2 + 1]));
            } else {
                assert(earlier =~= chain.subrange(0, 0));
            }
        }
        if round.exchanged is Ok {
            assert(chain.subrange(0, round.offset as int) + chain.subrange(round.offset as int, end)
                =~= chain.subrange(0, end));
        } else {
            assert(earlier + Seq::<u8>::empty() =~= earlier);
        }
        if n < rounds.len() {
            assert(spec_round_followed(rounds[n - 1], rounds[n - 1 + 1]));
        }
    }
}

/// What anchoring a chain comes to, once the digest of its root certificate is known:
/// the digest must be the one that the chain carries, and where certificates were
/// provisioned for the peer, the certificates of the chain must be, byte for byte, the
/// provisioned ones.
pub open spec fn spec_anchor_cert_chain(
    stored_root_hash: Seq<u8>,
    root_hash: Seq<u8>,
    runtime_chain: Seq<u8>,
    provisioned_chain: Option<Seq<u8>>,
) -> SpdmResult {
    if root_hash != stored_root_hash {
        Err(SpdmStatus::InvalidCert)
    } else if provisioned_chain is Some && provisioned_chain != Some(runtime_chain) {
        Err(SpdmStatus::InvalidCert)
    } else {
        Ok(())
    }
}

/// Hold a chain against its anchor. A digest of the root certificate that differs from
/// the one the chain carries is an invalid certificate, and so is a chain that
/// differs, in length or in any byte, from the provisioned one.
pub fn anchor_cert_chain(
    stored_root_hash: &[u8],
    root_hash: &[u8],
    runtime_chain: &[u8],
    provisioned_chain: Option<&[u8]>,
) -> (r: SpdmResult)
    ensures
        r == spec_anchor_cert_chain(
            stored_root_hash@,
            root_hash@,
            runtime_chain@,
            match provisioned_chain {
                Some(p) => Some(p@),
                None => None,
            },
        ),
        root_hash@ != stored_root_hash@ ==> r == Err::<(), SpdmStatus>(SpdmStatus::InvalidCert),
        provisioned_chain matches Some(p) ==> (runtime_chain@ != p@ ==> r == Err::<(), SpdmStatus>(
            SpdmStatus::InvalidCert,
        )),
{
    if !bytes_equal(root_hash, stored_root_hash) {
        return Err(SpdmStatus::InvalidCert);
    }
    match provisioned_chain {
        Some(p) => {
            if !bytes_equal(runtime_chain, p) {
                return Err(SpdmStatus::InvalidCert);
            }
        },
        None => {},
    }
    Ok(())
}

impl<'a, D: SpdmDeviceIo, T: SpdmTransportEncap> RequesterContext<'a, D, T> {
    /// Ask for `length` bytes at `offset` of the chain in slot `slot_id`, and handle
    /// what comes back.
    fn send_receive_spdm_certificate_partial(
        &mut self,
        session_id: Option<u32>,
        slot_id: u8,
        total_size: u16,
        offset: u16,
        length: u16,
    ) -> (r: SpdmResult<(u16, u16)>)
        ensures
            final(self).spec_certificate_frame(*old(self), session_id, slot_id),
            slot_id >= SPDM_MAX_SLOT_NUMBER ==> r is Err,
            r is Err ==> final(self).common.runtime_info == old(self).common.runtime_info
                && final(self).common.peer_info == old(self).common.peer_info,
            r matches Ok(p) ==> final(self).spec_portion_stored(
                *old(self),
                session_id,
                slot_id,
                total_size,
                offset,
                length,
                p,
            ),
            r matches Ok(p) ==> final(self).spec_certificate_accepted(
                *old(self),
                session_id,
                slot_id,
                total_size,
                offset,
                length,
                p,
            ),
            r matches Ok(p) ==> exists|response: Seq<u8>| #[trigger]
                final(self).spec_portion_answered(
                    *old(self),
                    session_id,
                    slot_id,
                    total_size,
                    offset,
                    length,
                    p,
                    response,
                ),
    {
        let mut send_buffer = [0u8; MAX_SPDM_MESSAGE_BUFFER_SIZE];
        let ghost version = self.common.negotiate_info.spdm_version_sel;
        let ghost message = (SpdmGetCertificateRequestPayload {
            slot_id,
            offset,
            length,
        }).spec_message(version);
        let send_used = self.encode_spdm_certificate_partial(slot_id, offset, length, &mut send_buffer);
        if send_used == 0 {
            return Err(SpdmStatus::BufferFull);
        }
        let request = slice_range(&send_buffer, 0, send_used);
        assert(request@ =~= message);
        let response = self.send_receive(session_id, request)?;
        let ghost middle = *self;
        let r = self.handle_spdm_certificate_partial_response(
            session_id,
            slot_id,
            total_size,
            (offset, length),
            request,
            response.as_slice(),
        );
        proof {
            if r is Ok {
                let lengths = r->Ok_0;
                let answer = choose|answer: Seq<u8>|
                    #![trigger SpdmCertificatePortionAccepted::spec_of(
                        middle.common.negotiate_info.spdm_version_sel,
                        middle.common.peer_info.peer_cert_chain@[slot_id as int],
                        middle.common.runtime_info.message_b@,
                        session_id is Some,
                        slot_id,
                        total_size,
                        offset,
                        length,
                        request@,
                        answer,
                    )]
                    self.spec_certificate_accepted_as(
                        middle,
                        session_id,
                        slot_id,
                        total_size,
                        offset,
                        length,
                        lengths,
                        request@,
                        answer,
                    );
                assert(self.spec_portion_answered(
                    *old(self),
                    session_id,
                    slot_id,
                    total_size,
                    offset,
                    length,
                    lengths,
                    answer,
                ));
            }
        }
        r
    }

    /// Whether the requester has come from `before` by accepting `response` to its
    /// request for `length` bytes at `offset` of the chain in slot `slot_id`, with the
    /// lengths `lengths`.
    pub open spec fn spec_portion_answered(
        self,
        before: Self,
        session_id: Option<u32>,
        slot_id: u8,
        total_size: u16,
        offset: u16,
        length: u16,
        lengths: (u16, u16),
        response: Seq<u8>,
    ) -> bool {
        &&& slot_id < SPDM_MAX_SLOT_NUMBER
        &&& self.spec_certificate_accepted_as(
            before,
            session_id,
            slot_id,
            total_size,
            offset,
            length,
            lengths,
            (SpdmGetCertificateRequestPayload { slot_id, offset, length }).spec_message(
                before.common.negotiate_info.spdm_version_sel,
            ),
            response,
        )
    }

    /// The bytes of the chain in slot `slot_id`; none where the slot holds nothing.
    pub open spec fn spec_chain_bytes(self, slot_id: u8) -> Seq<u8> {
        match self.common.peer_info.peer_cert_chain@[slot_id as int] {
            Some(chain) => chain.cert_chain.spec_bytes(),
            None => Seq::empty(),
        }
    }

    /// What a requester that has accepted a portion holds: the chain in the slot ends
    /// with the portion, holds the bytes that the response carries where they were
    /// asked for, and holds before them what it held; and outside a session the
    /// transcript has grown by the request and by the response as far as it was read.
    pub proof fn lemma_portion_answered(
        self,
        before: Self,
        session_id: Option<u32>,
        slot_id: u8,
        total_size: u16,
        offset: u16,
        length: u16,
        lengths: (u16, u16),
        response: Seq<u8>,
    )
        requires
            self.spec_portion_answered(
                before,
                session_id,
                slot_id,
                total_size,
                offset,
                length,
                lengths,
                response,
            ),
        ensures
            (SpdmCertificateRound {
                total_size,
                offset,
                length,
                exchanged: Ok(lengths),
                response,
            }).spec_answered(
                before.common.negotiate_info.spdm_version_sel,
                slot_id,
                self.spec_chain_bytes(slot_id),
            ),
            self.common.peer_info.peer_cert_chain@[slot_id as int] is Some,
            self.spec_chain_bytes(slot_id).len() == offset + lengths.0,
            offset + lengths.0 <= MAX_SPDM_CERT_CHAIN_DATA_SIZE,
            before.common.peer_info.peer_cert_chain@[slot_id as int] matches Some(held) && offset
                <= held.cert_chain.data_size <= MAX_SPDM_CERT_CHAIN_DATA_SIZE
                ==> self.spec_chain_bytes(slot_id).subrange(0, offset as int)
                == before.spec_chain_bytes(slot_id).subrange(0, offset as int),
            before.common.peer_info.peer_cert_chain@[slot_id as int] is None ==> offset == 0,
            self.common.runtime_info.message_b@ == before.common.runtime_info.message_b@ + if session_id is None {
                (SpdmCertificateRound {
                    total_size,
                    offset,
                    length,
                    exchanged: Ok(lengths),
                    response,
                }).spec_recorded(before.common.negotiate_info.spdm_version_sel, slot_id)
            } else {
                Seq::<u8>::empty()
            },
    {
        let version = before.common.negotiate_info.spdm_version_sel;
        let send = (SpdmGetCertificateRequestPayload { slot_id, offset, length }).spec_message(
            version,
        );
        let slot = before.common.peer_info.peer_cert_chain@[slot_id as int];
        lemma_certificate_portion_accepted(
            version,
            slot,
            before.common.runtime_info.message_b@,
            session_id is Some,
            slot_id,
            total_size,
            offset,
            length,
            send,
            response,
        );
        let accepted = SpdmCertificatePortionAccepted::spec_of(
            version,
            slot,
            before.common.runtime_info.message_b@,
            session_id is Some,
            slot_id,
            total_size,
            offset,
            length,
            send,
            response,
        )->Ok_0;
        let read = SpdmCertificateResponse::spec_read(response.subrange(2, response.len() as int))->0;
        let body = read.0;
        let now = self.common.peer_info.peer_cert_chain@[slot_id as int]->0.cert_chain;
        let bytes = self.spec_chain_bytes(slot_id);
        assert(now.data@ == accepted.chain_data);
        assert(bytes =~= now.data@.subrange(0, offset + lengths.0));
        assert(body.cert_chain.len() == lengths.0);
        assert(bytes.subrange(offset as int, offset + lengths.0) =~= body.cert_chain);
        assert(body == (SpdmCertificateResponse {
            slot_id,
            portion_length: lengths.0,
            remainder_length: lengths.1,
            cert_chain: bytes.subrange(offset as int, offset + lengths.0),
        }));
        assert(before.common.runtime_info.message_b@ + Seq::<u8>::empty()
            =~= before.common.runtime_info.message_b@);
        assert(before.common.runtime_info.message_b@ + (send + response.subrange(
            0,
            (2 + read.1) as int,
        )) =~= before.common.runtime_info.message_b@ + send + response.subrange(
            0,
            (2 + read.1) as int,
        ));
        if slot is Some && offset <= slot->0.cert_chain.data_size <= MAX_SPDM_CERT_CHAIN_DATA_SIZE {
            assert(bytes.subrange(0, offset as int) =~= before.spec_chain_bytes(slot_id).subrange(
                0,
                offset as int,
            ));
        }
    }

    /// Whether the requester is as `before` outside of what fetching a portion into
    /// slot `slot_id` may touch: the transcript of digests and certificate, the chain
    /// in the slot, and the sequence numbers of the session that carries the exchange.
    pub open spec fn spec_certificate_frame(
        self,
        before: Self,
        session_id: Option<u32>,
        slot_id: u8,
    ) -> bool {
        &&& self.common.crypto == before.common.crypto
        &&& self.common.config_info == before.common.config_info
        &&& self.common.negotiate_info == before.common.negotiate_info
        &&& self.common.provision_info == before.common.provision_info
        &&& self.common.spec_sessions_carried_on(before.common)
        &&& session_id is None ==> self.common.session == before.common.session
        &&& self.common.runtime_info.message_a == before.common.runtime_info.message_a
        &&& self.common.runtime_info.message_c == before.common.runtime_info.message_c
        &&& self.common.runtime_info.message_m == before.common.runtime_info.message_m
        &&& self.common.runtime_info.need_measurement_signature
            == before.common.runtime_info.need_measurement_signature
        &&& self.common.runtime_info.peer_used_cert_chain_slot_id
            == before.common.runtime_info.peer_used_cert_chain_slot_id
        &&& self.common.runtime_info.content_changed == before.common.runtime_info.content_changed
        &&& forall|i: int|
            0 <= i < SPDM_MAX_SLOT_NUMBER && i != slot_id
                ==> self.common.peer_info.peer_cert_chain@[i]
                == before.common.peer_info.peer_cert_chain@[i]
    }

    /// Whether a portion with the lengths `lengths`, asked for as `length` bytes at
    /// `offset`, has gone into slot `slot_id` since `before`: the portion is no longer
    /// than what was asked for, it and what follows it end where the chain is known to
    /// end, the chain in the slot ends with it within the store, and the transcript of
    /// digests and certificate has only grown, and not at all within a session.
    pub open spec fn spec_portion_stored(
        self,
        before: Self,
        session_id: Option<u32>,
        slot_id: u8,
        total_size: u16,
        offset: u16,
        length: u16,
        lengths: (u16, u16),
    ) -> bool {
        &&& slot_id < SPDM_MAX_SLOT_NUMBER
        &&& lengths.0 <= length
        &&& total_size != 0 ==> total_size == offset + lengths.0 + lengths.1
        &&& before.common.peer_info.peer_cert_chain@[slot_id as int] is None ==> offset == 0
        &&& offset + lengths.0 <= MAX_SPDM_CERT_CHAIN_DATA_SIZE
        &&& self.common.peer_info.peer_cert_chain@[slot_id as int] matches Some(chain)
        &&& self.common.peer_info.peer_cert_chain@[slot_id as int]->0.cert_chain.data_size
            == offset + lengths.0
        &&& before.common.runtime_info.message_b@.is_prefix_of(self.common.runtime_info.message_b@)
        &&& session_id is Some ==> self.common.runtime_info.message_b@
            == before.common.runtime_info.message_b@
    }

    /// Whether the requester has come from `before` by accepting a portion with the
    /// lengths `lengths` in answer to the request for `length` bytes at `offset`: some
    /// CERTIFICATE response was accepted as `SpdmCertificatePortionAccepted::spec_of`
    /// says, after some request that asked for those bytes.
    pub open spec fn spec_certificate_accepted(
        self,
        before: Self,
        session_id: Option<u32>,
        slot_id: u8,
        total_size: u16,
        offset: u16,
        length: u16,
        lengths: (u16, u16),
    ) -> bool {
        exists|send: Seq<u8>, response: Seq<u8>|
            #![trigger SpdmCertificatePortionAccepted::spec_of(
                before.common.negotiate_info.spdm_version_sel,
                before.common.peer_info.peer_cert_chain@[slot_id as int],
                before.common.runtime_info.message_b@,
                session_id is Some,
                slot_id,
                total_size,
                offset,
                length,
                send,
                response,
            )]
            slot_id < SPDM_MAX_SLOT_NUMBER && self.spec_certificate_accepted_as(
                before,
                session_id,
                slot_id,
                total_size,
                offset,
                length,
                lengths,
                send,
                response,
            )
    }

    /// Whether the requester has come from `before` by accepting `response` to the
    /// request `send`.
    pub open spec fn spec_certificate_accepted_as(
        self,
        before: Self,
        session_id: Option<u32>,
        slot_id: u8,
        total_size: u16,
        offset: u16,
        length: u16,
        lengths: (u16, u16),
        send: Seq<u8>,
        response: Seq<u8>,
    ) -> bool {
        SpdmCertificatePortionAccepted::spec_of(
            before.common.negotiate_info.spdm_version_sel,
            before.common.peer_info.peer_cert_chain@[slot_id as int],
            before.common.runtime_info.message_b@,
            session_id is Some,
            slot_id,
            total_size,
            offset,
            length,
            send,
            response,
        ) matches Ok(accepted) && lengths == (accepted.portion_length, accepted.remainder_length)
            && accepted.spec_held_by(
            self.common.runtime_info,
            self.common.peer_info,
            before.common.runtime_info,
            before.common.peer_info,
            slot_id,
        )
    }

    /// Write the GET_CERTIFICATE request for `length` bytes at `offset` of the chain in
    /// slot `slot_id` to the start of `buf`, and say how long it is; 0 says that it did
    /// not fit, and then `buf` is as it was.
    pub fn encode_spdm_certificate_partial(
        &mut self,
        slot_id: u8,
        offset: u16,
        length: u16,
        buf: &mut [u8],
    ) -> (used: usize)
        ensures
            final(self).common.spec_same_state(old(self).common),
            ({
                let message = (SpdmGetCertificateRequestPayload {
                    slot_id,
                    offset,
                    length,
                }).spec_message(old(self).common.negotiate_info.spdm_version_sel);
                if message.len() <= old(buf)@.len() {
                    used == message.len() && final(buf)@ == message + old(buf)@.subrange(
                        message.len() as int,
                        old(buf)@.len() as int,
                    )
                } else {
                    used == 0 && final(buf)@ == old(buf)@
                }
            }),
    {
        let mut writer = Writer::init(buf.len());
        let header = SpdmMessageHeader {
            version: self.common.negotiate_info.spdm_version_sel,
            request_response_code: SpdmRequestResponseCode::SpdmRequestGetCertificate,
        };
        let payload = SpdmGetCertificateRequestPayload { slot_id, offset, length };
        if writer.left() < 8 {
            return 0;
        }
        let _ = header.encode(&mut writer);
        let _ = payload.spdm_encode(&mut writer);
        assert(writer@ =~= payload.spec_message(self.common.negotiate_info.spdm_version_sel));
        copy_to_front(buf, writer.used_slice());
        writer.used()
    }

    /// Take in `response`, which is not an ERROR, as the answer to the request
    /// `send_buffer`: what comes of it is what `SpdmCertificatePortionAccepted::spec_of`
    /// says. A response that is refused leaves the requester as it was.
    pub fn accept_certificate_portion(
        &mut self,
        session_id: Option<u32>,
        slot_id: u8,
        total_size: u16,
        offset: u16,
        length: u16,
        send_buffer: &[u8],
        response: &[u8],
    ) -> (r: SpdmResult<(u16, u16)>)
        ensures
            r matches Ok(p) ==> final(self).spec_portion_stored(
                *old(self),
                session_id,
                slot_id,
                total_size,
                offset,
                length,
                p,
            ),
            final(self).common.crypto == old(self).common.crypto,
            final(self).common.config_info == old(self).common.config_info,
            final(self).common.negotiate_info == old(self).common.negotiate_info,
            final(self).common.provision_info == old(self).common.provision_info,
            final(self).common.session == old(self).common.session,
            match SpdmCertificatePortionAccepted::spec_of(
                old(self).common.negotiate_info.spdm_version_sel,
                old(self).common.peer_info.peer_cert_chain@[slot_id as int],
                old(self).common.runtime_info.message_b@,
                session_id is Some,
                slot_id,
                total_size,
                offset,
                length,
                send_buffer@,
                response@,
            ) {
                Err(e) => r == Err::<(u16, u16), SpdmStatus>(e) && final(self).common.runtime_info
                    == old(self).common.runtime_info && final(self).common.peer_info
                    == old(self).common.peer_info,
                Ok(accepted) => r == Ok::<(u16, u16), SpdmStatus>(
                    (accepted.portion_length, accepted.remainder_length),
                ) && accepted.spec_held_by(
                    final(self).common.runtime_info,
                    final(self).common.peer_info,
                    old(self).common.runtime_info,
                    old(self).common.peer_info,
                    slot_id,
                ),
            },
    {
        let version = self.common.negotiate_info.spdm_version_sel;
        proof {
            if SpdmCertificatePortionAccepted::spec_of(
                version,
                self.common.peer_info.peer_cert_chain@[slot_id as int],
                self.common.runtime_info.message_b@,
                session_id is Some,
                slot_id,
                total_size,
                offset,
                length,
                send_buffer@,
                response@,
            ) is Ok {
                lemma_certificate_portion_accepted(
                    version,
                    self.common.peer_info.peer_cert_chain@[slot_id as int],
                    self.common.runtime_info.message_b@,
                    session_id is Some,
                    slot_id,
                    total_size,
                    offset,
                    length,
                    send_buffer@,
                    response@,
                );
            }
        }
        match classify_response(
            version,
            SpdmRequestResponseCode::SpdmResponseCertificate,
            response,
        ) {
            SpdmResponseClass::Rejected(e) => {
                return Err(e);
            },
            SpdmResponseClass::PeerError => {
                return Err(SpdmStatus::ErrorPeer);
            },
            SpdmResponseClass::Expected => {},
        }
        let mut reader = Reader::init(response);
        let ghost r0 = reader;
        assert(reader.remaining() =~= response@);
        let _ = SpdmMessageHeader::read(&mut reader);
        let ghost r2 = reader;
        proof {
            r2.lemma_advanced(r0, 2);
        }
        let certificate = match SpdmCertificateResponsePayload::spdm_read(&mut reader) {
            Some(c) => c,
            None => {
                return Err(SpdmStatus::InvalidMsgField);
            },
        };
        let used: usize = reader.used();
        let slot: usize = slot_id as usize;
        let slot_occupied: bool = slot < SPDM_MAX_SLOT_NUMBER
            && self.common.peer_info.peer_cert_chain[slot].is_some();
        let (portion_length, remainder_length) = certificate.check(
            slot_occupied,
            slot_id,
            total_size,
            offset,
            length,
        )?;
        if session_id.is_none() {
            if send_buffer.len() > MAX_SPDM_MESSAGE_BUFFER_SIZE
                || !self.common.runtime_info.message_b.has_room(send_buffer.len() + used) {
                return Err(SpdmStatus::BufferFull);
            }
        }
        let mut chain = match self.common.peer_info.peer_cert_chain[slot] {
            Some(c) => c,
            None => SpdmCertChain::default(),
        };
        chain.cert_chain.put_portion(
            offset as usize,
            slice_range(&certificate.cert_chain, 0, portion_length as usize),
        );
        self.common.peer_info.peer_cert_chain[slot] = Some(chain);
        if session_id.is_none() {
            let ghost before_b = self.common.runtime_info.message_b@;
            let _ = self.common.runtime_info.message_b.append_message(send_buffer);
            let _ = self.common.runtime_info.message_b.append_message(slice_range(response, 0, used));
            assert(self.common.runtime_info.message_b@ =~= before_b + (send_buffer@
                + response@.subrange(0, used as int)));
        }
        Ok((portion_length, remainder_length))
    }

    /// Handle `receive_buffer` as the answer to the request `send_buffer` for
    /// `param.1` bytes at `param.0` of the chain in slot `slot_id`.
    ///
    /// The response must be in the negotiated version. A CERTIFICATE response is taken
    /// in as `accept_certificate_portion` says; the slot is looked at only once the
    /// response has passed its checks, and a slot that no device has is then a fault
    /// of the caller. An ERROR
    /// response is acted on as `SpdmErrorResponseAction::spec_of` says: one that is no
    /// deferral of this request ends the exchange at once, with nothing sent and
    /// nothing changed; where the responder deferred, the requester asks again and
    /// handles what comes instead, as often as `follow_deferral` allows. Whatever else
    /// comes ends the exchange. An exchange that fails leaves the transcripts and the
    /// chains of the peer as they were.
    pub fn handle_spdm_certificate_partial_response(
        &mut self,
        session_id: Option<u32>,
        slot_id: u8,
        total_size: u16,
        param: (u16, u16),
        send_buffer: &[u8],
        receive_buffer: &[u8],
    ) -> (r: SpdmResult<(u16, u16)>)
        ensures
            final(self).spec_certificate_frame(*old(self), session_id, slot_id),
            r is Err ==> final(self).common.runtime_info == old(self).common.runtime_info
                && final(self).common.peer_info == old(self).common.peer_info,
            r matches Ok(p) ==> final(self).spec_portion_stored(
                *old(self),
                session_id,
                slot_id,
                total_size,
                param.0,
                param.1,
                p,
            ),
            SpdmResponseClass::spec_of(
                old(self).common.negotiate_info.spdm_version_sel,
                SpdmRequestResponseCode::SpdmResponseCertificate,
                receive_buffer@,
            ) is PeerError ==> (SpdmErrorResponseAction::spec_of(
                receive_buffer@,
                SpdmRequestResponseCode::SpdmRequestGetCertificate,
            ) matches SpdmErrorResponseAction::Fail(e) ==> r == Err::<(u16, u16), SpdmStatus>(e)
                && final(self).common.spec_same_state(old(self).common)),
            r matches Ok(p) ==> exists|response: Seq<u8>|
                #![trigger SpdmCertificatePortionAccepted::spec_of(
                    old(self).common.negotiate_info.spdm_version_sel,
                    old(self).common.peer_info.peer_cert_chain@[slot_id as int],
                    old(self).common.runtime_info.message_b@,
                    session_id is Some,
                    slot_id,
                    total_size,
                    param.0,
                    param.1,
                    send_buffer@,
                    response,
                )]
                final(self).spec_certificate_accepted_as(
                    *old(self),
                    session_id,
                    slot_id,
                    total_size,
                    param.0,
                    param.1,
                    p,
                    send_buffer@,
                    response,
                ),
            !(SpdmResponseClass::spec_of(
                old(self).common.negotiate_info.spdm_version_sel,
                SpdmRequestResponseCode::SpdmResponseCertificate,
                receive_buffer@,
            ) is PeerError) ==> match SpdmCertificatePortionAccepted::spec_of(
                old(self).common.negotiate_info.spdm_version_sel,
                old(self).common.peer_info.peer_cert_chain@[slot_id as int],
                old(self).common.runtime_info.message_b@,
                session_id is Some,
                slot_id,
                total_size,
                param.0,
                param.1,
                send_buffer@,
                receive_buffer@,
            ) {
                Err(e) => r == Err::<(u16, u16), SpdmStatus>(e),
                Ok(accepted) => r == Ok::<(u16, u16), SpdmStatus>(
                    (accepted.portion_length, accepted.remainder_length),
                ) && final(self).spec_certificate_accepted_as(
                    *old(self),
                    session_id,
                    slot_id,
                    total_size,
                    param.0,
                    param.1,
                    (accepted.portion_length, accepted.remainder_length),
                    send_buffer@,
                    receive_buffer@,
                ),
            },
    {
        let offset: u16 = param.0;
        let length: u16 = param.1;
        proof {
            crate::common::lemma_table_carried_on(
                self.common.session@,
                self.common.session@,
                self.common.session@,
            );
        }
        let version = self.common.negotiate_info.spdm_version_sel;
        let mut replacement: Option<Vec<u8>> = None;
        let mut retries: usize = 0;
        loop
            invariant
                offset == param.0,
                length == param.1,
                retries <= MAX_SPDM_RETRY_COUNT,
                version == old(self).common.negotiate_info.spdm_version_sel,
                self.common.spec_same_outside_sessions(old(self).common),
                self.common.spec_sessions_carried_on(old(self).common),
                session_id is None ==> self.common.session == old(self).common.session,
                replacement is None ==> retries == 0,
                replacement is Some ==> SpdmResponseClass::spec_of(
                    version,
                    SpdmRequestResponseCode::SpdmResponseCertificate,
                    receive_buffer@,
                ) is PeerError,
                replacement is Some ==> SpdmErrorResponseAction::spec_of(
                    receive_buffer@,
                    SpdmRequestResponseCode::SpdmRequestGetCertificate,
                ) is RespondIfReady,
                replacement is None ==> self.common.session == old(self).common.session,
            decreases MAX_SPDM_RETRY_COUNT - retries,
        {
            let ghost here = self.common.session@;
            let next = {
                let current: &[u8] = match &replacement {
                    Some(v) => v.as_slice(),
                    None => receive_buffer,
                };
                match classify_response(
                    version,
                    SpdmRequestResponseCode::SpdmResponseCertificate,
                    current,
                ) {
                    SpdmResponseClass::PeerError => {
                        let followed = follow_deferral(retries)?;
                        (
                            self.spdm_handle_error_response_main(
                                session_id,
                                current,
                                SpdmRequestResponseCode::SpdmRequestGetCertificate,
                            )?,
                            followed,
                        )
                    },
                    _ => {
                        let ghost before_accept = *self;
                        let r = self.accept_certificate_portion(
                            session_id,
                            slot_id,
                            total_size,
                            offset,
                            length,
                            send_buffer,
                            current,
                        );
                        return r;
                    },
                }
            };
            proof {
                crate::common::lemma_table_carried_on(
                    self.common.session@,
                    here,
                    old(self).common.session@,
                );
            }
            replacement = Some(next.0);
            retries = next.1;
        }
    }

    /// Whether the transcript of digests and certificate is that of `before` with what
    /// the rounds `rounds` add to it: outside a session the request and the response
    /// of each round that brought a portion, in their order; within a session nothing.
    pub open spec fn spec_rounds_recorded(
        self,
        before: Self,
        session_id: Option<u32>,
        slot_id: u8,
        rounds: Seq<SpdmCertificateRound>,
    ) -> bool {
        self.common.runtime_info.message_b@ == before.common.runtime_info.message_b@ + if session_id is None {
            spec_rounds_recorded(rounds, before.common.negotiate_info.spdm_version_sel, slot_id)
        } else {
            Seq::<u8>::empty()
        }
    }

    /// How long the chain in slot `slot_id` says it is; 0 where the slot holds nothing.
    pub open spec fn spec_chain_size(self, slot_id: u8) -> int {
        match self.common.peer_info.peer_cert_chain@[slot_id as int] {
            Some(chain) => chain.cert_chain.data_size as int,
            None => 0,
        }
    }

    /// Whether the requester has come from `before` by the rounds `done` of a fetch
    /// into slot `slot_id`, each of which brought a portion, and goes on with asking
    /// for `length` bytes at `offset` of a chain whose size is known as `total_size`.
    pub open spec fn spec_certificate_progress(
        self,
        before: Self,
        session_id: Option<u32>,
        slot_id: u8,
        done: Seq<SpdmCertificateRound>,
        total_size: u16,
        offset: u16,
        length: u16,
    ) -> bool {
        &&& slot_id < SPDM_MAX_SLOT_NUMBER
        &&& offset <= MAX_SPDM_CERT_CHAIN_DATA_SIZE
        &&& total_size == 0 ==> offset == 0
        &&& self.common.negotiate_info == before.common.negotiate_info
        &&& self.spec_rounds_recorded(before, session_id, slot_id, done)
        &&& done.len() == 0 ==> {
            &&& total_size == 0
            &&& offset == 0
            &&& length == MAX_SPDM_CERT_PORTION_LEN
            &&& self.common.runtime_info == before.common.runtime_info
            &&& self.common.peer_info == before.common.peer_info
        }
        &&& done.len() > 0 ==> {
            &&& done[0].total_size == 0
            &&& done[0].offset == 0
            &&& done[0].length == MAX_SPDM_CERT_PORTION_LEN
            &&& forall|k: int|
                0 <= k < done.len() - 1 ==> (#[trigger] done[k]).spec_next() == Some(
                    (done[k + 1].total_size, done[k + 1].offset, done[k + 1].length),
                )
            &&& done.last().exchanged is Ok
            &&& done.last().spec_step() == Ok::<(u16, u16, u16), SpdmStatus>(
                (total_size, offset, length),
            )
            &&& self.common.peer_info.peer_cert_chain@[slot_id as int] is Some
            &&& self.spec_chain_size(slot_id) == offset
        }
        &&& forall|k: int|
            0 <= k < done.len() ==> (#[trigger] done[k]).spec_answered(
                before.common.negotiate_info.spdm_version_sel,
                slot_id,
                self.spec_chain_bytes(slot_id),
            ) && done[k].exchanged is Ok && done[k].spec_end() <= offset && (done[k].total_size
                == 0 ==> done[k].offset == 0)
    }

    /// Whether `r` and the requester are what the fetch with the rounds `rounds` into
    /// slot `slot_id` leaves.
    ///
    /// The rounds are those of one fetch: each asks for what the round before it
    /// leaves to ask for. Where the last round failed, or the step after it, the fetch
    /// ends with that very error; a chain that was announced with no bytes is an
    /// invalid certificate; else the fetch ends as anchoring the chain does, and
    /// success says that the chain is anchored and as long as was announced. The chain
    /// in the slot ends where the last portion that came ends, and holds every portion
    /// that came where it was asked for; where not even the first round brought a
    /// portion, the transcripts and the chains of the peer are as they were.
    pub open spec fn spec_certificate_fetched(
        self,
        before: Self,
        session_id: Option<u32>,
        slot_id: u8,
        rounds: Seq<SpdmCertificateRound>,
        r: SpdmResult,
    ) -> bool {
        let last = rounds.last();
        &&& slot_id < SPDM_MAX_SLOT_NUMBER
        &&& spec_certificate_rounds(rounds)
        &&& self.spec_rounds_recorded(before, session_id, slot_id, rounds)
        &&& match last.spec_verdict() {
            Some(e) => r == Err::<(), SpdmStatus>(e),
            None => {
                &&& r is Ok ==> self.spec_chain_anchored(slot_id)
                &&& r matches Err(e) ==> e == SpdmStatus::InvalidCert || e
                    == SpdmStatus::CryptoError || e == SpdmStatus::Unsupported
                &&& last.spec_step() matches Ok(next) && self.spec_chain_size(slot_id) == next.0
            },
        }
        &&& if rounds.len() == 1 && last.exchanged is Err {
            &&& self.common.runtime_info == before.common.runtime_info
            &&& self.common.peer_info == before.common.peer_info
        } else {
            &&& self.common.peer_info.peer_cert_chain@[slot_id as int] is Some
            &&& self.spec_chain_size(slot_id) == last.spec_end()
        }
        &&& forall|k: int|
            0 <= k < rounds.len() ==> (#[trigger] rounds[k]).spec_answered(
                before.common.negotiate_info.spdm_version_sel,
                slot_id,
                self.spec_chain_bytes(slot_id),
            )
    }

    /// A fetch whose round failed ends with the rounds that brought a portion and the
    /// round that failed.
    pub proof fn lemma_fetch_round_failed(
        self,
        here: Self,
        before: Self,
        session_id: Option<u32>,
        slot_id: u8,
        done: Seq<SpdmCertificateRound>,
        total_size: u16,
        offset: u16,
        length: u16,
        e: SpdmStatus,
    )
        requires
            here.spec_certificate_progress(
                before,
                session_id,
                slot_id,
                done,
                total_size,
                offset,
                length,
            ),
            length != 0,
            self.common.runtime_info == here.common.runtime_info,
            self.common.peer_info == here.common.peer_info,
        ensures
            self.spec_certificate_fetched(
                before,
                session_id,
                slot_id,
                done.push(
                    SpdmCertificateRound {
                        total_size,
                        offset,
                        length,
                        exchanged: Err(e),
                        response: Seq::empty(),
                    },
                ),
                Err(e),
            ),
    {
        let round = SpdmCertificateRound {
            total_size,
            offset,
            length,
            exchanged: Err(e),
            response: Seq::empty(),
        };
        let rounds = done.push(round);
        assert(rounds.last() == round);
        assert(rounds.drop_last() =~= done);
        assert(spec_rounds_recorded(rounds, before.common.negotiate_info.spdm_version_sel, slot_id)
            == spec_rounds_recorded(done, before.common.negotiate_info.spdm_version_sel, slot_id)
            + round.spec_recorded(before.common.negotiate_info.spdm_version_sel, slot_id));
        assert forall|k: int| 0 <= k < rounds.len() - 1 implies (#[trigger] rounds[k]).spec_next()
            == Some((rounds[k + 1].total_size, rounds[k + 1].offset, rounds[k + 1].length)) by {
            assert(rounds[k] == done[k]);
            if k < done.len() - 1 {
                assert(rounds[k + 1] == done[k + 1]);
            } else {
                assert(rounds[k + 1] == round);
            }
        }
        assert forall|k: int| 0 <= k < rounds.len() implies (#[trigger] rounds[k]).spec_answered(
            before.common.negotiate_info.spdm_version_sel,
            slot_id,
            self.spec_chain_bytes(slot_id),
        ) by {
            if k < done.len() {
                assert(rounds[k] == done[k]);
            }
        }
        if done.len() > 0 {
            assert(rounds[0] == done[0]);
        }
    }

    /// A fetch whose round brought a portion goes on as the step after the round
    /// says, or ends with the error of the step.
    #[verifier::rlimit(40)]
    pub proof fn lemma_fetch_round_answered(
        self,
        here: Self,
        before: Self,
        session_id: Option<u32>,
        slot_id: u8,
        done: Seq<SpdmCertificateRound>,
        total_size: u16,
        offset: u16,
        length: u16,
        lengths: (u16, u16),
        response: Seq<u8>,
    )
        requires
            here.spec_certificate_progress(
                before,
                session_id,
                slot_id,
                done,
                total_size,
                offset,
                length,
            ),
            length != 0,
            self.common.negotiate_info == here.common.negotiate_info,
            self.spec_portion_answered(
                here,
                session_id,
                slot_id,
                total_size,
                offset,
                length,
                lengths,
                response,
            ),
        ensures
            ({
                let round = SpdmCertificateRound {
                    total_size,
                    offset,
                    length,
                    exchanged: Ok(lengths),
                    response,
                };
                match spec_certificate_step(total_size, offset, lengths.0, lengths.1) {
                    Err(e) => self.spec_certificate_fetched(
                        before,
                        session_id,
                        slot_id,
                        done.push(round),
                        Err(e),
                    ),
                    Ok(next) => self.spec_certificate_progress(
                        before,
                        session_id,
                        slot_id,
                        done.push(round),
                        next.0,
                        next.1,
                        next.2,
                    ),
                }
            }),
    {
        let version = before.common.negotiate_info.spdm_version_sel;
        let round = SpdmCertificateRound {
            total_size,
            offset,
            length,
            exchanged: Ok(lengths),
            response,
        };
        let rounds = done.push(round);
        self.lemma_portion_answered(
            here,
            session_id,
            slot_id,
            total_size,
            offset,
            length,
            lengths,
            response,
        );
        let chain = self.spec_chain_bytes(slot_id);
        let held = here.spec_chain_bytes(slot_id);
        let recorded_done = spec_rounds_recorded(done, version, slot_id);
        let recorded_round = round.spec_recorded(version, slot_id);
        let b0 = before.common.runtime_info.message_b@;
        assert(rounds.drop_last() =~= done);
        assert(rounds.last() == round);
        assert(spec_rounds_recorded(rounds, version, slot_id) == recorded_done + recorded_round);
        if session_id is None {
            assert(here.common.runtime_info.message_b@ == b0 + recorded_done);
            assert(self.common.runtime_info.message_b@ == here.common.runtime_info.message_b@
                + recorded_round);
            assert(b0 + recorded_done + recorded_round =~= b0 + (recorded_done + recorded_round));
        } else {
            assert(b0 + Seq::<u8>::empty() + Seq::<u8>::empty() =~= b0 + Seq::<u8>::empty());
        }
        assert(self.spec_rounds_recorded(before, session_id, slot_id, rounds));
        assert(rounds.last() == round);
        assert forall|k: int| 0 <= k < rounds.len() - 1 implies (#[trigger] rounds[k]).spec_next()
            == Some((rounds[k + 1].total_size, rounds[k + 1].offset, rounds[k + 1].length)) by {
            assert(rounds[k] == done[k]);
            if k < done.len() - 1 {
                assert(rounds[k + 1] == done[k + 1]);
            } else {
                assert(rounds[k + 1] == round);
            }
        }
        assert forall|k: int| 0 <= k < rounds.len() implies (#[trigger] rounds[k]).spec_answered(
            version,
            slot_id,
            chain,
        ) && rounds[k].exchanged is Ok && rounds[k].spec_end() <= offset + lengths.0 && (
        rounds[k].total_size == 0 ==> rounds[k].offset == 0) by {
            if k < done.len() {
                assert(rounds[k] == done[k]);
                assert(done[k].spec_answered(version, slot_id, held));
                let from = done[k].offset as int;
                let to = done[k].spec_end();
                assert(chain.subrange(0, offset as int) == held.subrange(0, offset as int));
                assert(chain.subrange(from, to) =~= chain.subrange(0, offset as int).subrange(
                    from,
                    to,
                ));
                assert(held.subrange(from, to) =~= held.subrange(0, offset as int).subrange(
                    from,
                    to,
                ));
            } else {
                assert(rounds[k] == round);
            }
        }
        if done.len() > 0 {
            assert(rounds[0] == done[0]);
        } else {
            assert(rounds[0] == round);
        }
    }

    /// A fetch that has nothing more to ask for ends with the rounds that brought a
    /// portion: with an invalid certificate where the chain was announced with no
    /// bytes, else as anchoring the chain ends.
    pub proof fn lemma_fetch_ended(
        self,
        before: Self,
        session_id: Option<u32>,
        slot_id: u8,
        done: Seq<SpdmCertificateRound>,
        total_size: u16,
        offset: u16,
        r: SpdmResult,
    )
        requires
            self.spec_certificate_progress(before, session_id, slot_id, done, total_size, offset, 0),
            match spec_certificate_announced(total_size) {
                Err(e) => r == Err::<(), SpdmStatus>(e),
                Ok(_) => {
                    &&& r is Ok ==> self.spec_chain_anchored(slot_id)
                    &&& r matches Err(e) ==> e == SpdmStatus::InvalidCert || e
                        == SpdmStatus::CryptoError || e == SpdmStatus::Unsupported
                },
            },
        ensures
            self.spec_certificate_fetched(before, session_id, slot_id, done, r),
            total_size == offset,
    {
        let last = done.last();
        let version = before.common.negotiate_info.spdm_version_sel;
        assert(done.len() > 0);
        assert(last == done[done.len() - 1]);
        assert(last.spec_answered(version, slot_id, self.spec_chain_bytes(slot_id))
            && last.exchanged is Ok && (last.total_size == 0 ==> last.offset == 0));
        let lengths = last.exchanged->Ok_0;
        assert(spec_certificate_step(last.total_size, last.offset, lengths.0, lengths.1) == Ok::<
            (u16, u16, u16),
            SpdmStatus,
        >((total_size, offset, 0u16)));
        assert(lengths.1 == 0);
        assert(offset == last.offset + lengths.0);
        assert(total_size == offset);
        assert(last.spec_next() is None);
        assert(last.spec_end() == offset);
        assert(spec_certificate_rounds(done));
        assert(last.spec_verdict() == match spec_certificate_announced(total_size) {
            Err(e) => Some(e),
            Ok(_) => None::<SpdmStatus>,
        });
        assert forall|k: int| 0 <= k < done.len() implies (#[trigger] done[k]).spec_answered(
            version,
            slot_id,
            self.spec_chain_bytes(slot_id),
        ) by {}
    }

    /// What a fetch leaves in the slot is made of the portions that came. Each round
    /// asks where the portions before it end, and for as many bytes as the round
    /// before it left to come, but no more than one message may carry. Where any
    /// portion came, the chain in the slot is, from its start to its end, the portions
    /// of the rounds in their order. After a fetch that succeeded the chain is as long
    /// as the first response announced.
    pub proof fn lemma_fetched_chain(
        self,
        before: Self,
        session_id: Option<u32>,
        slot_id: u8,
        rounds: Seq<SpdmCertificateRound>,
        r: SpdmResult,
    )
        requires
            self.spec_certificate_fetched(before, session_id, slot_id, rounds, r),
        ensures
            forall|k: int|
                0 <= k < rounds.len() ==> (#[trigger] rounds[k]).offset == spec_rounds_portions(
                    rounds.take(k),
                ).len(),
            forall|k: int|
                0 <= k < rounds.len() - 1 ==> ((#[trigger] rounds[k]).exchanged matches Ok(lengths)
                    && rounds[k + 1].length == if lengths.1 > MAX_SPDM_CERT_PORTION_LEN {
                    MAX_SPDM_CERT_PORTION_LEN as int
                } else {
                    lengths.1 as int
                }),
            rounds.len() > 1 || rounds[0].exchanged is Ok ==> self.spec_chain_bytes(slot_id).subrange(
                0,
                self.spec_chain_size(slot_id),
            ) == spec_rounds_portions(rounds),
            r is Ok ==> self.spec_chain_size(slot_id) == spec_rounds_total(rounds)
                && self.spec_chain_size(slot_id) > 0,
    {
        let version = before.common.negotiate_info.spdm_version_sel;
        let chain = self.spec_chain_bytes(slot_id);
        let count = rounds.len() as int;
        assert forall|k: int| 0 <= k < rounds.len() - 1 implies spec_round_followed(
            #[trigger] rounds[k],
            rounds[k + 1],
        ) by {
            lemma_round_followed(rounds[k], rounds[k + 1]);
        }
        assert forall|k: int| 0 <= k < rounds.len() implies spec_round_held(
            #[trigger] rounds[k],
            chain,
        ) by {
            lemma_round_held(rounds[k], version, slot_id, chain);
        }
        assert forall|k: int| 0 <= k < rounds.len() implies (#[trigger] rounds[k]).offset
            == spec_rounds_portions(rounds.take(k)).len() by {
            lemma_rounds_portions(rounds, chain, k);
        }
        lemma_rounds_portions(rounds, chain, count);
        lemma_rounds_portions(rounds, chain, count - 1);
        assert(rounds.take(count) =~= rounds);
        assert(rounds.last() == rounds[count - 1]);
    }

    /// Fetch the whole chain in slot `slot_id`, portion by portion, and anchor it.
    ///
    /// The fetch asks for as many bytes as one message may carry from the start of the
    /// chain, and after each portion goes on as `certificate_step` says, until nothing
    /// is left to ask for. A round that fails ends the fetch with its error. A chain
    /// that was announced with no bytes is an invalid certificate. Else the chain is
    /// anchored as `verify_spdm_certificate_chain` says. What comes of the fetch is
    /// what `spec_certificate_fetched` says of its rounds.
    ///
    /// Success says that the slot holds a chain that is not empty and as long as the
    /// responder announced, that it holds the portions that came in their order, and
    /// that it is anchored: where certificates were provisioned for the peer, the
    /// certificates that came are, byte for byte, the provisioned ones.
    pub fn send_receive_spdm_certificate(&mut self, session_id: Option<u32>, slot_id: u8) -> (r:
        SpdmResult)
        ensures
            final(self).spec_certificate_frame(*old(self), session_id, slot_id),
            slot_id >= SPDM_MAX_SLOT_NUMBER ==> r == Err::<(), SpdmStatus>(
                SpdmStatus::InvalidParameter,
            ) && final(self).common.spec_same_state(old(self).common),
            slot_id < SPDM_MAX_SLOT_NUMBER ==> exists|rounds: Seq<SpdmCertificateRound>| #[trigger]
                final(self).spec_certificate_fetched(*old(self), session_id, slot_id, rounds, r),
            r is Ok ==> final(self).spec_chain_anchored(slot_id),
            r is Ok ==> (final(self).common.peer_info.peer_cert_chain@[slot_id as int] matches Some(
                chain,
            ) && chain.cert_chain.data_size > 0),
            session_id is None ==> old(self).common.runtime_info.message_b@.is_prefix_of(
                final(self).common.runtime_info.message_b@,
            ),
            session_id is Some ==> final(self).common.runtime_info.message_b@
                == old(self).common.runtime_info.message_b@,
    {
        if slot_id as usize >= SPDM_MAX_SLOT_NUMBER {
            return Err(SpdmStatus::InvalidParameter);
        }
        let mut offset: u16 = 0;
        let mut length: u16 = MAX_SPDM_CERT_PORTION_LEN as u16;
        let mut total_size: u16 = 0;
        let ghost mut done: Seq<SpdmCertificateRound> = Seq::empty();
        proof {
            crate::common::lemma_table_carried_on(
                self.common.session@,
                self.common.session@,
                self.common.session@,
            );
        }
        while length != 0
            invariant
                self.spec_certificate_progress(
                    *old(self),
                    session_id,
                    slot_id,
                    done,
                    total_size,
                    offset,
                    length,
                ),
                self.spec_certificate_frame(*old(self), session_id, slot_id),
                session_id is None ==> old(self).common.runtime_info.message_b@.is_prefix_of(
                    self.common.runtime_info.message_b@,
                ),
                session_id is Some ==> self.common.runtime_info.message_b@
                    == old(self).common.runtime_info.message_b@,
            decreases MAX_SPDM_CERT_CHAIN_DATA_SIZE - offset, length,
        {
            let ghost here = *self;
            let exchanged = self.send_receive_spdm_certificate_partial(
                session_id,
                slot_id,
                total_size,
                offset,
                length,
            );
            proof {
                crate::common::lemma_table_carried_on(
                    self.common.session@,
                    here.common.session@,
                    old(self).common.session@,
                );
            }
            let lengths = match exchanged {
                Ok(lengths) => lengths,
                Err(e) => {
                    proof {
                        self.lemma_fetch_round_failed(
                            here,
                            *old(self),
                            session_id,
                            slot_id,
                            done,
                            total_size,
                            offset,
                            length,
                            e,
                        );
                    }
                    return Err(e);
                },
            };
            let ghost response = choose|response: Seq<u8>| #[trigger]
                self.spec_portion_answered(
                    here,
                    session_id,
                    slot_id,
                    total_size,
                    offset,
                    length,
                    lengths,
                    response,
                );
            proof {
                self.lemma_fetch_round_answered(
                    here,
                    *old(self),
                    session_id,
                    slot_id,
                    done,
                    total_size,
                    offset,
                    length,
                    lengths,
                    response,
                );
            }
            let next = match certificate_step(total_size, offset, lengths.0, lengths.1) {
                Ok(next) => next,
                Err(e) => {
                    return Err(e);
                },
            };
            proof {
                done = done.push(
                    SpdmCertificateRound {
                        total_size,
                        offset,
                        length,
                        exchanged: Ok(lengths),
                        response,
                    },
                );
            }
            total_size = next.0;
            offset = next.1;
            length = next.2;
        }
        match certificate_announced(total_size) {
            Ok(()) => {},
            Err(e) => {
                proof {
                    self.lemma_fetch_ended(
                    *old(self),
                    session_id,
                    slot_id,
                    done,
                    total_size,
                    offset,
                    Err(e),
                );
                }
                return Err(e);
            },
        }
        let r = self.verify_spdm_certificate_chain(slot_id);
        proof {
            self.lemma_fetch_ended(
                *old(self),
                session_id,
                slot_id,
                done,
                total_size,
                offset,
                r,
            );
        }
        r
    }

    /// Whether there is a chain in slot `slot_id` that can be anchored: the slot holds
    /// one that is longer than its prefix of four bytes and a digest.
    pub open spec fn spec_chain_checkable(self, slot_id: u8) -> bool {
        &&& slot_id < SPDM_MAX_SLOT_NUMBER
        &&& self.common.peer_info.peer_cert_chain@[slot_id as int] matches Some(chain)
        &&& 4 + self.common.negotiate_info.base_hash_sel.spec_size() < chain.cert_chain.data_size
            <= MAX_SPDM_CERT_CHAIN_DATA_SIZE
    }

    /// The certificates of the chain in slot `slot_id`: the chain without its prefix.
    pub open spec fn spec_runtime_chain(self, slot_id: u8) -> Seq<u8> {
        let chain = self.common.peer_info.peer_cert_chain@[slot_id as int]->0.cert_chain;
        chain.spec_bytes().subrange(
            4 + self.common.negotiate_info.base_hash_sel.spec_size(),
            chain.data_size as int,
        )
    }

    /// Whether the chain in slot `slot_id` is pinned: no certificates were provisioned
    /// for the peer, or the certificates of the chain are, byte for byte, the
    /// provisioned ones.
    pub open spec fn spec_chain_pinned(self, slot_id: u8) -> bool {
        self.common.provision_info.peer_cert_chain_data matches Some(provisioned)
            ==> provisioned.wf() && self.spec_runtime_chain(slot_id) == provisioned.spec_bytes()
    }

    /// Whether the chain in slot `slot_id` is anchored as far as the engine itself can
    /// tell: there is a chain to anchor, and it is pinned.
    pub open spec fn spec_chain_anchored(self, slot_id: u8) -> bool {
        self.spec_chain_checkable(slot_id) && self.spec_chain_pinned(slot_id)
    }

    /// Anchor the chain that was fetched into slot `slot_id`.
    ///
    /// The slot must hold a chain that is longer than its prefix of four bytes and a
    /// digest; the digest of its first certificate must be the one in the prefix; where
    /// certificates were provisioned for the peer, the certificates of the chain must
    /// be, byte for byte, the provisioned ones; and the chain must verify. A slot that
    /// holds nothing is a fault of the caller. Any other failure on the way is an
    /// invalid certificate, but for a digest that cannot be had, which is a failure of
    /// the primitive, and for a primitive that is not registered, which is unsupported.
    /// Nothing of the requester changes.
    pub fn verify_spdm_certificate_chain(&mut self, slot_id: u8) -> (r: SpdmResult)
        ensures
            *final(self) == *old(self),
            (slot_id >= SPDM_MAX_SLOT_NUMBER
                || old(self).common.peer_info.peer_cert_chain@[slot_id as int] is None) ==> r
                == Err::<(), SpdmStatus>(SpdmStatus::InvalidParameter),
            slot_id < SPDM_MAX_SLOT_NUMBER
                && old(self).common.peer_info.peer_cert_chain@[slot_id as int] is Some
                && !old(self).spec_chain_checkable(slot_id) ==> r == Err::<(), SpdmStatus>(
                SpdmStatus::InvalidCert,
            ),
            old(self).spec_chain_checkable(slot_id) ==> {
                &&& !old(self).spec_chain_pinned(slot_id) ==> r is Err
                &&& old(self).common.crypto.cert_operation is None ==> r == Err::<(), SpdmStatus>(
                    SpdmStatus::Unsupported,
                )
                &&& old(self).common.crypto.cert_operation is Some && old(self).common.crypto.hash
                    is None ==> r == Err::<(), SpdmStatus>(SpdmStatus::InvalidCert) || r == Err::<
                    (),
                    SpdmStatus,
                >(SpdmStatus::Unsupported)
                &&& old(self).common.crypto.cert_operation is Some && old(self).common.crypto.hash
                    is Some ==> r is Ok || r == Err::<(), SpdmStatus>(SpdmStatus::InvalidCert) || r
                    == Err::<(), SpdmStatus>(SpdmStatus::CryptoError)
            },
            r is Ok ==> old(self).spec_chain_anchored(slot_id),
    {
        if slot_id as usize >= SPDM_MAX_SLOT_NUMBER {
            return Err(SpdmStatus::InvalidParameter);
        }
        let chain = match self.common.peer_info.peer_cert_chain[slot_id as usize] {
            Some(c) => c.cert_chain,
            None => {
                return Err(SpdmStatus::InvalidParameter);
            },
        };
        let hash_algo = self.common.negotiate_info.base_hash_sel;
        let prefix: usize = 4 + hash_algo.get_size() as usize;
        let data_size: usize = chain.data_size as usize;
        if data_size <= prefix || data_size > MAX_SPDM_CERT_CHAIN_DATA_SIZE {
            return Err(SpdmStatus::InvalidCert);
        }
        let provisioned = self.common.provision_info.peer_cert_chain_data;
        let stored_root_hash = slice_range(&chain.data, 4, prefix);
        let runtime_chain = slice_range(&chain.data, prefix, data_size);
        proof {
            assert(chain.spec_bytes().subrange(prefix as int, data_size as int) =~= runtime_chain@);
        }
        let (root_begin, root_end) = match self.common.crypto.get_cert_from_cert_chain(
            runtime_chain,
            0,
        ) {
            Ok(p) => p,
            Err(SpdmStatus::Unsupported) => {
                return Err(SpdmStatus::Unsupported);
            },
            Err(_) => {
                return Err(SpdmStatus::InvalidCert);
            },
        };
        let root_cert = slice_range(runtime_chain, root_begin, root_end);
        let root_hash = match self.common.crypto.hash_all(hash_algo, root_cert) {
            Ok(d) => d,
            Err(SpdmStatus::Unsupported) => {
                return Err(SpdmStatus::Unsupported);
            },
            Err(_) => {
                return Err(SpdmStatus::CryptoError);
            },
        };
        let pinned: Option<&[u8]> = match &provisioned {
            Some(p) => {
                if p.data_size as usize > MAX_SPDM_CERT_CHAIN_DATA_SIZE {
                    return Err(SpdmStatus::InvalidCert);
                }
                Some(p.as_ref())
            },
            None => None,
        };
        anchor_cert_chain(stored_root_hash, root_hash.as_ref(), runtime_chain, pinned)?;
        match self.common.crypto.verify_cert_chain(runtime_chain) {
            Ok(()) => {},
            Err(SpdmStatus::Unsupported) => {
                return Err(SpdmStatus::Unsupported);
            },
            Err(_) => {
                return Err(SpdmStatus::InvalidCert);
            },
        }
        Ok(())
    }
}

} // verus!
