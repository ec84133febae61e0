//! GET_CERTIFICATE and CERTIFICATE.

use vstd::prelude::*;
use crate::codec::{fill_array_front, Reader, Writer};
use crate::config::MAX_SPDM_CERT_PORTION_LEN;
use crate::config::{MAX_SPDM_CERT_CHAIN_DATA_SIZE, SPDM_MAX_SLOT_NUMBER};
use crate::error::{SpdmResult, SpdmStatus};
use crate::protocol::SpdmVersion;

verus! {

/// The body of a GET_CERTIFICATE request: which slot, and which bytes of its chain.
#[derive(Clone, Copy, Debug, PartialEq, Eq, Structural)]
pub struct SpdmGetCertificateRequestPayload {
    pub slot_id: u8,
    pub offset: u16,
    pub length: u16,
}

impl SpdmGetCertificateRequestPayload {
    /// The body on the wire.
    pub open spec fn spec_encode(self) -> Seq<u8> {
        seq![self.slot_id, 0u8] + crate::codec::spec_u16_to_le(self.offset) + crate::codec::spec_u16_to_le(self.length)
    }

    /// The whole request on the wire, in `version`.
    pub open spec fn spec_message(self, version: SpdmVersion) -> Seq<u8> {
        seq![version.spec_u8(), 0x82u8] + self.spec_encode()
    }

    /// The body that `bytes` start with, if they start with one.
    pub open spec fn spec_read(bytes: Seq<u8>) -> Option<Self> {
        if bytes.len() < 6 {
            None
        } else {
            Some(
                SpdmGetCertificateRequestPayload {
                    slot_id: bytes[0],
                    offset: crate::codec::spec_u16_from_le(bytes.subrange(2, 4)),
                    length: crate::codec::spec_u16_from_le(bytes.subrange(4, 6)),
                },
            )
        }
    }

    /// Write the body, or nothing where it does not fit.
    pub fn spdm_encode(&self, writer: &mut Writer) -> (r: SpdmResult<usize>)
        ensures
            r is Ok <==> old(writer).has_room(6),
            r is Ok ==> r == Ok::<usize, SpdmStatus>(6) && final(writer).appended_to(
                *old(writer),
                self.spec_encode(),
            ),
            r is Err ==> r == Err::<usize, SpdmStatus>(SpdmStatus::BufferFull) && *final(writer)
                == *old(writer),
    {
        if writer.left() < 6 {
            return Err(SpdmStatus::BufferFull);
        }
        let ghost w0 = *writer;
        let _ = writer.push_u8(self.slot_id);
        let _ = writer.push_u8(0);
        let _ = writer.push_u16(self.offset);
        let _ = writer.push_u16(self.length);
        assert(writer@ =~= w0@ + self.spec_encode());
        Ok(6)
    }

    /// Read a body. The cursor moves past it where there is one.
    pub fn spdm_read(reader: &mut Reader) -> (r: Option<Self>)
        ensures
            r == Self::spec_read(old(reader).remaining()),
            r is Some ==> final(reader).advanced_from(*old(reader), 6),
            final(reader).bytes() == old(reader).bytes(),
    {
        if reader.left() < 6 {
            return None;
        }
        let ghost rest = reader.remaining();
        let slot_id = reader.read_u8();
        let _ = reader.read_u8();
        let ghost r2 = *reader;
        let offset = reader.read_u16();
        let ghost r4 = *reader;
        let length = reader.read_u16();
        proof {
            assert(r2.remaining() =~= rest.subrange(2, rest.len() as int));
            assert(r4.remaining() =~= rest.subrange(4, rest.len() as int));
            assert(rest.subrange(2, 4)[0] == r2.remaining()[0]);
            assert(rest.subrange(2, 4)[1] == r2.remaining()[1]);
            assert(rest.subrange(4, 6)[0] == r4.remaining()[0]);
            assert(rest.subrange(4, 6)[1] == r4.remaining()[1]);
        }
        match (slot_id, offset, length) {
            (Some(slot_id), Some(offset), Some(length)) => Some(
                SpdmGetCertificateRequestPayload { slot_id, offset, length },
            ),
            _ => None,
        }
    }
}

/// A GET_CERTIFICATE body that was written is read back as it was.
pub proof fn lemma_get_certificate_roundtrip(p: SpdmGetCertificateRequestPayload, rest: Seq<u8>)
    ensures
        SpdmGetCertificateRequestPayload::spec_read(p.spec_encode() + rest) == Some(p),
{
    let bytes = p.spec_encode() + rest;
    assert(bytes.subrange(2, 4) =~= crate::codec::spec_u16_to_le(p.offset));
    assert(bytes.subrange(4, 6) =~= crate::codec::spec_u16_to_le(p.length));
    assert(bytes[0] == p.slot_id);
    crate::codec::lemma_le_value_roundtrip(p.offset, 0);
    crate::codec::lemma_le_value_roundtrip(p.length, 0);
}

/// The body of a CERTIFICATE response: a portion of a chain, and how much follows it.
/// The portion is the first `portion_length` bytes of `cert_chain`.
#[derive(Clone, Copy, Debug)]
pub struct SpdmCertificateResponsePayload {
    pub slot_id: u8,
    pub portion_length: u16,
    pub remainder_length: u16,
    pub cert_chain: [u8; MAX_SPDM_CERT_PORTION_LEN],
}

/// What a CERTIFICATE body says.
pub struct SpdmCertificateResponse {
    pub slot_id: u8,
    pub portion_length: u16,
    pub remainder_length: u16,
    pub cert_chain: Seq<u8>,
}

impl View for SpdmCertificateResponsePayload {
    type V = SpdmCertificateResponse;

    open spec fn view(&self) -> SpdmCertificateResponse {
        SpdmCertificateResponse {
            slot_id: self.slot_id,
            portion_length: self.portion_length,
            remainder_length: self.remainder_length,
            cert_chain: self.cert_chain@.subrange(0, self.portion_length as int),
        }
    }
}

impl SpdmCertificateResponse {
    /// Whether the portion is as long as the body says, and no longer than one message
    /// may carry.
    pub open spec fn wf(self) -> bool {
        &&& self.portion_length <= MAX_SPDM_CERT_PORTION_LEN
        &&& self.cert_chain.len() == self.portion_length
    }

    /// What a requester makes of the body that answers its request for `length` bytes at
    /// `offset` of the chain in slot `slot_id`: the lengths of the portion and of what
    /// follows it, or a bad field. The portion may not be longer than what was asked
    /// for, nor reach beyond the store of a chain; where the size of the whole chain is
    /// known (`total_size` is not 0), the portion and what follows it must end there;
    /// and the slot must be the one asked for. A response that passes these checks goes
    /// into the slot: a slot that no device has is a fault of the caller, and a slot
    /// that holds nothing yet (`slot_occupied` is false) is filled from offset 0.
    pub open spec fn spec_check(
        self,
        slot_occupied: bool,
        slot_id: u8,
        total_size: u16,
        offset: u16,
        length: u16,
    ) -> SpdmResult<(u16, u16)> {
        if self.portion_length > length || offset + self.portion_length
            > MAX_SPDM_CERT_CHAIN_DATA_SIZE {
            Err(SpdmStatus::InvalidMsgField)
        } else if total_size != 0 && total_size != offset + self.portion_length
            + self.remainder_length {
            Err(SpdmStatus::InvalidMsgField)
        } else if self.slot_id != slot_id {
            Err(SpdmStatus::InvalidMsgField)
        } else if slot_id >= SPDM_MAX_SLOT_NUMBER {
            Err(SpdmStatus::InvalidParameter)
        } else if !slot_occupied && offset != 0 {
            Err(SpdmStatus::InvalidMsgField)
        } else {
            Ok((self.portion_length, self.remainder_length))
        }
    }

    /// The body on the wire.
    pub open spec fn spec_encode(self) -> Seq<u8> {
        seq![self.slot_id, 0u8] + crate::codec::spec_u16_to_le(self.portion_length) + crate::codec::spec_u16_to_le(
            self.remainder_length,
        ) + self.cert_chain
    }

    /// The body that `bytes` start with and its length, if they start with one.
    pub open spec fn spec_read(bytes: Seq<u8>) -> Option<(SpdmCertificateResponse, nat)> {
        if bytes.len() < 6 {
            None
        } else {
            let portion_length = crate::codec::spec_u16_from_le(bytes.subrange(2, 4));
            let remainder_length = crate::codec::spec_u16_from_le(bytes.subrange(4, 6));
            if portion_length > MAX_SPDM_CERT_PORTION_LEN || bytes.len() < 6 + portion_length {
                None
            } else {
                Some(
                    (
                        SpdmCertificateResponse {
                            slot_id: bytes[0],
                            portion_length,
                            remainder_length,
                            cert_chain: bytes.subrange(6, 6 + portion_length),
                        },
                        (6 + portion_length) as nat,
                    ),
                )
            }
        }
    }
}

impl SpdmCertificateResponsePayload {
    pub open spec fn wf(self) -> bool {
        self.portion_length <= MAX_SPDM_CERT_PORTION_LEN
    }

    /// What a requester makes of the body: see `spec_check` of its view.
    pub fn check(
        &self,
        slot_occupied: bool,
        slot_id: u8,
        total_size: u16,
        offset: u16,
        length: u16,
    ) -> (r: SpdmResult<(u16, u16)>)
        ensures
            r == self@.spec_check(slot_occupied, slot_id, total_size, offset, length),
            self.portion_length > length ==> r == Err::<(u16, u16), SpdmStatus>(
                SpdmStatus::InvalidMsgField,
            ),
            offset + self.portion_length > MAX_SPDM_CERT_CHAIN_DATA_SIZE ==> r == Err::<
                (u16, u16),
                SpdmStatus,
            >(SpdmStatus::InvalidMsgField),
            self.slot_id != slot_id ==> r == Err::<(u16, u16), SpdmStatus>(
                SpdmStatus::InvalidMsgField,
            ),
            r is Ok ==> slot_id < SPDM_MAX_SLOT_NUMBER,
            r matches Err(e) ==> e == SpdmStatus::InvalidMsgField || e
                == SpdmStatus::InvalidParameter,
    {
        let end: u32 = offset as u32 + self.portion_length as u32;
        if self.portion_length > length || end as usize > MAX_SPDM_CERT_CHAIN_DATA_SIZE {
            Err(SpdmStatus::InvalidMsgField)
        } else if total_size != 0 && total_size as u32 != end + self.remainder_length as u32 {
            Err(SpdmStatus::InvalidMsgField)
        } else if self.slot_id != slot_id {
            Err(SpdmStatus::InvalidMsgField)
        } else if slot_id as usize >= SPDM_MAX_SLOT_NUMBER {
            Err(SpdmStatus::InvalidParameter)
        } else if !slot_occupied && offset != 0 {
            Err(SpdmStatus::InvalidMsgField)
        } else {
            Ok((self.portion_length, self.remainder_length))
        }
    }

    /// Write the body, or nothing where it does not fit.
    pub fn spdm_encode(&self, writer: &mut Writer) -> (r: SpdmResult<usize>)
        requires
            self.wf(),
        ensures
            r is Ok <==> old(writer).has_room(self@.spec_encode().len()),
            r matches Ok(n) ==> n == self@.spec_encode().len() && final(writer).appended_to(
                *old(writer),
                self@.spec_encode(),
            ),
            r is Err ==> r == Err::<usize, SpdmStatus>(SpdmStatus::BufferFull) && *final(writer)
                == *old(writer),
    {
        let portion: usize = self.portion_length as usize;
        if writer.left() < 6 + portion {
            return Err(SpdmStatus::BufferFull);
        }
        let ghost w0 = *writer;
        let _ = writer.push_u8(self.slot_id);
        let _ = writer.push_u8(0);
        let _ = writer.push_u16(self.portion_length);
        let _ = writer.push_u16(self.remainder_length);
        let _ = writer.extend_from_slice(
            vstd::slice::slice_subrange(self.cert_chain.as_slice(), 0, portion),
        );
        assert(writer@ =~= w0@ + self@.spec_encode());
        Ok(6 + portion)
    }

    /// Read a body. The cursor moves past it where there is one.
    pub fn spdm_read(reader: &mut Reader) -> (r: Option<Self>)
        ensures
            r is Some <==> SpdmCertificateResponse::spec_read(old(reader).remaining()) is Some,
            r matches Some(p) ==> {
                let expected = SpdmCertificateResponse::spec_read(old(reader).remaining())->0;
                &&& p.wf()
                &&& p@ == expected.0
                &&& final(reader).advanced_from(*old(reader), expected.1)
            },
            final(reader).bytes() == old(reader).bytes(),
    {
        if reader.left() < 6 {
            return None;
        }
        let ghost rest = reader.remaining();
        let slot_id = reader.read_u8();
        let _ = reader.read_u8();
        let ghost r2 = *reader;
        let portion_length = reader.read_u16();
        let ghost r4 = *reader;
        let remainder_length = reader.read_u16();
        let ghost r6 = *reader;
        proof {
            assert(r2.remaining() =~= rest.subrange(2, rest.len() as int));
            assert(r4.remaining() =~= rest.subrange(4, rest.len() as int));
            assert(r6.remaining() =~= rest.subrange(6, rest.len() as int));
            assert(rest.subrange(2, 4)[0] == r2.remaining()[0]);
            assert(rest.subrange(2, 4)[1] == r2.remaining()[1]);
            assert(rest.subrange(4, 6)[0] == r4.remaining()[0]);
            assert(rest.subrange(4, 6)[1] == r4.remaining()[1]);
        }
        match (slot_id, portion_length, remainder_length) {
            (Some(slot_id), Some(portion_length), Some(remainder_length)) => {
                if portion_length as usize > MAX_SPDM_CERT_PORTION_LEN {
                    return None;
                }
                match reader.take(portion_length as usize) {
                    Some(portion) => {
                        let mut cert_chain = [0u8; MAX_SPDM_CERT_PORTION_LEN];
                        fill_array_front(&mut cert_chain, portion);
                        let p = SpdmCertificateResponsePayload {
                            slot_id,
                            portion_length,
                            remainder_length,
                            cert_chain,
                        };
                        proof {
                            assert(portion@ =~= rest.subrange(6, 6 + portion_length));
                            assert(p@.cert_chain =~= portion@);
                        }
                        Some(p)
                    },
                    None => None,
                }
            },
            _ => None,
        }
    }
}

/// A CERTIFICATE body that was written is read back as it was.
pub proof fn lemma_certificate_roundtrip(p: SpdmCertificateResponse, rest: Seq<u8>)
    requires
        p.wf(),
    ensures
        SpdmCertificateResponse::spec_read(p.spec_encode() + rest) == Some(
            (p, p.spec_encode().len()),
        ),
{
    let bytes = p.spec_encode() + rest;
    assert(bytes.subrange(2, 4) =~= crate::codec::spec_u16_to_le(p.portion_length));
    assert(bytes.subrange(4, 6) =~= crate::codec::spec_u16_to_le(p.remainder_length));
    assert(bytes[0] == p.slot_id);
    crate::codec::lemma_le_value_roundtrip(p.portion_length, 0);
    crate::codec::lemma_le_value_roundtrip(p.remainder_length, 0);
    assert(bytes.subrange(6, 6 + p.portion_length) =~= p.cert_chain);
}

} // verus!
