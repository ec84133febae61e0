//! PSK_FINISH and PSK_FINISH_RSP.

use vstd::prelude::*;
use crate::codec::{Reader, Writer};
use crate::config::SPDM_MAX_HASH_SIZE;
use crate::error::{SpdmResult, SpdmStatus};
use crate::protocol::SpdmDigestStruct;

verus! {

/// The body of a PSK_FINISH request: the requester's proof that it holds the
/// pre-shared key, over everything exchanged so far.
#[derive(Clone, Copy, Debug)]
pub struct SpdmPskFinishRequestPayload {
    pub verify_data: SpdmDigestStruct,
}

/// What a PSK_FINISH body says.
pub struct SpdmPskFinishRequest {
    pub verify_data: Seq<u8>,
}

impl View for SpdmPskFinishRequestPayload {
    type V = SpdmPskFinishRequest;

    open spec fn view(&self) -> SpdmPskFinishRequest {
        SpdmPskFinishRequest { verify_data: self.verify_data.spec_bytes() }
    }
}

impl SpdmPskFinishRequest {
    /// The body on the wire.
    pub open spec fn spec_encode(self) -> Seq<u8> {
        seq![0u8, 0u8] + self.verify_data
    }

    /// The body that `bytes` start with, if they start with one whose proof has
    /// `hash_size` bytes.
    pub open spec fn spec_read(bytes: Seq<u8>, hash_size: nat) -> Option<SpdmPskFinishRequest> {
        if hash_size > SPDM_MAX_HASH_SIZE || bytes.len() < 2 + hash_size {
            None
        } else {
            Some(SpdmPskFinishRequest { verify_data: bytes.subrange(2, (2 + hash_size) as int) })
        }
    }
}

impl SpdmPskFinishRequestPayload {
    /// Write the body, or nothing where it does not fit.
    pub fn spdm_encode(&self, writer: &mut Writer) -> (r: SpdmResult<usize>)
        requires
            self.verify_data.wf(),
        ensures
            r is Ok <==> old(writer).has_room(self@.spec_encode().len()),
            r matches Ok(n) ==> n == self@.spec_encode().len() && final(writer).appended_to(
                *old(writer),
                self@.spec_encode(),
            ),
            r is Err ==> r == Err::<usize, SpdmStatus>(SpdmStatus::BufferFull) && *final(writer)
                == *old(writer),
    {
        let size: usize = self.verify_data.data_size as usize;
        if writer.left() < 2 + size {
            return Err(SpdmStatus::BufferFull);
        }
        let ghost w0 = *writer;
        let _ = writer.push_u8(0);
        let _ = writer.push_u8(0);
        let _ = writer.extend_from_slice(self.verify_data.as_ref());
        assert(writer@ =~= w0@ + self@.spec_encode());
        Ok(2 + size)
    }

    /// Read a body whose proof has `hash_size` bytes. The cursor moves on only where
    /// there is one.
    pub fn spdm_read(hash_size: u16, reader: &mut Reader) -> (r: Option<Self>)
        ensures
            r is Some <==> SpdmPskFinishRequest::spec_read(
                old(reader).remaining(),
                hash_size as nat,
            ) is Some,
            r matches Some(p) ==> p.verify_data.wf() && Some(p@) == SpdmPskFinishRequest::spec_read(
                old(reader).remaining(),
                hash_size as nat,
            ) && final(reader).advanced_from(*old(reader), (2 + hash_size) as nat),
            final(reader).bytes() == old(reader).bytes(),
    {
        let ghost rest = reader.remaining();
        let ghost r0 = *reader;
        if hash_size as usize > SPDM_MAX_HASH_SIZE || reader.left() < 2 + hash_size as usize {
            return None;
        }
        let _ = reader.take(2);
        let ghost r2 = *reader;
        proof {
            r2.lemma_advanced(r0, 2);
        }
        match reader.take(hash_size as usize) {
            Some(raw) => {
                assert(raw@ =~= rest.subrange(2, 2 + hash_size));
                match SpdmDigestStruct::from_bytes(raw) {
                    Some(verify_data) => Some(SpdmPskFinishRequestPayload { verify_data }),
                    None => None,
                }
            },
            None => None,
        }
    }
}

/// A PSK_FINISH body that was written is read back as it was.
pub proof fn lemma_psk_finish_roundtrip(p: SpdmPskFinishRequest, rest: Seq<u8>)
    requires
        p.verify_data.len() <= SPDM_MAX_HASH_SIZE,
    ensures
        SpdmPskFinishRequest::spec_read(p.spec_encode() + rest, p.verify_data.len()) == Some(p),
{
    let bytes = p.spec_encode() + rest;
    assert(bytes.subrange(2, (2 + p.verify_data.len()) as int) =~= p.verify_data);
}

/// The body of a PSK_FINISH_RSP response. It says nothing beyond that it came.
#[derive(Clone, Copy, Debug, PartialEq, Eq, Structural)]
pub struct SpdmPskFinishResponsePayload {}

impl SpdmPskFinishResponsePayload {
    /// The body on the wire.
    pub open spec fn spec_encode(self) -> Seq<u8> {
        seq![0u8, 0u8]
    }

    /// The body that `bytes` start with, if they start with one.
    pub open spec fn spec_read(bytes: Seq<u8>) -> Option<SpdmPskFinishResponsePayload> {
        if bytes.len() < 2 {
            None
        } else {
            Some(SpdmPskFinishResponsePayload {  })
        }
    }

    /// Write the body, or nothing where it does not fit.
    pub fn spdm_encode(&self, writer: &mut Writer) -> (r: SpdmResult<usize>)
        ensures
            r is Ok <==> old(writer).has_room(2),
            r is Ok ==> r == Ok::<usize, SpdmStatus>(2) && final(writer).appended_to(
                *old(writer),
                self.spec_encode(),
            ),
            r is Err ==> r == Err::<usize, SpdmStatus>(SpdmStatus::BufferFull) && *final(writer)
                == *old(writer),
    {
        if writer.left() < 2 {
            return Err(SpdmStatus::BufferFull);
        }
        let ghost w0 = *writer;
        let _ = writer.push_u8(0);
        let _ = writer.push_u8(0);
        assert(writer@ =~= w0@ + self.spec_encode());
        Ok(2)
    }

    /// Read a body. The cursor moves on only where there is one.
    pub fn spdm_read(reader: &mut Reader) -> (r: Option<Self>)
        ensures
            r == Self::spec_read(old(reader).remaining()),
            r is Some ==> final(reader).advanced_from(*old(reader), 2),
            final(reader).bytes() == old(reader).bytes(),
    {
        match reader.take(2) {
            Some(_) => Some(SpdmPskFinishResponsePayload {  }),
            None => None,
        }
    }
}

/// A PSK_FINISH_RSP body that was written is read back as it was.
pub proof fn lemma_psk_finish_rsp_roundtrip(p: SpdmPskFinishResponsePayload, rest: Seq<u8>)
    ensures
        SpdmPskFinishResponsePayload::spec_read(p.spec_encode() + rest) == Some(p),
{
}

} // verus!
