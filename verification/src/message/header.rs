//! The two bytes that every message starts with.

use vstd::prelude::*;
use crate::codec::{Reader, Writer};
use crate::error::{SpdmResult, SpdmStatus};
use crate::protocol::SpdmVersion;

verus! {

/// What kind of request or response a message is.
#[derive(Clone, Copy, Debug, PartialEq, Eq, Structural)]
pub enum SpdmRequestResponseCode {
    SpdmResponseDigests,
    SpdmResponseCertificate,
    SpdmResponseChallengeAuth,
    SpdmResponseVersion,
    SpdmResponseMeasurements,
    SpdmResponseCapabilities,
    SpdmResponseAlgorithms,
    SpdmResponseKeyExchangeRsp,
    SpdmResponseFinishRsp,
    SpdmResponsePskExchangeRsp,
    SpdmResponsePskFinishRsp,
    SpdmResponseHeartbeatAck,
    SpdmResponseKeyUpdateAck,
    SpdmResponseEncapsulatedRequest,
    SpdmResponseEncapsulatedResponseAck,
    SpdmResponseEndSessionAck,
    SpdmResponseVendorDefinedResponse,
    SpdmResponseError,
    SpdmRequestGetDigests,
    SpdmRequestGetCertificate,
    SpdmRequestChallenge,
    SpdmRequestGetVersion,
    SpdmRequestGetMeasurements,
    SpdmRequestGetCapabilities,
    SpdmRequestNegotiateAlgorithms,
    SpdmRequestKeyExchange,
    SpdmRequestFinish,
    SpdmRequestPskExchange,
    SpdmRequestPskFinish,
    SpdmRequestHeartbeat,
    SpdmRequestKeyUpdate,
    SpdmRequestGetEncapsulatedRequest,
    SpdmRequestDeliverEncapsulatedResponse,
    SpdmRequestEndSession,
    SpdmRequestVendorDefinedRequest,
    SpdmRequestResponseIfReady,
    /// A byte that stands for none of the above.
    Unknown(u8),
}

impl SpdmRequestResponseCode {
    /// The byte that stands for the value on the wire.
    pub open spec fn spec_u8(self) -> u8 {
        match self {
            SpdmRequestResponseCode::SpdmResponseDigests => 0x01,
            SpdmRequestResponseCode::SpdmResponseCertificate => 0x02,
            SpdmRequestResponseCode::SpdmResponseChallengeAuth => 0x03,
            SpdmRequestResponseCode::SpdmResponseVersion => 0x04,
            SpdmRequestResponseCode::SpdmResponseMeasurements => 0x60,
            SpdmRequestResponseCode::SpdmResponseCapabilities => 0x61,
            SpdmRequestResponseCode::SpdmResponseAlgorithms => 0x63,
            SpdmRequestResponseCode::SpdmResponseKeyExchangeRsp => 0x64,
            SpdmRequestResponseCode::SpdmResponseFinishRsp => 0x65,
            SpdmRequestResponseCode::SpdmResponsePskExchangeRsp => 0x66,
            SpdmRequestResponseCode::SpdmResponsePskFinishRsp => 0x67,
            SpdmRequestResponseCode::SpdmResponseHeartbeatAck => 0x68,
            SpdmRequestResponseCode::SpdmResponseKeyUpdateAck => 0x69,
            SpdmRequestResponseCode::SpdmResponseEncapsulatedRequest => 0x6a,
            SpdmRequestResponseCode::SpdmResponseEncapsulatedResponseAck => 0x6b,
            SpdmRequestResponseCode::SpdmResponseEndSessionAck => 0x6c,
            SpdmRequestResponseCode::SpdmResponseVendorDefinedResponse => 0x7e,
            SpdmRequestResponseCode::SpdmResponseError => 0x7f,
            SpdmRequestResponseCode::SpdmRequestGetDigests => 0x81,
            SpdmRequestResponseCode::SpdmRequestGetCertificate => 0x82,
            SpdmRequestResponseCode::SpdmRequestChallenge => 0x83,
            SpdmRequestResponseCode::SpdmRequestGetVersion => 0x84,
            SpdmRequestResponseCode::SpdmRequestGetMeasurements => 0xe0,
            SpdmRequestResponseCode::SpdmRequestGetCapabilities => 0xe1,
            SpdmRequestResponseCode::SpdmRequestNegotiateAlgorithms => 0xe3,
            SpdmRequestResponseCode::SpdmRequestKeyExchange => 0xe4,
            SpdmRequestResponseCode::SpdmRequestFinish => 0xe5,
            SpdmRequestResponseCode::SpdmRequestPskExchange => 0xe6,
            SpdmRequestResponseCode::SpdmRequestPskFinish => 0xe7,
            SpdmRequestResponseCode::SpdmRequestHeartbeat => 0xe8,
            SpdmRequestResponseCode::SpdmRequestKeyUpdate => 0xe9,
            SpdmRequestResponseCode::SpdmRequestGetEncapsulatedRequest => 0xea,
            SpdmRequestResponseCode::SpdmRequestDeliverEncapsulatedResponse => 0xeb,
            SpdmRequestResponseCode::SpdmRequestEndSession => 0xec,
            SpdmRequestResponseCode::SpdmRequestVendorDefinedRequest => 0xfe,
            SpdmRequestResponseCode::SpdmRequestResponseIfReady => 0xff,
            SpdmRequestResponseCode::Unknown(b) => b,
        }
    }

    /// The value that a byte stands for.
    pub open spec fn spec_from_u8(b: u8) -> Self {
        if b == 0x01 {
            SpdmRequestResponseCode::SpdmResponseDigests
        } else if b == 0x02 {
            SpdmRequestResponseCode::SpdmResponseCertificate
        } else if b == 0x03 {
            SpdmRequestResponseCode::SpdmResponseChallengeAuth
        } else if b == 0x04 {
            SpdmRequestResponseCode::SpdmResponseVersion
        } else if b == 0x60 {
            SpdmRequestResponseCode::SpdmResponseMeasurements
        } else if b == 0x61 {
            SpdmRequestResponseCode::SpdmResponseCapabilities
        } else if b == 0x63 {
            SpdmRequestResponseCode::SpdmResponseAlgorithms
        } else if b == 0x64 {
            SpdmRequestResponseCode::SpdmResponseKeyExchangeRsp
        } else if b == 0x65 {
            SpdmRequestResponseCode::SpdmResponseFinishRsp
        } else if b == 0x66 {
            SpdmRequestResponseCode::SpdmResponsePskExchangeRsp
        } else if b == 0x67 {
            SpdmRequestResponseCode::SpdmResponsePskFinishRsp
        } else if b == 0x68 {
            SpdmRequestResponseCode::SpdmResponseHeartbeatAck
        } else if b == 0x69 {
            SpdmRequestResponseCode::SpdmResponseKeyUpdateAck
        } else if b == 0x6a {
            SpdmRequestResponseCode::SpdmResponseEncapsulatedRequest
        } else if b == 0x6b {
            SpdmRequestResponseCode::SpdmResponseEncapsulatedResponseAck
        } else if b == 0x6c {
            SpdmRequestResponseCode::SpdmResponseEndSessionAck
        } else if b == 0x7e {
            SpdmRequestResponseCode::SpdmResponseVendorDefinedResponse
        } else if b == 0x7f {
            SpdmRequestResponseCode::SpdmResponseError
        } else if b == 0x81 {
            SpdmRequestResponseCode::SpdmRequestGetDigests
        } else if b == 0x82 {
            SpdmRequestResponseCode::SpdmRequestGetCertificate
        } else if b == 0x83 {
            SpdmRequestResponseCode::SpdmRequestChallenge
        } else if b == 0x84 {
            SpdmRequestResponseCode::SpdmRequestGetVersion
        } else if b == 0xe0 {
            SpdmRequestResponseCode::SpdmRequestGetMeasurements
        } else if b == 0xe1 {
            SpdmRequestResponseCode::SpdmRequestGetCapabilities
        } else if b == 0xe3 {
            SpdmRequestResponseCode::SpdmRequestNegotiateAlgorithms
        } else if b == 0xe4 {
            SpdmRequestResponseCode::SpdmRequestKeyExchange
        } else if b == 0xe5 {
            SpdmRequestResponseCode::SpdmRequestFinish
        } else if b == 0xe6 {
            SpdmRequestResponseCode::SpdmRequestPskExchange
        } else if b == 0xe7 {
            SpdmRequestResponseCode::SpdmRequestPskFinish
        } else if b == 0xe8 {
            SpdmRequestResponseCode::SpdmRequestHeartbeat
        } else if b == 0xe9 {
            SpdmRequestResponseCode::SpdmRequestKeyUpdate
        } else if b == 0xea {
            SpdmRequestResponseCode::SpdmRequestGetEncapsulatedRequest
        } else if b == 0xeb {
            SpdmRequestResponseCode::SpdmRequestDeliverEncapsulatedResponse
        } else if b == 0xec {
            SpdmRequestResponseCode::SpdmRequestEndSession
        } else if b == 0xfe {
            SpdmRequestResponseCode::SpdmRequestVendorDefinedRequest
        } else if b == 0xff {
            SpdmRequestResponseCode::SpdmRequestResponseIfReady
        } else {
            SpdmRequestResponseCode::Unknown(b)
        }
    }

    /// Whether the value is the one that its own byte is read as.
    pub open spec fn spec_is_canonical(self) -> bool {
        Self::spec_from_u8(self.spec_u8()) == self
    }

    pub fn get_u8(&self) -> (b: u8)
        ensures
            b == self.spec_u8(),
    {
        match self {
            SpdmRequestResponseCode::SpdmResponseDigests => 0x01,
            SpdmRequestResponseCode::SpdmResponseCertificate => 0x02,
            SpdmRequestResponseCode::SpdmResponseChallengeAuth => 0x03,
            SpdmRequestResponseCode::SpdmResponseVersion => 0x04,
            SpdmRequestResponseCode::SpdmResponseMeasurements => 0x60,
            SpdmRequestResponseCode::SpdmResponseCapabilities => 0x61,
            SpdmRequestResponseCode::SpdmResponseAlgorithms => 0x63,
            SpdmRequestResponseCode::SpdmResponseKeyExchangeRsp => 0x64,
            SpdmRequestResponseCode::SpdmResponseFinishRsp => 0x65,
            SpdmRequestResponseCode::SpdmResponsePskExchangeRsp => 0x66,
            SpdmRequestResponseCode::SpdmResponsePskFinishRsp => 0x67,
            SpdmRequestResponseCode::SpdmResponseHeartbeatAck => 0x68,
            SpdmRequestResponseCode::SpdmResponseKeyUpdateAck => 0x69,
            SpdmRequestResponseCode::SpdmResponseEncapsulatedRequest => 0x6a,
            SpdmRequestResponseCode::SpdmResponseEncapsulatedResponseAck => 0x6b,
            SpdmRequestResponseCode::SpdmResponseEndSessionAck => 0x6c,
            SpdmRequestResponseCode::SpdmResponseVendorDefinedResponse => 0x7e,
            SpdmRequestResponseCode::SpdmResponseError => 0x7f,
            SpdmRequestResponseCode::SpdmRequestGetDigests => 0x81,
            SpdmRequestResponseCode::SpdmRequestGetCertificate => 0x82,
            SpdmRequestResponseCode::SpdmRequestChallenge => 0x83,
            SpdmRequestResponseCode::SpdmRequestGetVersion => 0x84,
            SpdmRequestResponseCode::SpdmRequestGetMeasurements => 0xe0,
            SpdmRequestResponseCode::SpdmRequestGetCapabilities => 0xe1,
            SpdmRequestResponseCode::SpdmRequestNegotiateAlgorithms => 0xe3,
            SpdmRequestResponseCode::SpdmRequestKeyExchange => 0xe4,
            SpdmRequestResponseCode::SpdmRequestFinish => 0xe5,
            SpdmRequestResponseCode::SpdmRequestPskExchange => 0xe6,
            SpdmRequestResponseCode::SpdmRequestPskFinish => 0xe7,
            SpdmRequestResponseCode::SpdmRequestHeartbeat => 0xe8,
            SpdmRequestResponseCode::SpdmRequestKeyUpdate => 0xe9,
            SpdmRequestResponseCode::SpdmRequestGetEncapsulatedRequest => 0xea,
            SpdmRequestResponseCode::SpdmRequestDeliverEncapsulatedResponse => 0xeb,
            SpdmRequestResponseCode::SpdmRequestEndSession => 0xec,
            SpdmRequestResponseCode::SpdmRequestVendorDefinedRequest => 0xfe,
            SpdmRequestResponseCode::SpdmRequestResponseIfReady => 0xff,
            SpdmRequestResponseCode::Unknown(b) => *b,
        }
    }

    pub fn from_u8(b: u8) -> (r: Self)
        ensures
            r == Self::spec_from_u8(b),
            r.spec_u8() == b,
            r.spec_is_canonical(),
    {
        if b == 0x01 {
            SpdmRequestResponseCode::SpdmResponseDigests
        } else if b == 0x02 {
            SpdmRequestResponseCode::SpdmResponseCertificate
        } else if b == 0x03 {
            SpdmRequestResponseCode::SpdmResponseChallengeAuth
        } else if b == 0x04 {
            SpdmRequestResponseCode::SpdmResponseVersion
        } else if b == 0x60 {
            SpdmRequestResponseCode::SpdmResponseMeasurements
        } else if b == 0x61 {
            SpdmRequestResponseCode::SpdmResponseCapabilities
        } else if b == 0x63 {
            SpdmRequestResponseCode::SpdmResponseAlgorithms
        } else if b == 0x64 {
            SpdmRequestResponseCode::SpdmResponseKeyExchangeRsp
        } else if b == 0x65 {
            SpdmRequestResponseCode::SpdmResponseFinishRsp
        } else if b == 0x66 {
            SpdmRequestResponseCode::SpdmResponsePskExchangeRsp
        } else if b == 0x67 {
            SpdmRequestResponseCode::SpdmResponsePskFinishRsp
        } else if b == 0x68 {
            SpdmRequestResponseCode::SpdmResponseHeartbeatAck
        } else if b == 0x69 {
            SpdmRequestResponseCode::SpdmResponseKeyUpdateAck
        } else if b == 0x6a {
            SpdmRequestResponseCode::SpdmResponseEncapsulatedRequest
        } else if b == 0x6b {
            SpdmRequestResponseCode::SpdmResponseEncapsulatedResponseAck
        } else if b == 0x6c {
            SpdmRequestResponseCode::SpdmResponseEndSessionAck
        } else if b == 0x7e {
            SpdmRequestResponseCode::SpdmResponseVendorDefinedResponse
        } else if b == 0x7f {
            SpdmRequestResponseCode::SpdmResponseError
        } else if b == 0x81 {
            SpdmRequestResponseCode::SpdmRequestGetDigests
        } else if b == 0x82 {
            SpdmRequestResponseCode::SpdmRequestGetCertificate
        } else if b == 0x83 {
            SpdmRequestResponseCode::SpdmRequestChallenge
        } else if b == 0x84 {
            SpdmRequestResponseCode::SpdmRequestGetVersion
        } else if b == 0xe0 {
            SpdmRequestResponseCode::SpdmRequestGetMeasurements
        } else if b == 0xe1 {
            SpdmRequestResponseCode::SpdmRequestGetCapabilities
        } else if b == 0xe3 {
            SpdmRequestResponseCode::SpdmRequestNegotiateAlgorithms
        } else if b == 0xe4 {
            SpdmRequestResponseCode::SpdmRequestKeyExchange
        } else if b == 0xe5 {
            SpdmRequestResponseCode::SpdmRequestFinish
        } else if b == 0xe6 {
            SpdmRequestResponseCode::SpdmRequestPskExchange
        } else if b == 0xe7 {
            SpdmRequestResponseCode::SpdmRequestPskFinish
        } else if b == 0xe8 {
            SpdmRequestResponseCode::SpdmRequestHeartbeat
        } else if b == 0xe9 {
            SpdmRequestResponseCode::SpdmRequestKeyUpdate
        } else if b == 0xea {
            SpdmRequestResponseCode::SpdmRequestGetEncapsulatedRequest
        } else if b == 0xeb {
            SpdmRequestResponseCode::SpdmRequestDeliverEncapsulatedResponse
        } else if b == 0xec {
            SpdmRequestResponseCode::SpdmRequestEndSession
        } else if b == 0xfe {
            SpdmRequestResponseCode::SpdmRequestVendorDefinedRequest
        } else if b == 0xff {
            SpdmRequestResponseCode::SpdmRequestResponseIfReady
        } else {
            SpdmRequestResponseCode::Unknown(b)
        }
    }
}

impl Default for SpdmRequestResponseCode {
    fn default() -> (r: Self)
        ensures
            r == SpdmRequestResponseCode::Unknown(0),
    {
        SpdmRequestResponseCode::Unknown(0)
    }
}

/// The start of a message: the version it is written in, and what it is.
#[derive(Clone, Copy, Debug, PartialEq, Eq, Structural)]
pub struct SpdmMessageHeader {
    pub version: SpdmVersion,
    pub request_response_code: SpdmRequestResponseCode,
}

impl SpdmMessageHeader {
    /// The header on the wire.
    pub open spec fn spec_encode(self) -> Seq<u8> {
        seq![self.version.spec_u8(), self.request_response_code.spec_u8()]
    }

    /// The header that `bytes` start with, if they start with one.
    pub open spec fn spec_read(bytes: Seq<u8>) -> Option<SpdmMessageHeader> {
        if bytes.len() < 2 {
            None
        } else {
            match SpdmVersion::spec_from_u8(bytes[0]) {
                Some(version) => Some(
                    SpdmMessageHeader {
                        version,
                        request_response_code: SpdmRequestResponseCode::spec_from_u8(bytes[1]),
                    },
                ),
                None => None,
            }
        }
    }

    /// Write the header, or nothing where two bytes do not fit.
    pub fn encode(&self, writer: &mut Writer) -> (r: SpdmResult<usize>)
        ensures
            r is Ok <==> old(writer).has_room(2),
            r is Ok ==> r == Ok::<usize, SpdmStatus>(2) && final(writer).appended_to(
                *old(writer),
                self.spec_encode(),
            ),
            r is Err ==> r == Err::<usize, SpdmStatus>(SpdmStatus::BufferFull) && *final(writer)
                == *old(writer),
    {
        if writer.left() < 2 {
            return Err(SpdmStatus::BufferFull);
        }
        let ghost w0 = *writer;
        let _ = writer.push_u8(self.version.get_u8());
        let _ = writer.push_u8(self.request_response_code.get_u8());
        assert(writer@ =~= w0@ + self.spec_encode());
        Ok(2)
    }

    /// Read a header. The cursor moves past it where there is one.
    pub fn read(reader: &mut Reader) -> (r: Option<SpdmMessageHeader>)
        ensures
            r == Self::spec_read(old(reader).remaining()),
            r is Some ==> final(reader).advanced_from(*old(reader), 2),
            final(reader).bytes() == old(reader).bytes(),
    {
        if reader.left() < 2 {
            return None;
        }
        let ghost rest = reader.remaining();
        let v = reader.read_u8();
        let ghost mid = *reader;
        let c = reader.read_u8();
        proof {
            assert(mid.remaining()[0] == rest[1]);
        }
        match (v, c) {
            (Some(v), Some(c)) => match SpdmVersion::from_u8(v) {
                Some(version) => Some(
                    SpdmMessageHeader {
                        version,
                        request_response_code: SpdmRequestResponseCode::from_u8(c),
                    },
                ),
                None => None,
            },
            _ => None,
        }
    }
}

/// A header that was written is read back as it was.
pub proof fn lemma_header_roundtrip(header: SpdmMessageHeader, rest: Seq<u8>)
    requires
        header.request_response_code.spec_is_canonical(),
    ensures
        SpdmMessageHeader::spec_read(header.spec_encode() + rest) == Some(header),
{
    let bytes = header.spec_encode() + rest;
    assert(bytes[0] == header.version.spec_u8());
    assert(bytes[1] == header.request_response_code.spec_u8());
}

} // verus!
