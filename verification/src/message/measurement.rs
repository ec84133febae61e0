//! GET_MEASUREMENTS and MEASUREMENTS.

use vstd::prelude::*;
use crate::codec::{fill_array_front, Reader, Writer};
use crate::config::{
    MAX_SPDM_MEASUREMENT_RECORD_SIZE, MAX_SPDM_OPAQUE_SIZE, SPDM_MAX_ASYM_KEY_SIZE,
    SPDM_NONCE_SIZE,
};
use crate::error::{SpdmResult, SpdmStatus};
use crate::protocol::{SpdmNonceStruct, SpdmSignatureStruct, SpdmVersion};

verus! {

/// The attribute bit that asks the responder to sign its measurements.
pub const SPDM_MEASUREMENT_SIGNATURE_REQUESTED: u8 = 0x01;

/// The attribute bit that asks for measurements as raw bit streams.
pub const SPDM_MEASUREMENT_RAW_BIT_STREAM_REQUESTED: u8 = 0x02;

/// The attribute bits of a GET_MEASUREMENTS request.
#[derive(Clone, Copy, Debug, PartialEq, Eq, Structural)]
pub struct SpdmMeasurementeAttributes {
    pub bits: u8,
}

impl SpdmMeasurementeAttributes {
    /// Whether every bit of `flags` is set.
    pub open spec fn spec_contains(self, flags: u8) -> bool {
        self.bits & flags == flags
    }

    /// Whether a signature is asked for.
    pub open spec fn spec_signature_requested(self) -> bool {
        self.spec_contains(SPDM_MEASUREMENT_SIGNATURE_REQUESTED)
    }

    pub fn contains(&self, flags: u8) -> (b: bool)
        ensures
            b == self.spec_contains(flags),
    {
        self.bits & flags == flags
    }

    pub fn signature_requested(&self) -> (b: bool)
        ensures
            b == self.spec_signature_requested(),
    {
        self.contains(SPDM_MEASUREMENT_SIGNATURE_REQUESTED)
    }
}

impl Default for SpdmMeasurementeAttributes {
    fn default() -> (r: Self)
        ensures
            r.bits == 0,
    {
        SpdmMeasurementeAttributes { bits: 0 }
    }
}

/// Which measurements a GET_MEASUREMENTS request asks for.
#[derive(Clone, Copy, Debug, PartialEq, Eq, Structural)]
pub enum SpdmMeasurementOperation {
    /// Only how many measurement blocks the responder has.
    SpdmMeasurementQueryTotalNumber,
    /// Every measurement block.
    SpdmMeasurementRequestAll,
    /// The block with this index.
    Unknown(u8),
}

impl SpdmMeasurementOperation {
    /// The byte that stands for the operation on the wire.
    pub open spec fn spec_u8(self) -> u8 {
        match self {
            SpdmMeasurementOperation::SpdmMeasurementQueryTotalNumber => 0x00,
            SpdmMeasurementOperation::SpdmMeasurementRequestAll => 0xFF,
            SpdmMeasurementOperation::Unknown(b) => b,
        }
    }

    /// The operation that a byte stands for.
    pub open spec fn spec_from_u8(b: u8) -> Self {
        if b == 0x00 {
            SpdmMeasurementOperation::SpdmMeasurementQueryTotalNumber
        } else if b == 0xFF {
            SpdmMeasurementOperation::SpdmMeasurementRequestAll
        } else {
            SpdmMeasurementOperation::Unknown(b)
        }
    }

    /// Whether the operation is the one that its own byte is read as.
    pub open spec fn spec_is_canonical(self) -> bool {
        Self::spec_from_u8(self.spec_u8()) == self
    }

    pub fn get_u8(&self) -> (b: u8)
        ensures
            b == self.spec_u8(),
    {
        match self {
            SpdmMeasurementOperation::SpdmMeasurementQueryTotalNumber => 0x00,
            SpdmMeasurementOperation::SpdmMeasurementRequestAll => 0xFF,
            SpdmMeasurementOperation::Unknown(b) => *b,
        }
    }

    pub fn from_u8(b: u8) -> (r: Self)
        ensures
            r == Self::spec_from_u8(b),
            r.spec_is_canonical(),
    {
        if b == 0x00 {
            SpdmMeasurementOperation::SpdmMeasurementQueryTotalNumber
        } else if b == 0xFF {
            SpdmMeasurementOperation::SpdmMeasurementRequestAll
        } else {
            SpdmMeasurementOperation::Unknown(b)
        }
    }
}

/// Whether a version carries the slot number in a signed GET_MEASUREMENTS request.
pub open spec fn spec_request_has_slot(version: SpdmVersion) -> bool {
    version != SpdmVersion::SpdmVersion10
}

/// The body of a GET_MEASUREMENTS request.
#[derive(Clone, Copy, Debug)]
pub struct SpdmGetMeasurementsRequestPayload {
    pub measurement_attributes: SpdmMeasurementeAttributes,
    pub measurement_operation: SpdmMeasurementOperation,
    pub nonce: SpdmNonceStruct,
    pub slot_id: u8,
}

/// What a GET_MEASUREMENTS body says.
pub struct SpdmGetMeasurementsRequest {
    pub measurement_attributes: SpdmMeasurementeAttributes,
    pub measurement_operation: SpdmMeasurementOperation,
    pub nonce: Seq<u8>,
    pub slot_id: u8,
}

impl View for SpdmGetMeasurementsRequestPayload {
    type V = SpdmGetMeasurementsRequest;

    open spec fn view(&self) -> SpdmGetMeasurementsRequest {
        SpdmGetMeasurementsRequest {
            measurement_attributes: self.measurement_attributes,
            measurement_operation: self.measurement_operation,
            nonce: self.nonce.data@,
            slot_id: self.slot_id,
        }
    }
}

impl SpdmGetMeasurementsRequest {
    /// Whether the fields are ones that a body in `version` can carry: the nonce and the
    /// slot number travel only with a request for a signature, the slot number only
    /// after the first version; a field that does not travel is zero.
    pub open spec fn wf(self, version: SpdmVersion) -> bool {
        &&& self.nonce.len() == SPDM_NONCE_SIZE
        &&& self.measurement_operation.spec_is_canonical()
        &&& !self.measurement_attributes.spec_signature_requested() ==> self.nonce == Seq::new(
            SPDM_NONCE_SIZE as nat,
            |i: int| 0u8,
        )
        &&& !(self.measurement_attributes.spec_signature_requested() && spec_request_has_slot(
            version,
        )) ==> self.slot_id == 0
    }

    /// The body on the wire.
    pub open spec fn spec_encode(self, version: SpdmVersion) -> Seq<u8> {
        let head = seq![self.measurement_attributes.bits, self.measurement_operation.spec_u8()];
        if self.measurement_attributes.spec_signature_requested() {
            if spec_request_has_slot(version) {
                head + self.nonce + seq![self.slot_id]
            } else {
                head + self.nonce
            }
        } else {
            head
        }
    }

    /// The request with these fields.
    pub open spec fn spec_new(
        measurement_attributes: SpdmMeasurementeAttributes,
        measurement_operation: SpdmMeasurementOperation,
        nonce: Seq<u8>,
        slot_id: u8,
    ) -> Self {
        SpdmGetMeasurementsRequest { measurement_attributes, measurement_operation, nonce, slot_id }
    }

    /// The whole request on the wire, in `version`.
    pub open spec fn spec_message(self, version: SpdmVersion) -> Seq<u8> {
        seq![version.spec_u8(), 0xE0u8] + self.spec_encode(version)
    }

    /// The body that `bytes` start with and its length, if they start with one.
    pub open spec fn spec_read(bytes: Seq<u8>, version: SpdmVersion) -> Option<
        (SpdmGetMeasurementsRequest, nat),
    > {
        if bytes.len() < 2 {
            None
        } else {
            let measurement_attributes = SpdmMeasurementeAttributes { bits: bytes[0] };
            let measurement_operation = SpdmMeasurementOperation::spec_from_u8(bytes[1]);
            if !measurement_attributes.spec_signature_requested() {
                Some(
                    (
                        SpdmGetMeasurementsRequest {
                            measurement_attributes,
                            measurement_operation,
                            nonce: Seq::new(SPDM_NONCE_SIZE as nat, |i: int| 0u8),
                            slot_id: 0,
                        },
                        2,
                    ),
                )
            } else if !spec_request_has_slot(version) {
                if bytes.len() < 2 + SPDM_NONCE_SIZE {
                    None
                } else {
                    Some(
                        (
                            SpdmGetMeasurementsRequest {
                                measurement_attributes,
                                measurement_operation,
                                nonce: bytes.subrange(2, 2 + SPDM_NONCE_SIZE),
                                slot_id: 0,
                            },
                            (2 + SPDM_NONCE_SIZE) as nat,
                        ),
                    )
                }
            } else {
                if bytes.len() < 3 + SPDM_NONCE_SIZE {
                    None
                } else {
                    Some(
                        (
                            SpdmGetMeasurementsRequest {
                                measurement_attributes,
                                measurement_operation,
                                nonce: bytes.subrange(2, 2 + SPDM_NONCE_SIZE),
                                slot_id: bytes[2 + SPDM_NONCE_SIZE],
                            },
                            (3 + SPDM_NONCE_SIZE) as nat,
                        ),
                    )
                }
            }
        }
    }
}

impl SpdmGetMeasurementsRequestPayload {
    /// Write the body, or nothing where it does not fit.
    pub fn spdm_encode(&self, version: SpdmVersion, writer: &mut Writer) -> (r: SpdmResult<usize>)
        ensures
            r is Ok <==> old(writer).has_room(self@.spec_encode(version).len()),
            r matches Ok(n) ==> n == self@.spec_encode(version).len() && final(writer).appended_to(*old(writer), self@.spec_encode(version)),
            r is Err ==> r == Err::<usize, SpdmStatus>(SpdmStatus::BufferFull) && *final(writer)
                == *old(writer),
    {
        let signed: bool = self.measurement_attributes.signature_requested();
        let with_slot: bool = signed && version != SpdmVersion::SpdmVersion10;
        let needed: usize = if with_slot {
            3 + SPDM_NONCE_SIZE
        } else if signed {
            2 + SPDM_NONCE_SIZE
        } else {
            2
        };
        if writer.left() < needed {
            return Err(SpdmStatus::BufferFull);
        }
        let ghost w0 = *writer;
        let _ = writer.push_u8(self.measurement_attributes.bits);
        let _ = writer.push_u8(self.measurement_operation.get_u8());
        if signed {
            let _ = writer.extend_from_slice(self.nonce.data.as_slice());
            if with_slot {
                let _ = writer.push_u8(self.slot_id);
            }
        }
        assert(writer@ =~= w0@ + self@.spec_encode(version));
        Ok(needed)
    }

    /// Read a body. The cursor moves past it where there is one.
    pub fn spdm_read(version: SpdmVersion, reader: &mut Reader) -> (r: Option<Self>)
        ensures
            r is Some <==> SpdmGetMeasurementsRequest::spec_read(
                old(reader).remaining(),
                version,
            ) is Some,
            r matches Some(p) ==> {
                let expected = SpdmGetMeasurementsRequest::spec_read(
                    old(reader).remaining(),
                    version,
                )->0;
                &&& p@ == expected.0
                &&& final(reader).advanced_from(*old(reader), expected.1)
            },
            final(reader).bytes() == old(reader).bytes(),
    {
        if reader.left() < 2 {
            return None;
        }
        let ghost rest = reader.remaining();
        let ghost r0 = *reader;
        let bits = match reader.read_u8() {
            Some(b) => b,
            None => {
                return None;
            },
        };
        let ghost r1 = *reader;
        let op = match reader.read_u8() {
            Some(b) => b,
            None => {
                return None;
            },
        };
        let ghost r2 = *reader;
        proof {
            r1.lemma_advanced(r0, 1);
            r2.lemma_advanced(r1, 1);
            assert(r2.remaining() =~= rest.subrange(2, rest.len() as int));
        }
        let measurement_attributes = SpdmMeasurementeAttributes { bits };
        let measurement_operation = SpdmMeasurementOperation::from_u8(op);
        let mut nonce = SpdmNonceStruct::new();
        let mut slot_id: u8 = 0;
        if measurement_attributes.signature_requested() {
            let raw = match reader.take(SPDM_NONCE_SIZE) {
                Some(raw) => raw,
                None => {
                    return None;
                },
            };
            let ghost r3 = *reader;
            proof {
                r3.lemma_advanced(r2, SPDM_NONCE_SIZE as nat);
                assert(raw@ =~= rest.subrange(2, 2 + SPDM_NONCE_SIZE));
                assert(r3.remaining() =~= rest.subrange(
                    2 + SPDM_NONCE_SIZE,
                    rest.len() as int,
                ));
            }
            nonce =
            match SpdmNonceStruct::from_bytes(raw) {
                Some(n) => n,
                None => {
                    return None;
                },
            };
            if version != SpdmVersion::SpdmVersion10 {
                slot_id =
                match reader.read_u8() {
                    Some(b) => b,
                    None => {
                        return None;
                    },
                };
            }
        }
        Some(
            SpdmGetMeasurementsRequestPayload {
                measurement_attributes,
                measurement_operation,
                nonce,
                slot_id,
            },
        )
    }
}

/// A GET_MEASUREMENTS body that was written is read back as it was.
pub proof fn lemma_get_measurements_roundtrip(
    p: SpdmGetMeasurementsRequest,
    version: SpdmVersion,
    rest: Seq<u8>,
)
    requires
        p.wf(version),
    ensures
        SpdmGetMeasurementsRequest::spec_read(p.spec_encode(version) + rest, version) == Some(
            (p, p.spec_encode(version).len()),
        ),
{
    let bytes = p.spec_encode(version) + rest;
    assert(bytes[0] == p.measurement_attributes.bits);
    assert(bytes[1] == p.measurement_operation.spec_u8());
    if p.measurement_attributes.spec_signature_requested() {
        assert(bytes.subrange(2, 2 + SPDM_NONCE_SIZE) =~= p.nonce);
        if spec_request_has_slot(version) {
            assert(bytes[2 + SPDM_NONCE_SIZE] == p.slot_id);
        }
    }
}

/// Whether the measurements have changed since the responder last reported them.
#[derive(Clone, Copy, Debug, PartialEq, Eq, Structural)]
pub enum SpdmMeasurementContentChanged {
    NotSupported,
    DetectedChange,
    NoChange,
    Reserved,
}

impl SpdmMeasurementContentChanged {
    /// The two bits that stand for the value on the wire.
    pub open spec fn spec_code(self) -> u8 {
        match self {
            SpdmMeasurementContentChanged::NotSupported => 0,
            SpdmMeasurementContentChanged::DetectedChange => 1,
            SpdmMeasurementContentChanged::NoChange => 2,
            SpdmMeasurementContentChanged::Reserved => 3,
        }
    }

    /// The value that two bits stand for.
    pub open spec fn spec_from_code(c: u8) -> Self {
        if c == 0 {
            SpdmMeasurementContentChanged::NotSupported
        } else if c == 1 {
            SpdmMeasurementContentChanged::DetectedChange
        } else if c == 2 {
            SpdmMeasurementContentChanged::NoChange
        } else {
            SpdmMeasurementContentChanged::Reserved
        }
    }

    pub fn get_code(&self) -> (c: u8)
        ensures
            c == self.spec_code(),
            c < 4,
    {
        match self {
            SpdmMeasurementContentChanged::NotSupported => 0,
            SpdmMeasurementContentChanged::DetectedChange => 1,
            SpdmMeasurementContentChanged::NoChange => 2,
            SpdmMeasurementContentChanged::Reserved => 3,
        }
    }

    pub fn from_code(c: u8) -> (r: Self)
        ensures
            r == Self::spec_from_code(c),
    {
        if c == 0 {
            SpdmMeasurementContentChanged::NotSupported
        } else if c == 1 {
            SpdmMeasurementContentChanged::DetectedChange
        } else if c == 2 {
            SpdmMeasurementContentChanged::NoChange
        } else {
            SpdmMeasurementContentChanged::Reserved
        }
    }
}

/// The measurement blocks of a response, as they came: the first
/// `measurement_record_length` bytes of `measurement_record_data`.
#[derive(Clone, Copy, Debug)]
pub struct SpdmMeasurementRecordStructure {
    pub number_of_blocks: u8,
    pub measurement_record_length: u32,
    pub measurement_record_data: [u8; MAX_SPDM_MEASUREMENT_RECORD_SIZE],
}

/// The only layout of measurement blocks there is, as a block names it.
pub const SPDM_MEASUREMENT_SPECIFICATION_DMTF: u8 = 0x01;

/// The bit of the type of a measurement that says that the value is a raw bit stream,
/// not a digest.
pub const SPDM_MEASUREMENT_RAW_BIT_STREAM: u8 = 0x80;

/// Whether `record` is exactly `blocks` measurement blocks, one after the other.
///
/// A block is its index, the layout it is in, the size of its measurement in two
/// bytes, and the measurement; the measurement is its type, the size of its value in
/// two bytes, and the value. The layout must be the one there is, the measurement
/// must be exactly its type, the size of its value and the value, and a value that is
/// a digest must have `hash_size` bytes, the size of the negotiated measurement hash.
pub open spec fn spec_blocks_well_formed(record: Seq<u8>, blocks: nat, hash_size: nat) -> bool
    decreases blocks,
{
    if blocks == 0 {
        record.len() == 0
    } else if record.len() < 7 {
        false
    } else {
        let measurement_size = crate::codec::spec_u16_from_le(record.subrange(2, 4)) as int;
        let value_size = crate::codec::spec_u16_from_le(record.subrange(5, 7)) as int;
        &&& record[1] == SPDM_MEASUREMENT_SPECIFICATION_DMTF
        &&& measurement_size == 3 + value_size
        &&& record.len() >= 4 + measurement_size
        &&& (record[4] >= SPDM_MEASUREMENT_RAW_BIT_STREAM || value_size == hash_size)
        &&& spec_blocks_well_formed(
            record.subrange(4 + measurement_size, record.len() as int),
            (blocks - 1) as nat,
            hash_size,
        )
    }
}

/// Whether `record` is exactly `blocks` measurement blocks: see
/// `spec_blocks_well_formed`.
pub fn blocks_well_formed(record: &[u8], blocks: u8, hash_size: u16) -> (r: bool)
    ensures
        r == spec_blocks_well_formed(record@, blocks as nat, hash_size as nat),
{
    let mut at: usize = 0;
    let mut done: u8 = 0;
    assert(record@.subrange(0, record@.len() as int) =~= record@);
    while done < blocks
        invariant
            at <= record@.len(),
            done <= blocks,
            spec_blocks_well_formed(record@, blocks as nat, hash_size as nat)
                == spec_blocks_well_formed(
                record@.subrange(at as int, record@.len() as int),
                (blocks - done) as nat,
                hash_size as nat,
            ),
        decreases blocks - done,
    {
        let ghost rest = record@.subrange(at as int, record@.len() as int);
        if record.len() - at < 7 {
            return false;
        }
        let measurement_size: usize = record[at + 2] as usize + record[at + 3] as usize * 256;
        let value_size: usize = record[at + 5] as usize + record[at + 6] as usize * 256;
        proof {
            assert(rest.subrange(2, 4)[0] == record@[at + 2]);
            assert(rest.subrange(2, 4)[1] == record@[at + 3]);
            assert(rest.subrange(5, 7)[0] == record@[at + 5]);
            assert(rest.subrange(5, 7)[1] == record@[at + 6]);
            assert(rest[1] == record@[at + 1]);
            assert(rest[4] == record@[at + 4]);
        }
        if record[at + 1] != SPDM_MEASUREMENT_SPECIFICATION_DMTF {
            return false;
        }
        if measurement_size != 3 + value_size {
            return false;
        }
        if record.len() - at - 4 < measurement_size {
            return false;
        }
        if record[at + 4] < SPDM_MEASUREMENT_RAW_BIT_STREAM && value_size != hash_size as usize {
            return false;
        }
        proof {
            assert(rest.subrange(4 + measurement_size, rest.len() as int) =~= record@.subrange(
                at + 4 + measurement_size,
                record@.len() as int,
            ));
        }
        at = at + 4 + measurement_size;
        done = done + 1;
    }
    at == record.len()
}

impl SpdmMeasurementRecordStructure {
    pub open spec fn wf(self) -> bool {
        self.measurement_record_length <= MAX_SPDM_MEASUREMENT_RECORD_SIZE
    }

    pub open spec fn spec_bytes(self) -> Seq<u8> {
        self.measurement_record_data@.subrange(0, self.measurement_record_length as int)
    }
}

/// Opaque data of a response: the first `data_size` bytes of `data`.
#[derive(Clone, Copy, Debug)]
pub struct SpdmOpaqueStruct {
    pub data_size: u16,
    pub data: [u8; MAX_SPDM_OPAQUE_SIZE],
}

impl SpdmOpaqueStruct {
    pub open spec fn wf(self) -> bool {
        self.data_size <= MAX_SPDM_OPAQUE_SIZE
    }

    pub open spec fn spec_bytes(self) -> Seq<u8> {
        self.data@.subrange(0, self.data_size as int)
    }
}

/// The body of a MEASUREMENTS response.
#[derive(Clone, Copy, Debug)]
pub struct SpdmMeasurementsResponsePayload {
    pub number_of_measurement: u8,
    pub slot_id: u8,
    pub content_changed: SpdmMeasurementContentChanged,
    pub measurement_record: SpdmMeasurementRecordStructure,
    pub nonce: SpdmNonceStruct,
    pub opaque: SpdmOpaqueStruct,
    pub signature: SpdmSignatureStruct,
}

/// What a MEASUREMENTS body says.
pub struct SpdmMeasurementsResponse {
    pub number_of_measurement: u8,
    pub slot_id: u8,
    pub content_changed: SpdmMeasurementContentChanged,
    pub number_of_blocks: u8,
    pub measurement_record: Seq<u8>,
    pub nonce: Seq<u8>,
    pub opaque: Seq<u8>,
    pub signature: Seq<u8>,
}

impl View for SpdmMeasurementsResponsePayload {
    type V = SpdmMeasurementsResponse;

    open spec fn view(&self) -> SpdmMeasurementsResponse {
        SpdmMeasurementsResponse {
            number_of_measurement: self.number_of_measurement,
            slot_id: self.slot_id,
            content_changed: self.content_changed,
            number_of_blocks: self.measurement_record.number_of_blocks,
            measurement_record: self.measurement_record.spec_bytes(),
            nonce: self.nonce.data@,
            opaque: self.opaque.spec_bytes(),
            signature: self.signature.spec_bytes(),
        }
    }
}

impl SpdmMeasurementsResponse {
    /// Whether the fields are ones that a body in `version` with a signature of
    /// `signature_size` bytes can carry.
    pub open spec fn wf(self, version: SpdmVersion, signature_size: nat) -> bool {
        &&& self.slot_id < 16
        &&& version != SpdmVersion::SpdmVersion12 ==> self.content_changed
            == SpdmMeasurementContentChanged::NotSupported
        &&& self.measurement_record.len() <= MAX_SPDM_MEASUREMENT_RECORD_SIZE
        &&& self.nonce.len() == SPDM_NONCE_SIZE
        &&& self.opaque.len() <= MAX_SPDM_OPAQUE_SIZE
        &&& self.signature.len() == signature_size
        &&& signature_size <= SPDM_MAX_ASYM_KEY_SIZE
    }

    /// The second parameter byte: the slot in the low four bits, the change report in
    /// the two bits above them, from the third version on.
    pub open spec fn spec_param2(self, version: SpdmVersion) -> u8 {
        if version == SpdmVersion::SpdmVersion12 {
            (self.slot_id + 16 * self.content_changed.spec_code()) as u8
        } else {
            self.slot_id
        }
    }

    /// The body on the wire.
    pub open spec fn spec_encode(self, version: SpdmVersion) -> Seq<u8> {
        seq![self.number_of_measurement, self.spec_param2(version), self.number_of_blocks]
            + crate::codec::spec_u24_to_le(self.measurement_record.len() as u32) + self.measurement_record
            + self.nonce + crate::codec::spec_u16_to_le(self.opaque.len() as u16) + self.opaque
            + self.signature
    }

    /// The body that `bytes` start with and its length, if they start with one, where a
    /// signature of `signature_size` bytes ends it.
    pub open spec fn spec_read(bytes: Seq<u8>, version: SpdmVersion, signature_size: nat) -> Option<
        (SpdmMeasurementsResponse, nat),
    > {
        if bytes.len() < 6 || signature_size > SPDM_MAX_ASYM_KEY_SIZE {
            None
        } else {
            let record_len = crate::codec::spec_u24_from_le(bytes.subrange(3, 6)) as int;
            let opaque_at = 6 + record_len + SPDM_NONCE_SIZE;
            if record_len > MAX_SPDM_MEASUREMENT_RECORD_SIZE || bytes.len() < opaque_at + 2 {
                None
            } else {
                let opaque_len = crate::codec::spec_u16_from_le(bytes.subrange(opaque_at, opaque_at + 2)) as int;
                let end = opaque_at + 2 + opaque_len + signature_size;
                if opaque_len > MAX_SPDM_OPAQUE_SIZE || bytes.len() < end {
                    None
                } else {
                    Some(
                        (
                            SpdmMeasurementsResponse {
                                number_of_measurement: bytes[0],
                                slot_id: bytes[1] % 16,
                                content_changed: if version == SpdmVersion::SpdmVersion12 {
                                    SpdmMeasurementContentChanged::spec_from_code(
                                        (bytes[1] / 16) % 4,
                                    )
                                } else {
                                    SpdmMeasurementContentChanged::NotSupported
                                },
                                number_of_blocks: bytes[2],
                                measurement_record: bytes.subrange(6, 6 + record_len),
                                nonce: bytes.subrange(6 + record_len, opaque_at),
                                opaque: bytes.subrange(opaque_at + 2, opaque_at + 2 + opaque_len),
                                signature: bytes.subrange(opaque_at + 2 + opaque_len, end),
                            },
                            end as nat,
                        ),
                    )
                }
            }
        }
    }
}

impl SpdmMeasurementsResponsePayload {
    pub open spec fn wf(self) -> bool {
        &&& self.measurement_record.wf()
        &&& self.opaque.wf()
        &&& self.signature.wf()
    }

    /// Write the body, or nothing where it does not fit.
    pub fn spdm_encode(&self, version: SpdmVersion, writer: &mut Writer) -> (r: SpdmResult<usize>)
        requires
            self.wf(),
            self.slot_id < 16,
        ensures
            r is Ok <==> old(writer).has_room(self@.spec_encode(version).len()),
            r matches Ok(n) ==> n == self@.spec_encode(version).len() && final(writer).appended_to(*old(writer), self@.spec_encode(version)),
            r is Err ==> r == Err::<usize, SpdmStatus>(SpdmStatus::BufferFull) && *final(writer)
                == *old(writer),
    {
        let record_len: usize = self.measurement_record.measurement_record_length as usize;
        let opaque_len: usize = self.opaque.data_size as usize;
        let signature_len: usize = self.signature.data_size as usize;
        let needed: usize = 6 + record_len + SPDM_NONCE_SIZE + 2 + opaque_len + signature_len;
        if writer.left() < needed {
            return Err(SpdmStatus::BufferFull);
        }
        let param2: u8 = if version == SpdmVersion::SpdmVersion12 {
            self.slot_id + 16 * self.content_changed.get_code()
        } else {
            self.slot_id
        };
        let ghost w0 = *writer;
        let _ = writer.push_u8(self.number_of_measurement);
        let _ = writer.push_u8(param2);
        let _ = writer.push_u8(self.measurement_record.number_of_blocks);
        let _ = writer.push_u24(self.measurement_record.measurement_record_length);
        let _ = writer.extend_from_slice(
            vstd::slice::slice_subrange(
                self.measurement_record.measurement_record_data.as_slice(),
                0,
                record_len,
            ),
        );
        let _ = writer.extend_from_slice(self.nonce.data.as_slice());
        let _ = writer.push_u16(self.opaque.data_size);
        let _ = writer.extend_from_slice(
            vstd::slice::slice_subrange(self.opaque.data.as_slice(), 0, opaque_len),
        );
        let _ = writer.extend_from_slice(
            vstd::slice::slice_subrange(self.signature.data.as_slice(), 0, signature_len),
        );
        assert(writer@ =~= w0@ + self@.spec_encode(version));
        Ok(needed)
    }

    /// Read a body that a signature of `signature_size` bytes ends. The cursor moves past
    /// the body where there is one.
    pub fn spdm_read(version: SpdmVersion, signature_size: u16, reader: &mut Reader) -> (r: Option<
        Self,
    >)
        ensures
            r is Some <==> SpdmMeasurementsResponse::spec_read(
                old(reader).remaining(),
                version,
                signature_size as nat,
            ) is Some,
            r matches Some(p) ==> {
                let expected = SpdmMeasurementsResponse::spec_read(
                    old(reader).remaining(),
                    version,
                    signature_size as nat,
                )->0;
                &&& p.wf()
                &&& p@ == expected.0
                &&& final(reader).advanced_from(*old(reader), expected.1)
            },
            final(reader).bytes() == old(reader).bytes(),
    {
        if reader.left() < 6 || signature_size as usize > SPDM_MAX_ASYM_KEY_SIZE {
            return None;
        }
        let ghost rest = reader.remaining();
        let ghost r0 = *reader;
        let head = match reader.take(3) {
            Some(h) => h,
            None => {
                return None;
            },
        };
        let ghost r3 = *reader;
        let record_len = match reader.read_u24() {
            Some(n) => n,
            None => {
                return None;
            },
        };
        let ghost r6 = *reader;
        proof {
            r3.lemma_advanced(r0, 3);
            r6.lemma_advanced(r3, 3);
            assert(r6.remaining() =~= rest.subrange(6, rest.len() as int));
            assert(rest.subrange(3, 6)[0] == r3.remaining()[0]);
            assert(rest.subrange(3, 6)[1] == r3.remaining()[1]);
            assert(rest.subrange(3, 6)[2] == r3.remaining()[2]);
        }
        if record_len as usize > MAX_SPDM_MEASUREMENT_RECORD_SIZE {
            return None;
        }
        let ghost opaque_at: int = 6 + record_len + SPDM_NONCE_SIZE;
        let record = match reader.take(record_len as usize) {
            Some(s) => s,
            None => {
                return None;
            },
        };
        let ghost ra = *reader;
        proof {
            ra.lemma_advanced(r6, record_len as nat);
            assert(ra.remaining() =~= rest.subrange(6 + record_len, rest.len() as int));
        }
        let raw_nonce = match reader.take(SPDM_NONCE_SIZE) {
            Some(s) => s,
            None => {
                return None;
            },
        };
        let ghost rb = *reader;
        proof {
            rb.lemma_advanced(ra, SPDM_NONCE_SIZE as nat);
            assert(rb.remaining() =~= rest.subrange(opaque_at, rest.len() as int));
        }
        let opaque_len = match reader.read_u16() {
            Some(n) => n,
            None => {
                return None;
            },
        };
        let ghost rc = *reader;
        proof {
            rc.lemma_advanced(rb, 2);
            assert(rc.remaining() =~= rest.subrange(opaque_at + 2, rest.len() as int));
            assert(rest.subrange(opaque_at, opaque_at + 2)[0] == rb.remaining()[0]);
            assert(rest.subrange(opaque_at, opaque_at + 2)[1] == rb.remaining()[1]);
        }
        if opaque_len as usize > MAX_SPDM_OPAQUE_SIZE {
            return None;
        }
        if reader.left() < opaque_len as usize + signature_size as usize {
            return None;
        }
        let raw_opaque = match reader.take(opaque_len as usize) {
            Some(s) => s,
            None => {
                return None;
            },
        };
        let ghost rd = *reader;
        proof {
            rd.lemma_advanced(rc, opaque_len as nat);
            assert(rd.remaining() =~= rest.subrange(
                opaque_at + 2 + opaque_len,
                rest.len() as int,
            ));
        }
        let raw_signature = match reader.take(signature_size as usize) {
            Some(s) => s,
            None => {
                return None;
            },
        };
        proof {
            assert(head@ =~= rest.subrange(0, 3));
            assert(record@ =~= rest.subrange(6, 6 + record_len));
            assert(raw_nonce@ =~= rest.subrange(6 + record_len, opaque_at));
            assert(raw_opaque@ =~= rest.subrange(opaque_at + 2, opaque_at + 2 + opaque_len));
            assert(raw_signature@ =~= rest.subrange(
                opaque_at + 2 + opaque_len,
                opaque_at + 2 + opaque_len + signature_size,
            ));
        }
        let nonce = match SpdmNonceStruct::from_bytes(raw_nonce) {
            Some(n) => n,
            None => {
                return None;
            },
        };
        let signature = match SpdmSignatureStruct::from_bytes(raw_signature) {
            Some(s) => s,
            None => {
                return None;
            },
        };
        let mut measurement_record_data = [0u8; MAX_SPDM_MEASUREMENT_RECORD_SIZE];
        fill_array_front(&mut measurement_record_data, record);
        let mut opaque_data = [0u8; MAX_SPDM_OPAQUE_SIZE];
        fill_array_front(&mut opaque_data, raw_opaque);
        let param2: u8 = head[1];
        let content_changed = if version == SpdmVersion::SpdmVersion12 {
            SpdmMeasurementContentChanged::from_code((param2 / 16) % 4)
        } else {
            SpdmMeasurementContentChanged::NotSupported
        };
        Some(
            SpdmMeasurementsResponsePayload {
                number_of_measurement: head[0],
                slot_id: param2 % 16,
                content_changed,
                measurement_record: SpdmMeasurementRecordStructure {
                    number_of_blocks: head[2],
                    measurement_record_length: record_len,
                    measurement_record_data,
                },
                nonce,
                opaque: SpdmOpaqueStruct { data_size: opaque_len, data: opaque_data },
                signature,
            },
        )
    }
}

/// A MEASUREMENTS body that was written is read back as it was.
pub proof fn lemma_measurements_roundtrip(
    p: SpdmMeasurementsResponse,
    version: SpdmVersion,
    signature_size: nat,
    rest: Seq<u8>,
)
    requires
        p.wf(version, signature_size),
    ensures
        SpdmMeasurementsResponse::spec_read(
            p.spec_encode(version) + rest,
            version,
            signature_size,
        ) == Some((p, p.spec_encode(version).len())),
{
    let bytes = p.spec_encode(version) + rest;
    let record_len = p.measurement_record.len() as int;
    let opaque_len = p.opaque.len() as int;
    let opaque_at = 6 + record_len + SPDM_NONCE_SIZE;
    let end = opaque_at + 2 + opaque_len + signature_size;
    assert(bytes.len() >= end);
    assert(bytes[0] == p.number_of_measurement);
    assert(bytes[1] == p.spec_param2(version));
    assert(bytes[2] == p.number_of_blocks);
    assert(bytes.subrange(3, 6) =~= crate::codec::spec_u24_to_le(record_len as u32));
    crate::codec::lemma_le_value_roundtrip(opaque_len as u16, record_len as u32);
    assert(bytes.subrange(6, 6 + record_len) =~= p.measurement_record);
    assert(bytes.subrange(6 + record_len, opaque_at) =~= p.nonce);
    assert(bytes.subrange(opaque_at, opaque_at + 2) =~= crate::codec::spec_u16_to_le(opaque_len as u16));
    assert(bytes.subrange(opaque_at + 2, opaque_at + 2 + opaque_len) =~= p.opaque);
    assert(bytes.subrange(opaque_at + 2 + opaque_len, end) =~= p.signature);
    let c = p.content_changed.spec_code();
    assert(c < 4);
    assert((p.slot_id + 16 * c) % 16 == p.slot_id as int);
    assert(((p.slot_id + 16 * c) / 16) % 4 == c as int);
    assert(SpdmMeasurementContentChanged::spec_from_code(c) == p.content_changed);
    let got_pair = SpdmMeasurementsResponse::spec_read(bytes, version, signature_size)->0;
    let got = got_pair.0;
    assert(got.measurement_record =~= p.measurement_record);
    assert(got.nonce =~= p.nonce);
    assert(got.opaque =~= p.opaque);
    assert(got.signature =~= p.signature);
}

} // verus!
