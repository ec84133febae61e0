//! What a connection negotiates, and the fixed-size values that messages carry.

use vstd::prelude::*;
use crate::config::{
    MAX_SPDM_CERT_CHAIN_DATA_SIZE, SPDM_MAX_ASYM_KEY_SIZE, SPDM_MAX_HASH_SIZE, SPDM_NONCE_SIZE,
};

verus! {

/// A version of the protocol.
#[derive(Clone, Copy, Debug, PartialEq, Eq, Structural)]
pub enum SpdmVersion {
    SpdmVersion10,
    SpdmVersion11,
    SpdmVersion12,
}

impl SpdmVersion {
    /// The byte that stands for the version in a message header.
    pub open spec fn spec_u8(self) -> u8 {
        match self {
            SpdmVersion::SpdmVersion10 => 0x10,
            SpdmVersion::SpdmVersion11 => 0x11,
            SpdmVersion::SpdmVersion12 => 0x12,
        }
    }

    /// The version that a header byte stands for, if it is one.
    pub open spec fn spec_from_u8(b: u8) -> Option<SpdmVersion> {
        if b == 0x10 {
            Some(SpdmVersion::SpdmVersion10)
        } else if b == 0x11 {
            Some(SpdmVersion::SpdmVersion11)
        } else if b == 0x12 {
            Some(SpdmVersion::SpdmVersion12)
        } else {
            None
        }
    }

    pub fn get_u8(&self) -> (b: u8)
        ensures
            b == self.spec_u8(),
    {
        match self {
            SpdmVersion::SpdmVersion10 => 0x10,
            SpdmVersion::SpdmVersion11 => 0x11,
            SpdmVersion::SpdmVersion12 => 0x12,
        }
    }

    pub fn from_u8(b: u8) -> (r: Option<SpdmVersion>)
        ensures
            r == Self::spec_from_u8(b),
    {
        if b == 0x10 {
            Some(SpdmVersion::SpdmVersion10)
        } else if b == 0x11 {
            Some(SpdmVersion::SpdmVersion11)
        } else if b == 0x12 {
            Some(SpdmVersion::SpdmVersion12)
        } else {
            None
        }
    }
}

impl Default for SpdmVersion {
    fn default() -> (r: Self)
        ensures
            r == SpdmVersion::SpdmVersion10,
    {
        SpdmVersion::SpdmVersion10
    }
}

/// The hash that a connection has selected.
#[allow(non_camel_case_types)]
#[derive(Clone, Copy, Debug, PartialEq, Eq, Structural)]
pub enum SpdmBaseHashAlgo {
    TPM_ALG_SHA_256,
    TPM_ALG_SHA_384,
    TPM_ALG_SHA_512,
}

impl SpdmBaseHashAlgo {
    /// The length of a digest, in bytes.
    pub open spec fn spec_size(self) -> u16 {
        match self {
            SpdmBaseHashAlgo::TPM_ALG_SHA_256 => 32,
            SpdmBaseHashAlgo::TPM_ALG_SHA_384 => 48,
            SpdmBaseHashAlgo::TPM_ALG_SHA_512 => 64,
        }
    }

    pub fn get_size(&self) -> (n: u16)
        ensures
            n == self.spec_size(),
            32 <= n <= SPDM_MAX_HASH_SIZE,
    {
        match self {
            SpdmBaseHashAlgo::TPM_ALG_SHA_256 => 32,
            SpdmBaseHashAlgo::TPM_ALG_SHA_384 => 48,
            SpdmBaseHashAlgo::TPM_ALG_SHA_512 => 64,
        }
    }
}

impl Default for SpdmBaseHashAlgo {
    fn default() -> (r: Self)
        ensures
            r == SpdmBaseHashAlgo::TPM_ALG_SHA_256,
    {
        SpdmBaseHashAlgo::TPM_ALG_SHA_256
    }
}

/// The signature scheme that a connection has selected.
#[allow(non_camel_case_types)]
#[derive(Clone, Copy, Debug, PartialEq, Eq, Structural)]
pub enum SpdmBaseAsymAlgo {
    TPM_ALG_RSASSA_2048,
    TPM_ALG_RSAPSS_2048,
    TPM_ALG_RSASSA_3072,
    TPM_ALG_RSAPSS_3072,
    TPM_ALG_ECDSA_ECC_NIST_P256,
    TPM_ALG_RSASSA_4096,
    TPM_ALG_RSAPSS_4096,
    TPM_ALG_ECDSA_ECC_NIST_P384,
    TPM_ALG_ECDSA_ECC_NIST_P521,
}

impl SpdmBaseAsymAlgo {
    /// The length of a signature, in bytes.
    pub open spec fn spec_size(self) -> u16 {
        match self {
            SpdmBaseAsymAlgo::TPM_ALG_RSASSA_2048 => 256,
            SpdmBaseAsymAlgo::TPM_ALG_RSAPSS_2048 => 256,
            SpdmBaseAsymAlgo::TPM_ALG_RSASSA_3072 => 384,
            SpdmBaseAsymAlgo::TPM_ALG_RSAPSS_3072 => 384,
            SpdmBaseAsymAlgo::TPM_ALG_ECDSA_ECC_NIST_P256 => 64,
            SpdmBaseAsymAlgo::TPM_ALG_RSASSA_4096 => 512,
            SpdmBaseAsymAlgo::TPM_ALG_RSAPSS_4096 => 512,
            SpdmBaseAsymAlgo::TPM_ALG_ECDSA_ECC_NIST_P384 => 96,
            SpdmBaseAsymAlgo::TPM_ALG_ECDSA_ECC_NIST_P521 => 132,
        }
    }

    pub fn get_size(&self) -> (n: u16)
        ensures
            n == self.spec_size(),
            64 <= n <= SPDM_MAX_ASYM_KEY_SIZE,
    {
        match self {
            SpdmBaseAsymAlgo::TPM_ALG_RSASSA_2048 => 256,
            SpdmBaseAsymAlgo::TPM_ALG_RSAPSS_2048 => 256,
            SpdmBaseAsymAlgo::TPM_ALG_RSASSA_3072 => 384,
            SpdmBaseAsymAlgo::TPM_ALG_RSAPSS_3072 => 384,
            SpdmBaseAsymAlgo::TPM_ALG_ECDSA_ECC_NIST_P256 => 64,
            SpdmBaseAsymAlgo::TPM_ALG_RSASSA_4096 => 512,
            SpdmBaseAsymAlgo::TPM_ALG_RSAPSS_4096 => 512,
            SpdmBaseAsymAlgo::TPM_ALG_ECDSA_ECC_NIST_P384 => 96,
            SpdmBaseAsymAlgo::TPM_ALG_ECDSA_ECC_NIST_P521 => 132,
        }
    }
}

impl Default for SpdmBaseAsymAlgo {
    fn default() -> (r: Self)
        ensures
            r == SpdmBaseAsymAlgo::TPM_ALG_ECDSA_ECC_NIST_P256,
    {
        SpdmBaseAsymAlgo::TPM_ALG_ECDSA_ECC_NIST_P256
    }
}

/// The key-agreement group that a connection has selected.
#[allow(non_camel_case_types)]
#[derive(Clone, Copy, Debug, PartialEq, Eq, Structural)]
pub enum SpdmDheAlgo {
    FFDHE_2048,
    FFDHE_3072,
    FFDHE_4096,
    SECP_256_R1,
    SECP_384_R1,
    SECP_521_R1,
}

impl Default for SpdmDheAlgo {
    fn default() -> (r: Self)
        ensures
            r == SpdmDheAlgo::SECP_256_R1,
    {
        SpdmDheAlgo::SECP_256_R1
    }
}

/// The record-layer cipher that a connection has selected.
#[allow(non_camel_case_types)]
#[derive(Clone, Copy, Debug, PartialEq, Eq, Structural)]
pub enum SpdmAeadAlgo {
    AES_128_GCM,
    AES_256_GCM,
    CHACHA20_POLY1305,
}

impl SpdmAeadAlgo {
    pub open spec fn spec_key_size(self) -> u16 {
        match self {
            SpdmAeadAlgo::AES_128_GCM => 16,
            SpdmAeadAlgo::AES_256_GCM => 32,
            SpdmAeadAlgo::CHACHA20_POLY1305 => 32,
        }
    }

    pub fn get_key_size(&self) -> (n: u16)
        ensures
            n == self.spec_key_size(),
            16 <= n <= 32,
    {
        match self {
            SpdmAeadAlgo::AES_128_GCM => 16,
            SpdmAeadAlgo::AES_256_GCM => 32,
            SpdmAeadAlgo::CHACHA20_POLY1305 => 32,
        }
    }

    pub fn get_iv_size(&self) -> (n: u16)
        ensures
            n == 12,
    {
        12
    }

    pub fn get_tag_size(&self) -> (n: u16)
        ensures
            n == 16,
    {
        16
    }
}

impl Default for SpdmAeadAlgo {
    fn default() -> (r: Self)
        ensures
            r == SpdmAeadAlgo::AES_128_GCM,
    {
        SpdmAeadAlgo::AES_128_GCM
    }
}

/// The key schedule that a connection has selected.
#[allow(non_camel_case_types)]
#[derive(Clone, Copy, Debug, PartialEq, Eq, Structural)]
pub enum SpdmKeyScheduleAlgo {
    SPDM_KEY_SCHEDULE,
}

impl Default for SpdmKeyScheduleAlgo {
    fn default() -> (r: Self)
        ensures
            r == SpdmKeyScheduleAlgo::SPDM_KEY_SCHEDULE,
    {
        SpdmKeyScheduleAlgo::SPDM_KEY_SCHEDULE
    }
}

/// The layout of measurement blocks that a connection has selected.
#[derive(Clone, Copy, Debug, PartialEq, Eq, Structural)]
pub enum SpdmMeasurementSpecification {
    DMTF,
}

impl Default for SpdmMeasurementSpecification {
    fn default() -> (r: Self)
        ensures
            r == SpdmMeasurementSpecification::DMTF,
    {
        SpdmMeasurementSpecification::DMTF
    }
}

/// How a responder condenses a measurement.
#[allow(non_camel_case_types)]
#[derive(Clone, Copy, Debug, PartialEq, Eq, Structural)]
pub enum SpdmMeasurementHashAlgo {
    RAW_BIT_STREAM,
    TPM_ALG_SHA_256,
    TPM_ALG_SHA_384,
    TPM_ALG_SHA_512,
}

impl SpdmMeasurementHashAlgo {
    pub open spec fn spec_size(self) -> u16 {
        match self {
            SpdmMeasurementHashAlgo::RAW_BIT_STREAM => 0,
            SpdmMeasurementHashAlgo::TPM_ALG_SHA_256 => 32,
            SpdmMeasurementHashAlgo::TPM_ALG_SHA_384 => 48,
            SpdmMeasurementHashAlgo::TPM_ALG_SHA_512 => 64,
        }
    }

    pub fn get_size(&self) -> (n: u16)
        ensures
            n == self.spec_size(),
    {
        match self {
            SpdmMeasurementHashAlgo::RAW_BIT_STREAM => 0,
            SpdmMeasurementHashAlgo::TPM_ALG_SHA_256 => 32,
            SpdmMeasurementHashAlgo::TPM_ALG_SHA_384 => 48,
            SpdmMeasurementHashAlgo::TPM_ALG_SHA_512 => 64,
        }
    }
}

impl Default for SpdmMeasurementHashAlgo {
    fn default() -> (r: Self)
        ensures
            r == SpdmMeasurementHashAlgo::RAW_BIT_STREAM,
    {
        SpdmMeasurementHashAlgo::RAW_BIT_STREAM
    }
}

/// Capability bits of a requester.
#[derive(Clone, Copy, Debug, PartialEq, Eq, Structural)]
pub struct SpdmRequestCapabilityFlags {
    pub bits: u32,
}

/// Capability bits of a responder.
#[derive(Clone, Copy, Debug, PartialEq, Eq, Structural)]
pub struct SpdmResponseCapabilityFlags {
    pub bits: u32,
}

pub const SPDM_CAP_CERT: u32 = 0x0000_0002;

pub const SPDM_CAP_CHAL: u32 = 0x0000_0004;

pub const SPDM_CAP_MEAS_NO_SIG: u32 = 0x0000_0008;

pub const SPDM_CAP_MEAS_SIG: u32 = 0x0000_0010;

pub const SPDM_CAP_ENCRYPT: u32 = 0x0000_0040;

pub const SPDM_CAP_MAC: u32 = 0x0000_0080;

pub const SPDM_CAP_MUT_AUTH: u32 = 0x0000_0100;

pub const SPDM_CAP_KEY_EX: u32 = 0x0000_0200;

pub const SPDM_CAP_PSK: u32 = 0x0000_0400;

pub const SPDM_CAP_HBEAT: u32 = 0x0000_2000;

pub const SPDM_CAP_KEY_UPD: u32 = 0x0000_4000;

pub const SPDM_CAP_HANDSHAKE_IN_THE_CLEAR: u32 = 0x0000_8000;

impl SpdmRequestCapabilityFlags {
    /// Whether every bit of `flags` is set.
    pub open spec fn spec_contains(self, flags: u32) -> bool {
        self.bits & flags == flags
    }

    pub fn contains(&self, flags: u32) -> (b: bool)
        ensures
            b == self.spec_contains(flags),
    {
        self.bits & flags == flags
    }
}

impl SpdmResponseCapabilityFlags {
    /// Whether every bit of `flags` is set.
    pub open spec fn spec_contains(self, flags: u32) -> bool {
        self.bits & flags == flags
    }

    pub fn contains(&self, flags: u32) -> (b: bool)
        ensures
            b == self.spec_contains(flags),
    {
        self.bits & flags == flags
    }
}

impl Default for SpdmRequestCapabilityFlags {
    fn default() -> (r: Self)
        ensures
            r.bits == 0,
    {
        SpdmRequestCapabilityFlags { bits: 0 }
    }
}

impl Default for SpdmResponseCapabilityFlags {
    fn default() -> (r: Self)
        ensures
            r.bits == 0,
    {
        SpdmResponseCapabilityFlags { bits: 0 }
    }
}

/// A digest: the first `data_size` bytes of `data`.
#[derive(Clone, Copy, Debug)]
pub struct SpdmDigestStruct {
    pub data_size: u16,
    pub data: [u8; SPDM_MAX_HASH_SIZE],
}

impl SpdmDigestStruct {
    /// Whether the size lies within the storage.
    pub open spec fn wf(self) -> bool {
        self.data_size <= SPDM_MAX_HASH_SIZE
    }

    /// The bytes of the digest.
    pub open spec fn spec_bytes(self) -> Seq<u8> {
        self.data@.subrange(0, self.data_size as int)
    }

    /// Whether the digest holds nothing: it is empty, and its storage is zero.
    pub open spec fn spec_is_zero(self) -> bool {
        self.data_size == 0 && crate::codec::spec_all_zero(self.data@)
    }

    pub fn new() -> (r: Self)
        ensures
            r.data_size == 0,
            r.wf(),
            r.data@ == Seq::new(SPDM_MAX_HASH_SIZE as nat, |i: int| 0u8),
            r.spec_is_zero(),
    {
        let r = SpdmDigestStruct { data_size: 0, data: [0u8; SPDM_MAX_HASH_SIZE] };
        assert(r.data@ =~= Seq::new(SPDM_MAX_HASH_SIZE as nat, |i: int| 0u8));
        r
    }

    /// The digest that holds `bytes`, if they fit.
    pub fn from_bytes(bytes: &[u8]) -> (r: Option<Self>)
        ensures
            r is Some <==> bytes@.len() <= SPDM_MAX_HASH_SIZE,
            r matches Some(d) ==> d.wf() && d.spec_bytes() == bytes@,
    {
        if bytes.len() > SPDM_MAX_HASH_SIZE {
            return None;
        }
        let mut d = SpdmDigestStruct { data_size: bytes.len() as u16, data: [0u8; SPDM_MAX_HASH_SIZE] };
        let mut i: usize = 0;
        while i < bytes.len()
            invariant
                i <= bytes@.len() <= SPDM_MAX_HASH_SIZE,
                d.data_size == bytes@.len(),
                forall|j: int| 0 <= j < i ==> d.data@[j] == bytes@[j],
            decreases bytes@.len() - i,
        {
            d.data[i] = bytes[i];
            i = i + 1;
        }
        assert(d.spec_bytes() =~= bytes@);
        Some(d)
    }

    pub fn as_ref(&self) -> (r: &[u8])
        requires
            self.wf(),
        ensures
            r@ == self.spec_bytes(),
    {
        vstd::slice::slice_subrange(self.data.as_slice(), 0, self.data_size as usize)
    }
}

/// A signature: the first `data_size` bytes of `data`.
#[derive(Clone, Copy, Debug)]
pub struct SpdmSignatureStruct {
    pub data_size: u16,
    pub data: [u8; SPDM_MAX_ASYM_KEY_SIZE],
}

impl SpdmSignatureStruct {
    /// Whether the size lies within the storage.
    pub open spec fn wf(self) -> bool {
        self.data_size <= SPDM_MAX_ASYM_KEY_SIZE
    }

    /// The bytes of the signature.
    pub open spec fn spec_bytes(self) -> Seq<u8> {
        self.data@.subrange(0, self.data_size as int)
    }

    /// A signature that holds nothing: it is empty, and its storage is zero.
    pub fn new() -> (r: Self)
        ensures
            r.data_size == 0,
            r.wf(),
            r.spec_bytes() == Seq::<u8>::empty(),
            r.data@ == Seq::new(SPDM_MAX_ASYM_KEY_SIZE as nat, |i: int| 0u8),
    {
        let r = SpdmSignatureStruct { data_size: 0, data: [0u8; SPDM_MAX_ASYM_KEY_SIZE] };
        assert(r.spec_bytes() =~= Seq::<u8>::empty());
        assert(r.data@ =~= Seq::new(SPDM_MAX_ASYM_KEY_SIZE as nat, |i: int| 0u8));
        r
    }

    /// The signature that holds `bytes`, if they fit.
    pub fn from_bytes(bytes: &[u8]) -> (r: Option<Self>)
        ensures
            r is Some <==> bytes@.len() <= SPDM_MAX_ASYM_KEY_SIZE,
            r matches Some(d) ==> d.wf() && d.spec_bytes() == bytes@,
    {
        if bytes.len() > SPDM_MAX_ASYM_KEY_SIZE {
            return None;
        }
        let mut d = SpdmSignatureStruct {
            data_size: bytes.len() as u16,
            data: [0u8; SPDM_MAX_ASYM_KEY_SIZE],
        };
        let mut i: usize = 0;
        while i < bytes.len()
            invariant
                i <= bytes@.len() <= SPDM_MAX_ASYM_KEY_SIZE,
                d.data_size == bytes@.len(),
                forall|j: int| 0 <= j < i ==> d.data@[j] == bytes@[j],
            decreases bytes@.len() - i,
        {
            d.data[i] = bytes[i];
            i = i + 1;
        }
        assert(d.spec_bytes() =~= bytes@);
        Some(d)
    }

    pub fn as_ref(&self) -> (r: &[u8])
        requires
            self.wf(),
        ensures
            r@ == self.spec_bytes(),
    {
        vstd::slice::slice_subrange(self.data.as_slice(), 0, self.data_size as usize)
    }
}

/// The nonce of a measurement exchange.
#[derive(Clone, Copy, Debug)]
pub struct SpdmNonceStruct {
    pub data: [u8; SPDM_NONCE_SIZE],
}

impl SpdmNonceStruct {
    pub fn new() -> (r: Self)
        ensures
            r.data@ == Seq::new(SPDM_NONCE_SIZE as nat, |i: int| 0u8),
    {
        let r = SpdmNonceStruct { data: [0u8; SPDM_NONCE_SIZE] };
        assert(r.data@ =~= Seq::new(SPDM_NONCE_SIZE as nat, |i: int| 0u8));
        r
    }

    /// The nonce that holds `bytes`, if there are exactly as many as a nonce has.
    pub fn from_bytes(bytes: &[u8]) -> (r: Option<Self>)
        ensures
            r is Some <==> bytes@.len() == SPDM_NONCE_SIZE,
            r matches Some(d) ==> d.data@ == bytes@,
    {
        if bytes.len() != SPDM_NONCE_SIZE {
            return None;
        }
        let mut d = SpdmNonceStruct { data: [0u8; SPDM_NONCE_SIZE] };
        let mut i: usize = 0;
        while i < SPDM_NONCE_SIZE
            invariant
                i <= SPDM_NONCE_SIZE,
                bytes@.len() == SPDM_NONCE_SIZE,
                forall|j: int| 0 <= j < i ==> d.data@[j] == bytes@[j],
            decreases SPDM_NONCE_SIZE - i,
        {
            d.data[i] = bytes[i];
            i = i + 1;
        }
        assert(d.data@ =~= bytes@);
        Some(d)
    }
}

/// The store of one certificate chain: the first `data_size` bytes of `data`.
///
/// A chain starts with its length in two bytes, two reserved bytes and the digest of its
/// root certificate; the certificates follow, DER after DER.
#[derive(Clone, Copy, Debug)]
pub struct SpdmCertChainData {
    pub data_size: u16,
    pub data: [u8; MAX_SPDM_CERT_CHAIN_DATA_SIZE],
}

impl SpdmCertChainData {
    /// Whether the size lies within the storage.
    pub open spec fn wf(self) -> bool {
        self.data_size <= MAX_SPDM_CERT_CHAIN_DATA_SIZE
    }

    /// The bytes of the chain.
    pub open spec fn spec_bytes(self) -> Seq<u8> {
        self.data@.subrange(0, self.data_size as int)
    }

    /// The store `data` after `portion` was put at `offset`.
    pub open spec fn spec_put_portion(data: Seq<u8>, offset: int, portion: Seq<u8>) -> Seq<u8> {
        Seq::new(
            data.len(),
            |i: int|
                if offset <= i < offset + portion.len() {
                    portion[i - offset]
                } else {
                    data[i]
                },
        )
    }

    /// A store that holds nothing.
    pub open spec fn spec_blank_data() -> Seq<u8> {
        Seq::new(MAX_SPDM_CERT_CHAIN_DATA_SIZE as nat, |i: int| 0u8)
    }

    pub fn new() -> (r: Self)
        ensures
            r.data_size == 0,
            r.wf(),
            r.data@ == Seq::new(MAX_SPDM_CERT_CHAIN_DATA_SIZE as nat, |i: int| 0u8),
    {
        let r = SpdmCertChainData { data_size: 0, data: [0u8; MAX_SPDM_CERT_CHAIN_DATA_SIZE] };
        assert(r.data@ =~= Seq::new(MAX_SPDM_CERT_CHAIN_DATA_SIZE as nat, |i: int| 0u8));
        r
    }

    /// The store that holds `bytes`, if they fit.
    pub fn from_bytes(bytes: &[u8]) -> (r: Option<Self>)
        ensures
            r is Some <==> bytes@.len() <= MAX_SPDM_CERT_CHAIN_DATA_SIZE,
            r matches Some(d) ==> d.wf() && d.spec_bytes() == bytes@,
    {
        if bytes.len() > MAX_SPDM_CERT_CHAIN_DATA_SIZE {
            return None;
        }
        let mut d = SpdmCertChainData::new();
        d.put_portion(0, bytes);
        assert(d.spec_bytes() =~= bytes@);
        Some(d)
    }

    pub fn as_ref(&self) -> (r: &[u8])
        requires
            self.wf(),
        ensures
            r@ == self.spec_bytes(),
    {
        vstd::slice::slice_subrange(self.data.as_slice(), 0, self.data_size as usize)
    }

    /// Put `portion` at `offset` and let the chain end with it.
    pub fn put_portion(&mut self, offset: usize, portion: &[u8])
        requires
            offset + portion@.len() <= MAX_SPDM_CERT_CHAIN_DATA_SIZE,
        ensures
            final(self).wf(),
            final(self).data@ == Self::spec_put_portion(old(self).data@, offset as int, portion@),
            final(self).data_size == offset + portion@.len(),
            final(self).spec_bytes().subrange(offset as int, offset + portion@.len()) == portion@,
    {
        let mut i: usize = 0;
        while i < portion.len()
            invariant
                i <= portion@.len(),
                offset + portion@.len() <= MAX_SPDM_CERT_CHAIN_DATA_SIZE,
                self.data_size == old(self).data_size,
                forall|j: int| offset <= j < offset + i ==> self.data@[j] == portion@[j - offset],
                forall|j: int|
                    0 <= j < MAX_SPDM_CERT_CHAIN_DATA_SIZE && !(offset <= j < offset + i)
                        ==> self.data@[j] == old(self).data@[j],
            decreases portion@.len() - i,
        {
            self.data[offset + i] = portion[i];
            i = i + 1;
        }
        self.data_size = (offset + portion.len()) as u16;
        assert(self.data@ =~= Self::spec_put_portion(old(self).data@, offset as int, portion@));
        assert(self.spec_bytes().subrange(offset as int, offset + portion@.len()) =~= portion@);
    }
}

} // verus!
