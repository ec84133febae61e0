//! How the secrets of a session are drawn from a shared secret and from what the two
//! sides have exchanged.

use vstd::prelude::*;
use crate::codec::slice_range;
use crate::config::{SPDM_MAX_AEAD_IV_SIZE, SPDM_MAX_AEAD_KEY_SIZE, SPDM_MAX_HASH_SIZE};
use crate::crypto::SpdmCryptoRegistry;
use crate::error::{SpdmResult, SpdmStatus};
use crate::protocol::{SpdmAeadAlgo, SpdmBaseHashAlgo, SpdmDigestStruct, SpdmVersion};
use crate::session::{
    SpdmAeadIvStruct, SpdmAeadKeyStruct, SpdmSessionPhaseSecret, SpdmSessionSecretParam,
};

verus! {

/// What a derived secret is for.
#[derive(Clone, Copy, Debug, PartialEq, Eq, Structural)]
pub enum SpdmKeyLabel {
    /// The salt of the master secret.
    Derived,
    /// The handshake secret of the requester.
    RequestHandshake,
    /// The handshake secret of the responder.
    ResponseHandshake,
    /// The data secret of the requester.
    RequestData,
    /// The data secret of the responder.
    ResponseData,
    /// An encryption key.
    Key,
    /// A nonce base.
    Iv,
    /// A key that proves the handshake.
    Finished,
}

impl SpdmKeyLabel {
    /// The label as it goes into a derivation: `derived`, `req hs data`, `rsp hs data`,
    /// `req app data`, `rsp app data`, `key`, `iv`, `finished`.
    pub open spec fn spec_bytes(self) -> Seq<u8> {
        match self {
            SpdmKeyLabel::Derived => seq![0x64u8, 0x65, 0x72, 0x69, 0x76, 0x65, 0x64],
            SpdmKeyLabel::RequestHandshake => seq![
                0x72u8, 0x65, 0x71, 0x20, 0x68, 0x73, 0x20, 0x64, 0x61, 0x74, 0x61,
            ],
            SpdmKeyLabel::ResponseHandshake => seq![
                0x72u8, 0x73, 0x70, 0x20, 0x68, 0x73, 0x20, 0x64, 0x61, 0x74, 0x61,
            ],
            SpdmKeyLabel::RequestData => seq![
                0x72u8, 0x65, 0x71, 0x20, 0x61, 0x70, 0x70, 0x20, 0x64, 0x61, 0x74, 0x61,
            ],
            SpdmKeyLabel::ResponseData => seq![
                0x72u8, 0x73, 0x70, 0x20, 0x61, 0x70, 0x70, 0x20, 0x64, 0x61, 0x74, 0x61,
            ],
            SpdmKeyLabel::Key => seq![0x6bu8, 0x65, 0x79],
            SpdmKeyLabel::Iv => seq![0x69u8, 0x76],
            SpdmKeyLabel::Finished => seq![0x66u8, 0x69, 0x6e, 0x69, 0x73, 0x68, 0x65, 0x64],
        }
    }

    /// Put the label after what `out` holds.
    pub fn append_to(&self, out: &mut Vec<u8>)
        ensures
            final(out)@ == old(out)@ + self.spec_bytes(),
    {
        match self {
            SpdmKeyLabel::Derived => {
                let b: [u8; 7] = [0x64, 0x65, 0x72, 0x69, 0x76, 0x65, 0x64];
                assert(b@ =~= self.spec_bytes());
                out.extend_from_slice(&b);
            },
            SpdmKeyLabel::RequestHandshake => {
                let b: [u8; 11] = [0x72, 0x65, 0x71, 0x20, 0x68, 0x73, 0x20, 0x64, 0x61, 0x74, 0x61];
                assert(b@ =~= self.spec_bytes());
                out.extend_from_slice(&b);
            },
            SpdmKeyLabel::ResponseHandshake => {
                let b: [u8; 11] = [0x72, 0x73, 0x70, 0x20, 0x68, 0x73, 0x20, 0x64, 0x61, 0x74, 0x61];
                assert(b@ =~= self.spec_bytes());
                out.extend_from_slice(&b);
            },
            SpdmKeyLabel::RequestData => {
                let b: [u8; 12] = [
                    0x72, 0x65, 0x71, 0x20, 0x61, 0x70, 0x70, 0x20, 0x64, 0x61, 0x74, 0x61,
                ];
                assert(b@ =~= self.spec_bytes());
                out.extend_from_slice(&b);
            },
            SpdmKeyLabel::ResponseData => {
                let b: [u8; 12] = [
                    0x72, 0x73, 0x70, 0x20, 0x61, 0x70, 0x70, 0x20, 0x64, 0x61, 0x74, 0x61,
                ];
                assert(b@ =~= self.spec_bytes());
                out.extend_from_slice(&b);
            },
            SpdmKeyLabel::Key => {
                let b: [u8; 3] = [0x6b, 0x65, 0x79];
                assert(b@ =~= self.spec_bytes());
                out.extend_from_slice(&b);
            },
            SpdmKeyLabel::Iv => {
                let b: [u8; 2] = [0x69, 0x76];
                assert(b@ =~= self.spec_bytes());
                out.extend_from_slice(&b);
            },
            SpdmKeyLabel::Finished => {
                let b: [u8; 8] = [0x66, 0x69, 0x6e, 0x69, 0x73, 0x68, 0x65, 0x64];
                assert(b@ =~= self.spec_bytes());
                out.extend_from_slice(&b);
            },
        }
    }
}

/// The eight bytes that name the version in a derivation: `spdm1.2 ` from the third
/// version on, `spdm1.1 ` before.
pub open spec fn spec_version_label(version: SpdmVersion) -> Seq<u8> {
    if version == SpdmVersion::SpdmVersion12 {
        seq![0x73u8, 0x70, 0x64, 0x6d, 0x31, 0x2e, 0x32, 0x20]
    } else {
        seq![0x73u8, 0x70, 0x64, 0x6d, 0x31, 0x2e, 0x31, 0x20]
    }
}

/// What a derivation of `length` bytes for the purpose `label` is told: the length
/// in two bytes, the version, the label, and the digest `context` of what has been
/// exchanged, where the purpose binds to it.
pub open spec fn spec_bin_concat(
    version: SpdmVersion,
    label: SpdmKeyLabel,
    context: Seq<u8>,
    length: u16,
) -> Seq<u8> {
    crate::codec::spec_u16_to_le(length) + spec_version_label(version) + label.spec_bytes()
        + context
}

/// What a derivation of `length` bytes for the purpose `label` is told.
pub fn bin_concat(version: SpdmVersion, label: SpdmKeyLabel, context: &[u8], length: u16) -> (r: Vec<
    u8,
>)
    ensures
        r@ == spec_bin_concat(version, label, context@, length),
{
    let mut r: Vec<u8> = Vec::new();
    r.push((length % 256) as u8);
    r.push((length / 256) as u8);
    assert(r@ =~= crate::codec::spec_u16_to_le(length));
    if version == SpdmVersion::SpdmVersion12 {
        let v: [u8; 8] = [0x73, 0x70, 0x64, 0x6d, 0x31, 0x2e, 0x32, 0x20];
        assert(v@ =~= spec_version_label(version));
        r.extend_from_slice(&v);
    } else {
        let v: [u8; 8] = [0x73, 0x70, 0x64, 0x6d, 0x31, 0x2e, 0x31, 0x20];
        assert(v@ =~= spec_version_label(version));
        r.extend_from_slice(&v);
    }
    label.append_to(&mut r);
    r.extend_from_slice(context);
    assert(r@ =~= spec_bin_concat(version, label, context@, length));
    r
}

/// Draw `size` bytes for the purpose `label` from `secret`.
pub fn derive(
    crypto: &SpdmCryptoRegistry,
    version: SpdmVersion,
    hash_algo: SpdmBaseHashAlgo,
    secret: &SpdmDigestStruct,
    label: SpdmKeyLabel,
    context: &[u8],
    size: u16,
) -> (r: SpdmResult<SpdmDigestStruct>)
    ensures
        !secret.wf() ==> r == Err::<SpdmDigestStruct, SpdmStatus>(SpdmStatus::InvalidStateLocal),
        secret.wf() && crypto.hkdf is None ==> r == Err::<SpdmDigestStruct, SpdmStatus>(
            SpdmStatus::Unsupported,
        ),
        secret.wf() && crypto.hkdf is Some ==> r is Ok || r == Err::<SpdmDigestStruct, SpdmStatus>(
            SpdmStatus::CryptoError,
        ),
        r matches Ok(d) ==> d.wf() && d.data_size == size,
{
    if secret.data_size as usize > SPDM_MAX_HASH_SIZE {
        return Err(SpdmStatus::InvalidStateLocal);
    }
    let info = bin_concat(version, label, context, size);
    crypto.hkdf_expand(hash_algo, secret.as_ref(), info.as_slice(), size)
}

/// What protects one direction of a phase, and the key that proves the handshake in
/// that direction, all drawn from the secret `secret` of the direction. The direction
/// starts at its first message.
pub fn derive_direction(
    crypto: &SpdmCryptoRegistry,
    version: SpdmVersion,
    hash_algo: SpdmBaseHashAlgo,
    aead_algo: SpdmAeadAlgo,
    secret: &SpdmDigestStruct,
) -> (r: SpdmResult<(SpdmDigestStruct, SpdmSessionSecretParam)>)
    ensures
        secret.wf() && crypto.hkdf is None ==> r == Err::<
            (SpdmDigestStruct, SpdmSessionSecretParam),
            SpdmStatus,
        >(SpdmStatus::Unsupported),
        r matches Ok(p) ==> {
            &&& p.0.wf()
            &&& p.0.data_size == hash_algo.spec_size()
            &&& p.1.spec_fits(aead_algo)
            &&& p.1.sequence_number == 0
        },
{
    let hash_size: u16 = hash_algo.get_size();
    let key_size: u16 = aead_algo.get_key_size();
    let iv_size: u16 = aead_algo.get_iv_size();
    let finished_key = derive(
        crypto,
        version,
        hash_algo,
        secret,
        SpdmKeyLabel::Finished,
        &[],
        hash_size,
    )?;
    let key = derive(crypto, version, hash_algo, secret, SpdmKeyLabel::Key, &[], key_size)?;
    let iv = derive(crypto, version, hash_algo, secret, SpdmKeyLabel::Iv, &[], iv_size)?;
    let mut encryption_key = SpdmAeadKeyStruct {
        data_size: key_size,
        data: [0u8; SPDM_MAX_AEAD_KEY_SIZE],
    };
    crate::codec::fill_array_front(
        &mut encryption_key.data,
        slice_range(&key.data, 0, key_size as usize),
    );
    let mut salt = SpdmAeadIvStruct { data_size: iv_size, data: [0u8; SPDM_MAX_AEAD_IV_SIZE] };
    crate::codec::fill_array_front(&mut salt.data, slice_range(&iv.data, 0, iv_size as usize));
    Ok((finished_key, SpdmSessionSecretParam { encryption_key, salt, sequence_number: 0 }))
}

/// Whether the keys of a phase are ones that a session with the hash `hash_algo` and
/// the cipher `aead_algo` can start the phase with.
pub open spec fn spec_phase_ready(
    phase: SpdmSessionPhaseSecret,
    hash_algo: SpdmBaseHashAlgo,
    aead_algo: SpdmAeadAlgo,
) -> bool {
    &&& phase.main_secret.wf()
    &&& phase.request_secret.wf() && phase.request_secret.data_size == hash_algo.spec_size()
    &&& phase.response_secret.wf() && phase.response_secret.data_size == hash_algo.spec_size()
    &&& phase.request_finished_key.wf() && phase.request_finished_key.data_size
        == hash_algo.spec_size()
    &&& phase.response_finished_key.wf() && phase.response_finished_key.data_size
        == hash_algo.spec_size()
    &&& phase.request_direction.spec_fits(aead_algo)
    &&& phase.request_direction.sequence_number == 0
    &&& phase.response_direction.spec_fits(aead_algo)
    &&& phase.response_direction.sequence_number == 0
}

/// The keys of one phase, drawn from the secret `main_secret` and bound to the digest
/// `transcript_hash` of what has been exchanged: the secret of each direction under its
/// label, and from each what protects the direction.
pub fn derive_phase(
    crypto: &SpdmCryptoRegistry,
    version: SpdmVersion,
    hash_algo: SpdmBaseHashAlgo,
    aead_algo: SpdmAeadAlgo,
    main_secret: &SpdmDigestStruct,
    request_label: SpdmKeyLabel,
    response_label: SpdmKeyLabel,
    transcript_hash: &[u8],
) -> (r: SpdmResult<SpdmSessionPhaseSecret>)
    ensures
        !main_secret.wf() ==> r == Err::<SpdmSessionPhaseSecret, SpdmStatus>(
            SpdmStatus::InvalidStateLocal,
        ),
        main_secret.wf() && crypto.hkdf is None ==> r == Err::<SpdmSessionPhaseSecret, SpdmStatus>(
            SpdmStatus::Unsupported,
        ),
        r matches Ok(p) ==> p.main_secret == *main_secret && spec_phase_ready(
            p,
            hash_algo,
            aead_algo,
        ),
{
    let hash_size: u16 = hash_algo.get_size();
    let request_secret = derive(
        crypto,
        version,
        hash_algo,
        main_secret,
        request_label,
        transcript_hash,
        hash_size,
    )?;
    let response_secret = derive(
        crypto,
        version,
        hash_algo,
        main_secret,
        response_label,
        transcript_hash,
        hash_size,
    )?;
    let (request_finished_key, request_direction) = derive_direction(
        crypto,
        version,
        hash_algo,
        aead_algo,
        &request_secret,
    )?;
    let (response_finished_key, response_direction) = derive_direction(
        crypto,
        version,
        hash_algo,
        aead_algo,
        &response_secret,
    )?;
    Ok(
        SpdmSessionPhaseSecret {
            main_secret: *main_secret,
            request_secret,
            response_secret,
            request_finished_key,
            response_finished_key,
            request_direction,
            response_direction,
        },
    )
}

} // verus!
