//! The cryptographic primitives that the engine consumes, and the registry that holds
//! the implementations it was given.
//!
//! The engine implements no primitive. An embedder registers implementations; the
//! engine reaches them only through the registry, hands each call the negotiated
//! algorithm, and takes nothing about a result on trust: what comes back is checked
//! for its shape before it is used.

use vstd::prelude::*;
use crate::config::{SPDM_MAX_AEAD_TAG_SIZE, SPDM_MAX_HASH_SIZE};
use crate::error::{SpdmResult, SpdmStatus};
use crate::protocol::{
    SpdmAeadAlgo, SpdmBaseAsymAlgo, SpdmBaseHashAlgo, SpdmDigestStruct, SpdmSignatureStruct,
};

verus! {

/// A hash implementation.
pub trait SpdmHash {
    /// The digest of `data`, or nothing where the algorithm is not on offer.
    fn hash_all(&self, base_hash_algo: SpdmBaseHashAlgo, data: &[u8]) -> Option<SpdmDigestStruct>;
}

/// A keyed-hash implementation.
pub trait SpdmHmac {
    /// The tag of `data` under `key`.
    fn hmac(&self, base_hash_algo: SpdmBaseHashAlgo, key: &[u8], data: &[u8]) -> Option<
        SpdmDigestStruct,
    >;

    /// Whether `hmac` is the tag of `data` under `key`.
    fn hmac_verify(
        &self,
        base_hash_algo: SpdmBaseHashAlgo,
        key: &[u8],
        data: &[u8],
        hmac: &SpdmDigestStruct,
    ) -> SpdmResult;
}

/// A key-derivation implementation.
pub trait SpdmHkdf {
    /// `out_size` bytes drawn from the secret `pseudo_random_key` for the purpose `info`.
    fn hkdf_expand(
        &self,
        base_hash_algo: SpdmBaseHashAlgo,
        pseudo_random_key: &[u8],
        info: &[u8],
        out_size: u16,
    ) -> Option<SpdmDigestStruct>;
}

/// An authenticated-encryption implementation.
pub trait SpdmAead {
    /// The cipher text of `plain_text` and its tag.
    fn encrypt(
        &self,
        aead_algo: SpdmAeadAlgo,
        key: &[u8],
        iv: &[u8],
        aad: &[u8],
        plain_text: &[u8],
    ) -> SpdmResult<(Vec<u8>, Vec<u8>)>;

    /// The plain text of `cipher_text`, where `tag` authenticates it and `aad`.
    fn decrypt(
        &self,
        aead_algo: SpdmAeadAlgo,
        key: &[u8],
        iv: &[u8],
        aad: &[u8],
        cipher_text: &[u8],
        tag: &[u8],
    ) -> SpdmResult<Vec<u8>>;
}

/// A signing implementation. It holds the private key.
pub trait SpdmAsymSign {
    fn sign(
        &self,
        base_hash_algo: SpdmBaseHashAlgo,
        base_asym_algo: SpdmBaseAsymAlgo,
        data: &[u8],
    ) -> Option<SpdmSignatureStruct>;
}

/// A signature-verification implementation.
pub trait SpdmAsymVerify {
    /// Whether `signature` is one of `data` under the key of the certificate
    /// `public_cert_der`.
    fn verify(
        &self,
        base_hash_algo: SpdmBaseHashAlgo,
        base_asym_algo: SpdmBaseAsymAlgo,
        public_cert_der: &[u8],
        data: &[u8],
        signature: &SpdmSignatureStruct,
    ) -> SpdmResult;
}

/// Operations on DER certificates.
pub trait SpdmCertOperation {
    /// Where the certificate number `index` of `cert_chain` begins and ends; the index
    /// -1 stands for the last one.
    fn get_cert_from_cert_chain(&self, cert_chain: &[u8], index: isize) -> SpdmResult<
        (usize, usize),
    >;

    /// Whether each certificate of `cert_chain` is signed by the one before it.
    fn verify_cert_chain(&self, cert_chain: &[u8]) -> SpdmResult;
}

/// A source of random bytes.
pub trait SpdmCryptoRandom {
    /// Fill `data` and say how many bytes were filled.
    fn get_random(&self, data: &mut [u8]) -> SpdmResult<usize>;
}

/// The implementations that an engine was given, one slot for each primitive. A slot
/// that nothing was registered in answers every call with `Unsupported`.
#[derive(Clone, Copy)]
pub struct SpdmCryptoRegistry<'a> {
    pub hash: Option<&'a dyn SpdmHash>,
    pub hmac: Option<&'a dyn SpdmHmac>,
    pub hkdf: Option<&'a dyn SpdmHkdf>,
    pub aead: Option<&'a dyn SpdmAead>,
    pub asym_sign: Option<&'a dyn SpdmAsymSign>,
    pub asym_verify: Option<&'a dyn SpdmAsymVerify>,
    pub cert_operation: Option<&'a dyn SpdmCertOperation>,
    pub rand: Option<&'a dyn SpdmCryptoRandom>,
}

/// What a digest that came from an implementation is taken for: itself where it has
/// the size that the algorithm gives, a failure of the primitive otherwise.
pub fn check_digest(digest: Option<SpdmDigestStruct>, size: u16) -> (r: SpdmResult<
    SpdmDigestStruct,
>)
    ensures
        r is Ok <==> digest is Some && digest->0.data_size == size && size <= SPDM_MAX_HASH_SIZE,
        r matches Ok(d) ==> d == digest->0 && d.wf(),
        r is Err ==> r == Err::<SpdmDigestStruct, SpdmStatus>(SpdmStatus::CryptoError),
{
    match digest {
        Some(d) => {
            if d.data_size == size && size as usize <= SPDM_MAX_HASH_SIZE {
                Ok(d)
            } else {
                Err(SpdmStatus::CryptoError)
            }
        },
        None => Err(SpdmStatus::CryptoError),
    }
}

/// What a signature that came from an implementation is taken for: itself where it has
/// the size that the algorithm gives, a failure of the primitive otherwise.
pub fn check_signature(signature: Option<SpdmSignatureStruct>, size: u16) -> (r: SpdmResult<
    SpdmSignatureStruct,
>)
    ensures
        r is Ok <==> signature is Some && signature->0.data_size == size && signature->0.wf(),
        r matches Ok(d) ==> d == signature->0,
        r is Err ==> r == Err::<SpdmSignatureStruct, SpdmStatus>(SpdmStatus::CryptoError),
{
    match signature {
        Some(d) => {
            if d.data_size == size && d.data_size <= 512 {
                Ok(d)
            } else {
                Err(SpdmStatus::CryptoError)
            }
        },
        None => Err(SpdmStatus::CryptoError),
    }
}

/// What the place of a certificate that came from an implementation is taken for:
/// itself where it lies within a chain of `chain_len` bytes, a failure otherwise.
pub fn check_cert_range(range: SpdmResult<(usize, usize)>, chain_len: usize) -> (r: SpdmResult<
    (usize, usize),
>)
    ensures
        r is Ok <==> (range matches Ok(p) && p.0 <= p.1 <= chain_len),
        r is Ok ==> r == range,
        r is Err ==> r == Err::<(usize, usize), SpdmStatus>(SpdmStatus::InvalidCert),
{
    match range {
        Ok((begin, end)) => {
            if begin <= end && end <= chain_len {
                Ok((begin, end))
            } else {
                Err(SpdmStatus::InvalidCert)
            }
        },
        Err(_) => Err(SpdmStatus::InvalidCert),
    }
}

impl<'a> SpdmCryptoRegistry<'a> {
    /// A registry with nothing registered.
    pub fn new() -> (r: Self)
        ensures
            r.hash is None,
            r.hmac is None,
            r.hkdf is None,
            r.aead is None,
            r.asym_sign is None,
            r.asym_verify is None,
            r.cert_operation is None,
            r.rand is None,
    {
        SpdmCryptoRegistry {
            hash: None,
            hmac: None,
            hkdf: None,
            aead: None,
            asym_sign: None,
            asym_verify: None,
            cert_operation: None,
            rand: None,
        }
    }

    /// Put `imp` in the place of whatever computed digests before; `None` empties the place.
    /// No other place changes.
    pub fn register_hash(&mut self, imp: Option<&'a dyn SpdmHash>)
        ensures
            final(self).hash == imp,
            final(self).hmac == old(self).hmac,
            final(self).hkdf == old(self).hkdf,
            final(self).aead == old(self).aead,
            final(self).asym_sign == old(self).asym_sign,
            final(self).asym_verify == old(self).asym_verify,
            final(self).cert_operation == old(self).cert_operation,
            final(self).rand == old(self).rand,
    {
        self.hash = imp;
    }

    /// Put `imp` in the place of whatever computed keyed digests before; `None` empties the place.
    /// No other place changes.
    pub fn register_hmac(&mut self, imp: Option<&'a dyn SpdmHmac>)
        ensures
            final(self).hmac == imp,
            final(self).hash == old(self).hash,
            final(self).hkdf == old(self).hkdf,
            final(self).aead == old(self).aead,
            final(self).asym_sign == old(self).asym_sign,
            final(self).asym_verify == old(self).asym_verify,
            final(self).cert_operation == old(self).cert_operation,
            final(self).rand == old(self).rand,
    {
        self.hmac = imp;
    }

    /// Put `imp` in the place of whatever derived keys before; `None` empties the place.
    /// No other place changes.
    pub fn register_hkdf(&mut self, imp: Option<&'a dyn SpdmHkdf>)
        ensures
            final(self).hkdf == imp,
            final(self).hash == old(self).hash,
            final(self).hmac == old(self).hmac,
            final(self).aead == old(self).aead,
            final(self).asym_sign == old(self).asym_sign,
            final(self).asym_verify == old(self).asym_verify,
            final(self).cert_operation == old(self).cert_operation,
            final(self).rand == old(self).rand,
    {
        self.hkdf = imp;
    }

    /// Put `imp` in the place of whatever encrypted before; `None` empties the place.
    /// No other place changes.
    pub fn register_aead(&mut self, imp: Option<&'a dyn SpdmAead>)
        ensures
            final(self).aead == imp,
            final(self).hash == old(self).hash,
            final(self).hmac == old(self).hmac,
            final(self).hkdf == old(self).hkdf,
            final(self).asym_sign == old(self).asym_sign,
            final(self).asym_verify == old(self).asym_verify,
            final(self).cert_operation == old(self).cert_operation,
            final(self).rand == old(self).rand,
    {
        self.aead = imp;
    }

    /// Put `imp` in the place of whatever signed before; `None` empties the place.
    /// No other place changes.
    pub fn register_asym_sign(&mut self, imp: Option<&'a dyn SpdmAsymSign>)
        ensures
            final(self).asym_sign == imp,
            final(self).hash == old(self).hash,
            final(self).hmac == old(self).hmac,
            final(self).hkdf == old(self).hkdf,
            final(self).aead == old(self).aead,
            final(self).asym_verify == old(self).asym_verify,
            final(self).cert_operation == old(self).cert_operation,
            final(self).rand == old(self).rand,
    {
        self.asym_sign = imp;
    }

    /// Put `imp` in the place of whatever verified signatures before; `None` empties the place.
    /// No other place changes.
    pub fn register_asym_verify(&mut self, imp: Option<&'a dyn SpdmAsymVerify>)
        ensures
            final(self).asym_verify == imp,
            final(self).hash == old(self).hash,
            final(self).hmac == old(self).hmac,
            final(self).hkdf == old(self).hkdf,
            final(self).aead == old(self).aead,
            final(self).asym_sign == old(self).asym_sign,
            final(self).cert_operation == old(self).cert_operation,
            final(self).rand == old(self).rand,
    {
        self.asym_verify = imp;
    }

    /// Put `imp` in the place of whatever handled certificates before; `None` empties the place.
    /// No other place changes.
    pub fn register_cert_operation(&mut self, imp: Option<&'a dyn SpdmCertOperation>)
        ensures
            final(self).cert_operation == imp,
            final(self).hash == old(self).hash,
            final(self).hmac == old(self).hmac,
            final(self).hkdf == old(self).hkdf,
            final(self).aead == old(self).aead,
            final(self).asym_sign == old(self).asym_sign,
            final(self).asym_verify == old(self).asym_verify,
            final(self).rand == old(self).rand,
    {
        self.cert_operation = imp;
    }

    /// Put `imp` in the place of whatever gave random bytes before; `None` empties the place.
    /// No other place changes.
    pub fn register_rand(&mut self, imp: Option<&'a dyn SpdmCryptoRandom>)
        ensures
            final(self).rand == imp,
            final(self).hash == old(self).hash,
            final(self).hmac == old(self).hmac,
            final(self).hkdf == old(self).hkdf,
            final(self).aead == old(self).aead,
            final(self).asym_sign == old(self).asym_sign,
            final(self).asym_verify == old(self).asym_verify,
            final(self).cert_operation == old(self).cert_operation,
    {
        self.rand = imp;
    }

    /// The digest of `data`, of the size that the algorithm gives.
    pub fn hash_all(&self, base_hash_algo: SpdmBaseHashAlgo, data: &[u8]) -> (r: SpdmResult<
        SpdmDigestStruct,
    >)
        ensures
            self.hash is None ==> r == Err::<SpdmDigestStruct, SpdmStatus>(
                SpdmStatus::Unsupported,
            ),
            self.hash is Some ==> r is Ok || r == Err::<SpdmDigestStruct, SpdmStatus>(
                SpdmStatus::CryptoError,
            ),
            r matches Ok(d) ==> d.wf() && d.data_size == base_hash_algo.spec_size(),
    {
        match self.hash {
            Some(imp) => check_digest(imp.hash_all(base_hash_algo, data), base_hash_algo.get_size()),
            None => Err(SpdmStatus::Unsupported),
        }
    }

    /// The tag of `data` under `key`, of the size that the algorithm gives.
    pub fn hmac(&self, base_hash_algo: SpdmBaseHashAlgo, key: &[u8], data: &[u8]) -> (r:
        SpdmResult<SpdmDigestStruct>)
        ensures
            self.hmac is None ==> r == Err::<SpdmDigestStruct, SpdmStatus>(
                SpdmStatus::Unsupported,
            ),
            self.hmac is Some ==> r is Ok || r == Err::<SpdmDigestStruct, SpdmStatus>(
                SpdmStatus::CryptoError,
            ),
            r matches Ok(d) ==> d.wf() && d.data_size == base_hash_algo.spec_size(),
    {
        match self.hmac {
            Some(imp) => check_digest(imp.hmac(base_hash_algo, key, data), base_hash_algo.get_size()),
            None => Err(SpdmStatus::Unsupported),
        }
    }

    /// Whether `hmac` is the tag of `data` under `key`.
    pub fn hmac_verify(
        &self,
        base_hash_algo: SpdmBaseHashAlgo,
        key: &[u8],
        data: &[u8],
        hmac: &SpdmDigestStruct,
    ) -> (r: SpdmResult)
        ensures
            self.hmac is None ==> r == Err::<(), SpdmStatus>(SpdmStatus::Unsupported),
            self.hmac is Some ==> r is Ok || r == Err::<(), SpdmStatus>(SpdmStatus::CryptoError),
    {
        match self.hmac {
            Some(imp) => match imp.hmac_verify(base_hash_algo, key, data, hmac) {
                Ok(()) => Ok(()),
                Err(_) => Err(SpdmStatus::CryptoError),
            },
            None => Err(SpdmStatus::Unsupported),
        }
    }

    /// `out_size` bytes drawn from `pseudo_random_key` for the purpose `info`.
    pub fn hkdf_expand(
        &self,
        base_hash_algo: SpdmBaseHashAlgo,
        pseudo_random_key: &[u8],
        info: &[u8],
        out_size: u16,
    ) -> (r: SpdmResult<SpdmDigestStruct>)
        ensures
            self.hkdf is None ==> r == Err::<SpdmDigestStruct, SpdmStatus>(
                SpdmStatus::Unsupported,
            ),
            self.hkdf is Some ==> r is Ok || r == Err::<SpdmDigestStruct, SpdmStatus>(
                SpdmStatus::CryptoError,
            ),
            r matches Ok(d) ==> d.wf() && d.data_size == out_size,
    {
        match self.hkdf {
            Some(imp) => check_digest(
                imp.hkdf_expand(base_hash_algo, pseudo_random_key, info, out_size),
                out_size,
            ),
            None => Err(SpdmStatus::Unsupported),
        }
    }

    /// The cipher text of `plain_text`, as long as it, and its tag.
    pub fn aead_encrypt(
        &self,
        aead_algo: SpdmAeadAlgo,
        key: &[u8],
        iv: &[u8],
        aad: &[u8],
        plain_text: &[u8],
    ) -> (r: SpdmResult<(Vec<u8>, Vec<u8>)>)
        ensures
            self.aead is None ==> r == Err::<(Vec<u8>, Vec<u8>), SpdmStatus>(
                SpdmStatus::Unsupported,
            ),
            self.aead is Some ==> r is Ok || r == Err::<(Vec<u8>, Vec<u8>), SpdmStatus>(
                SpdmStatus::CryptoError,
            ),
            r matches Ok(p) ==> p.0@.len() == plain_text@.len() && p.1@.len()
                == SPDM_MAX_AEAD_TAG_SIZE,
    {
        match self.aead {
            Some(imp) => match imp.encrypt(aead_algo, key, iv, aad, plain_text) {
                Ok((cipher_text, tag)) => {
                    if cipher_text.len() == plain_text.len() && tag.len()
                        == SPDM_MAX_AEAD_TAG_SIZE {
                        Ok((cipher_text, tag))
                    } else {
                        Err(SpdmStatus::CryptoError)
                    }
                },
                Err(_) => Err(SpdmStatus::CryptoError),
            },
            None => Err(SpdmStatus::Unsupported),
        }
    }

    /// The plain text of `cipher_text`, as long as it, where the tag holds.
    pub fn aead_decrypt(
        &self,
        aead_algo: SpdmAeadAlgo,
        key: &[u8],
        iv: &[u8],
        aad: &[u8],
        cipher_text: &[u8],
        tag: &[u8],
    ) -> (r: SpdmResult<Vec<u8>>)
        ensures
            self.aead is None ==> r == Err::<Vec<u8>, SpdmStatus>(SpdmStatus::Unsupported),
            self.aead is Some ==> r is Ok || r == Err::<Vec<u8>, SpdmStatus>(
                SpdmStatus::CryptoError,
            ),
            r matches Ok(p) ==> p@.len() == cipher_text@.len(),
    {
        match self.aead {
            Some(imp) => match imp.decrypt(aead_algo, key, iv, aad, cipher_text, tag) {
                Ok(plain_text) => {
                    if plain_text.len() == cipher_text.len() {
                        Ok(plain_text)
                    } else {
                        Err(SpdmStatus::CryptoError)
                    }
                },
                Err(_) => Err(SpdmStatus::CryptoError),
            },
            None => Err(SpdmStatus::Unsupported),
        }
    }

    /// A signature of `data`, of the size that the algorithm gives.
    pub fn asym_sign(
        &self,
        base_hash_algo: SpdmBaseHashAlgo,
        base_asym_algo: SpdmBaseAsymAlgo,
        data: &[u8],
    ) -> (r: SpdmResult<SpdmSignatureStruct>)
        ensures
            self.asym_sign is None ==> r == Err::<SpdmSignatureStruct, SpdmStatus>(
                SpdmStatus::Unsupported,
            ),
            self.asym_sign is Some ==> r is Ok || r == Err::<SpdmSignatureStruct, SpdmStatus>(
                SpdmStatus::CryptoError,
            ),
            r matches Ok(s) ==> s.wf() && s.data_size == base_asym_algo.spec_size(),
    {
        match self.asym_sign {
            Some(imp) => check_signature(
                imp.sign(base_hash_algo, base_asym_algo, data),
                base_asym_algo.get_size(),
            ),
            None => Err(SpdmStatus::Unsupported),
        }
    }

    /// Whether `signature` is one of `data` under the key of `public_cert_der`.
    pub fn asym_verify(
        &self,
        base_hash_algo: SpdmBaseHashAlgo,
        base_asym_algo: SpdmBaseAsymAlgo,
        public_cert_der: &[u8],
        data: &[u8],
        signature: &SpdmSignatureStruct,
    ) -> (r: SpdmResult)
        ensures
            self.asym_verify is None ==> r == Err::<(), SpdmStatus>(SpdmStatus::Unsupported),
            self.asym_verify is Some ==> r is Ok || r == Err::<(), SpdmStatus>(
                SpdmStatus::CryptoError,
            ),
    {
        match self.asym_verify {
            Some(imp) => match imp.verify(
                base_hash_algo,
                base_asym_algo,
                public_cert_der,
                data,
                signature,
            ) {
                Ok(()) => Ok(()),
                Err(_) => Err(SpdmStatus::CryptoError),
            },
            None => Err(SpdmStatus::Unsupported),
        }
    }

    /// Where the certificate number `index` of `cert_chain` lies, within the chain.
    pub fn get_cert_from_cert_chain(&self, cert_chain: &[u8], index: isize) -> (r: SpdmResult<
        (usize, usize),
    >)
        ensures
            self.cert_operation is None ==> r == Err::<(usize, usize), SpdmStatus>(
                SpdmStatus::Unsupported,
            ),
            self.cert_operation is Some ==> r is Ok || r == Err::<(usize, usize), SpdmStatus>(
                SpdmStatus::InvalidCert,
            ),
            r matches Ok(p) ==> p.0 <= p.1 <= cert_chain@.len(),
    {
        match self.cert_operation {
            Some(imp) => check_cert_range(
                imp.get_cert_from_cert_chain(cert_chain, index),
                cert_chain.len(),
            ),
            None => Err(SpdmStatus::Unsupported),
        }
    }

    /// Whether each certificate of `cert_chain` is signed by the one before it.
    pub fn verify_cert_chain(&self, cert_chain: &[u8]) -> (r: SpdmResult)
        ensures
            self.cert_operation is None ==> r == Err::<(), SpdmStatus>(SpdmStatus::Unsupported),
            self.cert_operation is Some ==> r is Ok || r == Err::<(), SpdmStatus>(
                SpdmStatus::InvalidCert,
            ),
    {
        match self.cert_operation {
            Some(imp) => match imp.verify_cert_chain(cert_chain) {
                Ok(()) => Ok(()),
                Err(_) => Err(SpdmStatus::InvalidCert),
            },
            None => Err(SpdmStatus::Unsupported),
        }
    }

    /// Fill all of `data` with random bytes.
    pub fn get_random(&self, data: &mut [u8]) -> (r: SpdmResult)
        ensures
            self.rand is None ==> r == Err::<(), SpdmStatus>(SpdmStatus::Unsupported)
                && final(data)@ == old(data)@,
            self.rand is Some ==> r is Ok || r == Err::<(), SpdmStatus>(SpdmStatus::CryptoError),
    {
        match self.rand {
            Some(imp) => {
                let wanted: usize = data.len();
                match imp.get_random(data) {
                    Ok(n) => {
                        if n == wanted {
                            Ok(())
                        } else {
                            Err(SpdmStatus::CryptoError)
                        }
                    },
                    Err(_) => Err(SpdmStatus::CryptoError),
                }
            },
            None => Err(SpdmStatus::Unsupported),
        }
    }
}

} // verus!
