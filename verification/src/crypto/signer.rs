//! Signing algorithms, signatures and a stand-in signer.
use vstd::prelude::*;
use crate::text::str_eq;

verus! {

/// Signing algorithm.
#[derive(Debug, Clone, Copy, PartialEq, Eq, Structural)]
pub enum SigningAlgorithm {
    Rs256,
    Es256,
    Es384,
}

/// Name of the algorithm in the key management service.
pub open spec fn kms_algorithm_name(a: SigningAlgorithm) -> Seq<char> {
    match a {
        SigningAlgorithm::Rs256 => "RSASSA_PKCS1_V1_5_SHA_256"@,
        SigningAlgorithm::Es256 => "ECDSA_SHA_256"@,
        SigningAlgorithm::Es384 => "ECDSA_SHA_384"@,
    }
}

/// Name of the algorithm in a JWT header.
pub open spec fn jwt_algorithm_name(a: SigningAlgorithm) -> Seq<char> {
    match a {
        SigningAlgorithm::Rs256 => "RS256"@,
        SigningAlgorithm::Es256 => "ES256"@,
        SigningAlgorithm::Es384 => "ES384"@,
    }
}

impl SigningAlgorithm {
    /// The key management service's name of the algorithm.
    pub fn kms_algorithm(&self) -> (s: &'static str)
        ensures
            s@ == kms_algorithm_name(*self),
    {
        match self {
            SigningAlgorithm::Rs256 => "RSASSA_PKCS1_V1_5_SHA_256",
            SigningAlgorithm::Es256 => "ECDSA_SHA_256",
            SigningAlgorithm::Es384 => "ECDSA_SHA_384",
        }
    }

    /// The JWT name of the algorithm.
    pub fn jwt_algorithm(&self) -> (s: &'static str)
        ensures
            s@ == jwt_algorithm_name(*self),
    {
        match self {
            SigningAlgorithm::Rs256 => "RS256",
            SigningAlgorithm::Es256 => "ES256",
            SigningAlgorithm::Es384 => "ES384",
        }
    }

    /// The algorithm with JWT name `alg`, if any.
    pub fn from_jwt_algorithm(alg: &str) -> (r: Option<SigningAlgorithm>)
        ensures
            match r {
                Some(a) => jwt_algorithm_name(a) == alg@,
                None => forall|a: SigningAlgorithm| jwt_algorithm_name(a) != alg@,
            },
    {
        if str_eq(alg, "RS256") {
            Some(SigningAlgorithm::Rs256)
        } else if str_eq(alg, "ES256") {
            Some(SigningAlgorithm::Es256)
        } else if str_eq(alg, "ES384") {
            Some(SigningAlgorithm::Es384)
        } else {
            None
        }
    }
}

/// Reading back the JWT name of an algorithm gives the algorithm.
pub proof fn lemma_jwt_algorithm_names_distinct(a: SigningAlgorithm, b: SigningAlgorithm)
    ensures
        jwt_algorithm_name(a) == jwt_algorithm_name(b) ==> a == b,
{
    reveal_strlit("RS256");
    reveal_strlit("ES256");
    reveal_strlit("ES384");
    assert("RS256"@[0] != "ES256"@[0]);
    assert("ES256"@[2] != "ES384"@[2]);
}

/// Signature produced by a signer.
#[derive(Debug)]
pub struct Signature {
    pub bytes: Vec<u8>,
    pub key_id: String,
    pub algorithm: SigningAlgorithm,
}

/// Names the SHA-256 digest of a byte string.
pub uninterp spec fn sha256_of(data: Seq<u8>) -> Seq<u8>;

/// Calls `ring::digest::digest` with SHA-256; the result is the digest of
/// `data` (32 bytes, as the algorithm's output length).
#[verifier::external_body]
pub fn sha256(data: &[u8]) -> (r: Vec<u8>)
    ensures
        r@ == sha256_of(data@),
        r@.len() == 32,
{
    ring::digest::digest(&ring::digest::SHA256, data).as_ref().to_vec()
}

/// Stand-in signer: signs with the SHA-256 digest of the message.
pub struct MockSigner {
    pub key_id: String,
    pub algorithm: SigningAlgorithm,
}

impl MockSigner {
    /// A stand-in signer for `key_id`, with RS256.
    pub fn new(key_id: String) -> (s: MockSigner)
        ensures
            s.key_id == key_id,
            s.algorithm == SigningAlgorithm::Rs256,
    {
        MockSigner { key_id, algorithm: SigningAlgorithm::Rs256 }
    }

    /// The signature of `message`: its SHA-256 digest under this signer's key.
    pub fn sign(&self, message: &[u8]) -> (s: Signature)
        ensures
            s.bytes@ == sha256_of(message@),
            s.key_id == self.key_id,
            s.algorithm == self.algorithm,
    {
        Signature { bytes: sha256(message), key_id: self.key_id.clone(), algorithm: self.algorithm }
    }
}

} // verus!
