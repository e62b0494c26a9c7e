//! Errors of the key management service and a scripted stand-in client.
use vstd::prelude::*;
use crate::text::{concat2, str_starts_with, is_prefix};

verus! {

/// Errors of the key management service.
#[derive(Debug)]
pub enum KmsError {
    AwsKms(String),
    KeyNotFound(String),
    InvalidSignature,
    InvalidKeyId,
    Unsupported(String),
    Config(String),
    Crypto(String),
}

impl KmsError {
    /// Human-readable message of the error.
    pub fn message(&self) -> (s: String)
        ensures
            match self {
                KmsError::AwsKms(m) => s@ == "AWS KMS error: "@ + m@,
                KmsError::KeyNotFound(m) => s@ == "Key not found: "@ + m@,
                KmsError::InvalidSignature => s@ == "Invalid signature"@,
                KmsError::InvalidKeyId => s@ == "Invalid key ID format"@,
                KmsError::Unsupported(m) => s@ == "Operation not supported: "@ + m@,
                KmsError::Config(m) => s@ == "Configuration error: "@ + m@,
                KmsError::Crypto(m) => s@ == "Cryptographic error: "@ + m@,
            },
    {
        match self {
            KmsError::AwsKms(m) => concat2("AWS KMS error: ", m.as_str()),
            KmsError::KeyNotFound(m) => concat2("Key not found: ", m.as_str()),
            KmsError::InvalidSignature => String::from_str("Invalid signature"),
            KmsError::InvalidKeyId => String::from_str("Invalid key ID format"),
            KmsError::Unsupported(m) => concat2("Operation not supported: ", m.as_str()),
            KmsError::Config(m) => concat2("Configuration error: ", m.as_str()),
            KmsError::Crypto(m) => concat2("Cryptographic error: ", m.as_str()),
        }
    }
}

/// Configuration of the key management service client.
#[derive(Debug, Clone)]
pub struct KmsConfig {
    /// Region of the service (its name, such as "us-east-1").
    pub region: String,
    /// Key signing tokens.
    pub jwt_signing_key_id: String,
    /// Key that signed tokens before the last rotation, still accepted.
    pub jwt_signing_key_id_previous: Option<String>,
    /// Signature algorithm of the service.
    pub signing_algorithm: String,
}

impl Default for KmsConfig {
    /// Region "us-east-1", no keys, RSASSA PKCS#1 v1.5 with SHA-256.
    fn default() -> (c: Self)
        ensures
            c.region@ == "us-east-1"@,
            c.jwt_signing_key_id@ == Seq::<char>::empty(),
            c.jwt_signing_key_id_previous is None,
            c.signing_algorithm@ == "RSASSA_PKCS1_V1_5_SHA_256"@,
    {
        KmsConfig {
            region: String::from_str("us-east-1"),
            jwt_signing_key_id: String::new(),
            jwt_signing_key_id_previous: None,
            signing_algorithm: String::from_str("RSASSA_PKCS1_V1_5_SHA_256"),
        }
    }
}

impl KmsConfig {
    /// The key signing tokens.
    pub fn current_key_id(&self) -> (k: &str)
        ensures
            k@ == self.jwt_signing_key_id@,
    {
        self.jwt_signing_key_id.as_str()
    }

    /// The key of before the last rotation, if any.
    pub fn previous_key_id(&self) -> (k: Option<&str>)
        ensures
            match self.jwt_signing_key_id_previous {
                Some(p) => k matches Some(x) && x@ == p@,
                None => k is None,
            },
    {
        match &self.jwt_signing_key_id_previous {
            Some(p) => Some(p.as_str()),
            None => None,
        }
    }

    /// The keys whose signatures are accepted: the current one, then the
    /// previous one if any.
    pub fn valid_key_ids(&self) -> (v: Vec<&str>)
        ensures
            v@.len() == (if self.jwt_signing_key_id_previous is Some { 2int } else { 1int }),
            v@[0]@ == self.jwt_signing_key_id@,
            self.jwt_signing_key_id_previous matches Some(p) ==> v@[1]@ == p@,
    {
        let mut v: Vec<&str> = Vec::new();
        v.push(self.current_key_id());
        match self.previous_key_id() {
            Some(p) => v.push(p),
            None => {},
        }
        v
    }
}

/// A reply to a signing request: signature bytes or an error.
pub type SignReply = Result<Vec<u8>, KmsError>;

/// The signature the stand-in client gives when no reply is queued.
pub open spec fn default_mock_signature() -> Seq<u8> {
    seq![1u8, 2u8, 3u8, 4u8]
}

/// Stand-in client with a queue of scripted signing replies.
pub struct MockKmsClient {
    pub sign_responses: Vec<SignReply>,
}

impl MockKmsClient {
    /// A client whose queue holds the default signature.
    pub fn new() -> (c: MockKmsClient)
        ensures
            c.sign_responses@.len() == 1,
            c.sign_responses@[0] matches Ok(v) && v@ == default_mock_signature(),
    {
        let mut responses: Vec<SignReply> = Vec::new();
        responses.push(Ok(vec![1u8, 2u8, 3u8, 4u8]));
        MockKmsClient { sign_responses: responses }
    }

    /// The client with `response` as its only queued reply.
    pub fn with_response(self, response: SignReply) -> (c: MockKmsClient)
        ensures
            c.sign_responses@ == seq![response],
    {
        let mut c = self;
        c.sign_responses.clear();
        c.sign_responses.push(response);
        c
    }

}

/// A client of a key management service: signing, public keys, and the
/// keys it holds.
pub trait KmsClientTrait {
    /// Signs `message` with the key `key_id`.
    fn sign(&mut self, key_id: &str, message: &[u8]) -> Result<Vec<u8>, KmsError>;

    /// The public key of `key_id`.
    fn get_public_key(&self, key_id: &str) -> Result<Vec<u8>, KmsError>;

    /// The keys held.
    fn list_keys(&self) -> Result<Vec<String>, KmsError>;

    /// Whether the key `key_id` is held.
    fn key_exists(&self, key_id: &str) -> Result<bool, KmsError>;
}

impl KmsClientTrait for MockKmsClient {
    /// The first queued reply, taken from the queue, or the default
    /// signature when the queue is empty (whatever the key and message).
    fn sign(&mut self, key_id: &str, message: &[u8]) -> (r: Result<Vec<u8>, KmsError>)
        ensures
            old(self).sign_responses@.len() == 0 ==> (r matches Ok(v) && v@ == default_mock_signature()
                && final(self).sign_responses@.len() == 0),
            old(self).sign_responses@.len() > 0 ==> (r == old(self).sign_responses@[0]
                && final(self).sign_responses@ == old(self).sign_responses@.drop_first()),
    {
        if self.sign_responses.len() == 0 {
            Ok(vec![1u8, 2u8, 3u8, 4u8])
        } else {
            self.sign_responses.remove(0)
        }
    }

    /// Thirty-two zero bytes, whatever the key.
    fn get_public_key(&self, key_id: &str) -> (r: Result<Vec<u8>, KmsError>)
        ensures
            r matches Ok(v) && v@ == Seq::new(32, |i: int| 0u8),
    {
        let v = vec![0u8; 32];
        assert(v@ =~= Seq::new(32, |i: int| 0u8));
        Ok(v)
    }

    /// "test-key-1" and "test-key-2".
    fn list_keys(&self) -> (r: Result<Vec<String>, KmsError>)
        ensures
            r matches Ok(v) && v@.len() == 2 && v@[0]@ == "test-key-1"@ && v@[1]@ == "test-key-2"@,
    {
        let mut v: Vec<String> = Vec::new();
        v.push(String::from_str("test-key-1"));
        v.push(String::from_str("test-key-2"));
        Ok(v)
    }

    /// Whether the key's name starts with "test-key".
    fn key_exists(&self, key_id: &str) -> (r: Result<bool, KmsError>)
        ensures
            r == Ok::<bool, KmsError>(is_prefix("test-key"@, key_id@)),
    {
        Ok(str_starts_with(key_id, "test-key"))
    }
}

} // verus!
