//! Public keys as this crate sees them: raw bytes with a base64 text form.
//!
//! What a key means, and whether a signature was made with it, is for the
//! caller's cryptography to say. Here a key is compared, fingerprinted and
//! written to the wire.

use vstd::prelude::*;
use base64::Engine;
use vstd::std_specs::cmp::PartialEqSpecImpl;
use crate::equal::same_bytes;

verus! {

/// `base64::DecodeError`, of which only its presence is read.
#[verifier::external_type_specification]
#[verifier::external_body]
pub struct ExDecodeError(base64::DecodeError);

/// The standard base64 text, with padding, of a byte sequence.
pub uninterp spec fn base64_text(bytes: Seq<u8>) -> Seq<char>;

/// The bytes that a text stands for in standard base64 with padding, where it
/// is well formed.
pub uninterp spec fn base64_bytes(text: Seq<char>) -> Option<Seq<u8>>;

/// The longest byte sequence whose base64 text is sure to fit in memory.
pub open spec fn longest_encodable() -> int {
    (usize::MAX / 2) as int
}

/// `Engine::encode` of `base64`'s `STANDARD` engine: the text of the bytes,
/// which decodes to them again. The call fails only where the text's length
/// does not fit a `usize`.
#[verifier::external_body]
fn encode(bytes: &[u8]) -> (text: String)
    requires
        bytes@.len() <= longest_encodable(),
    ensures
        text@ == base64_text(bytes@),
        base64_bytes(text@) == Some(bytes@),
{
    base64::engine::general_purpose::STANDARD.encode(bytes)
}

/// `Engine::decode` of `base64`'s `STANDARD` engine: the bytes of a well
/// formed text, an error for any other.
#[verifier::external_body]
fn decode(text: &str) -> (bytes: Result<Vec<u8>, base64::DecodeError>)
    ensures
        match bytes {
            Ok(found) => base64_bytes(text@) == Some(found@),
            Err(_) => base64_bytes(text@) is None,
        },
{
    base64::engine::general_purpose::STANDARD.decode(text)
}

/// Why a key or a signature could not be read or checked.
#[derive(Debug, Clone, Copy, PartialEq, Eq, Structural)]
pub enum CryptographyError {
    /// A text that should be base64 is not.
    Encoding,
    /// The signing or verifying primitive gave up, as on malformed key bytes.
    Primitive,
}

/// The bytes that `text` stands for in base64.
pub fn bytes_from_base64(text: &str) -> (bytes: Result<Vec<u8>, CryptographyError>)
    ensures
        match base64_bytes(text@) {
            Some(found) => bytes matches Ok(got) && got@ == found,
            None => bytes == Err::<Vec<u8>, CryptographyError>(CryptographyError::Encoding),
        },
{
    match decode(text) {
        Ok(found) => Ok(found),
        Err(_) => Err(CryptographyError::Encoding),
    }
}

/// The raw bytes of the key that a text on the wire stands for: the bytes
/// that the text spells in base64, unless they are more than a key may have.
pub open spec fn key_bytes(text: Seq<char>) -> Result<Seq<u8>, CryptographyError> {
    match base64_bytes(text) {
        Some(bytes) if bytes.len() <= longest_encodable() => Ok(bytes),
        _ => Err(CryptographyError::Encoding),
    }
}

/// An identity: the raw bytes of a public key.
#[derive(Debug)]
pub struct PublicKey {
    bytes: Vec<u8>,
}

impl View for PublicKey {
    type V = Seq<u8>;

    closed spec fn view(&self) -> Seq<u8> {
        self.bytes@
    }
}

impl PublicKey {
    #[verifier::type_invariant]
    spec fn encodable(self) -> bool {
        self.bytes@.len() <= longest_encodable()
    }

    /// The key with these raw bytes; none where they are more than a key may
    /// have.
    pub fn from_bytes(bytes: Vec<u8>) -> (key: Option<PublicKey>)
        ensures
            bytes@.len() <= longest_encodable() ==> (key matches Some(made) && made@ == bytes@),
            bytes@.len() > longest_encodable() ==> key is None,
    {
        if bytes.len() <= usize::MAX / 2 {
            Some(PublicKey { bytes })
        } else {
            None
        }
    }

    /// The raw bytes of the key.
    pub fn to_bytes(&self) -> (bytes: Vec<u8>)
        ensures
            bytes@ == self@,
    {
        self.bytes.clone()
    }

    /// The raw bytes of the key, borrowed.
    pub fn as_bytes(&self) -> (bytes: &[u8])
        ensures
            bytes@ == self@,
            self@.len() <= longest_encodable(),
    {
        proof {
            use_type_invariant(self);
        }
        self.bytes.as_slice()
    }

    /// The key's text on the wire, which reads back as the key.
    pub fn to_base64(&self) -> (text: String)
        ensures
            text@ == base64_text(self@),
            key_bytes(text@) == Ok::<Seq<u8>, CryptographyError>(self@),
    {
        proof {
            use_type_invariant(self);
        }
        encode(self.bytes.as_slice())
    }

    /// The key that a text on the wire stands for.
    pub fn from_base64(text: &str) -> (key: Result<PublicKey, CryptographyError>)
        ensures
            match key_bytes(text@) {
                Ok(meant) => key matches Ok(made) && made@ == meant,
                Err(error) => key == Err::<PublicKey, CryptographyError>(error),
            },
    {
        match bytes_from_base64(text) {
            Ok(bytes) => match PublicKey::from_bytes(bytes) {
                Some(key) => Ok(key),
                None => Err(CryptographyError::Encoding),
            },
            Err(error) => Err(error),
        }
    }
}

impl Clone for PublicKey {
    fn clone(&self) -> (copy: PublicKey)
        ensures
            copy@ == self@,
    {
        proof {
            use_type_invariant(self);
        }
        PublicKey { bytes: self.bytes.clone() }
    }
}

impl PartialEq for PublicKey {
    fn eq(&self, other: &PublicKey) -> (same: bool) {
        same_bytes(self.bytes.as_slice(), other.bytes.as_slice())
    }
}

impl Eq for PublicKey {

}

impl PartialEqSpecImpl for PublicKey {
    open spec fn obeys_eq_spec() -> bool {
        true
    }

    open spec fn eq_spec(&self, other: &PublicKey) -> bool {
        self@ == other@
    }
}

} // verus!
