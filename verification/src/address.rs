//! ECDSA key derivation paths, public key encodings (`k256` crate) and address errors.
use vstd::prelude::*;
use vstd::string::StringExecFns;
use k256::elliptic_curve::sec1::ToSec1Point;
use crate::text::{copy_string, text};

verus! {

/// Errors of fetching and decoding the canister's public key.
#[derive(Debug, Clone)]
pub enum AddressError {
    PublicKeyError(String),
    InvalidPublicKey(String),
    AddressError(String),
    InvalidK256Key(String),
}

impl AddressError {
    /// The error's message.
    pub fn message(&self) -> (m: String)
        ensures
            m@ == match self {
                AddressError::PublicKeyError(s) => "Failed to get public key: "@ + s@,
                AddressError::InvalidPublicKey(s) => "Invalid public key: "@ + s@,
                AddressError::AddressError(s) => "Address error: "@ + s@,
                AddressError::InvalidK256Key(s) => "Invalid k256 public key: "@ + s@,
            },
    {
        let (mut m, s) = match self {
            AddressError::PublicKeyError(s) => (text("Failed to get public key: "), s),
            AddressError::InvalidPublicKey(s) => (text("Invalid public key: "), s),
            AddressError::AddressError(s) => (text("Address error: "), s),
            AddressError::InvalidK256Key(s) => (text("Invalid k256 public key: "), s),
        };
        m.append(s.as_str());
        m
    }

    /// A copy of the error.
    pub fn copy(&self) -> (r: AddressError)
        ensures
            match (self, r) {
                (AddressError::PublicKeyError(a), AddressError::PublicKeyError(b)) => a@ == b@,
                (AddressError::InvalidPublicKey(a), AddressError::InvalidPublicKey(b)) => a@ == b@,
                (AddressError::AddressError(a), AddressError::AddressError(b)) => a@ == b@,
                (AddressError::InvalidK256Key(a), AddressError::InvalidK256Key(b)) => a@ == b@,
                _ => false,
            },
    {
        match self {
            AddressError::PublicKeyError(s) => AddressError::PublicKeyError(copy_string(s)),
            AddressError::InvalidPublicKey(s) => AddressError::InvalidPublicKey(copy_string(s)),
            AddressError::AddressError(s) => AddressError::AddressError(copy_string(s)),
            AddressError::InvalidK256Key(s) => AddressError::InvalidK256Key(copy_string(s)),
        }
    }
}

/// Derivation path of key `index`: one segment, the index in 4 little-endian bytes.
pub fn create_derivation_path(index: u32) -> (path: Vec<Vec<u8>>)
    ensures
        path@.len() == 1,
        path@[0]@ == seq![
            (index & 0xff) as u8,
            ((index >> 8u32) & 0xff) as u8,
            ((index >> 16u32) & 0xff) as u8,
            ((index >> 24u32) & 0xff) as u8,
        ],
{
    let mut seg: Vec<u8> = Vec::new();
    seg.push((index & 0xff) as u8);
    seg.push(((index >> 8u32) & 0xff) as u8);
    seg.push(((index >> 16u32) & 0xff) as u8);
    seg.push(((index >> 24u32) & 0xff) as u8);
    let mut path: Vec<Vec<u8>> = Vec::new();
    path.push(seg);
    assert(path@[0]@ =~= seq![
        (index & 0xff) as u8,
        ((index >> 8u32) & 0xff) as u8,
        ((index >> 16u32) & 0xff) as u8,
        ((index >> 24u32) & 0xff) as u8,
    ]);
    path
}

/// The uncompressed SEC1 encoding of the secp256k1 public key that `bytes` encode (in any
/// SEC1 form), or `None` if they do not encode a valid key, as the `k256` crate decides.
pub uninterp spec fn sec1_uncompressed(bytes: Seq<u8>) -> Option<Seq<u8>>;

/// The compressed SEC1 encoding of the secp256k1 public key that `bytes` encode, or `None`
/// if they do not encode a valid key, as the `k256` crate decides.
pub uninterp spec fn sec1_compressed(bytes: Seq<u8>) -> Option<Seq<u8>>;

/// Calls `k256::PublicKey::from_sec1_bytes` and then `to_sec1_point(false)`. The contract
/// claims that parsing succeeds exactly when `sec1_uncompressed` gives bytes, and that those
/// are returned. The error is the crate's debug rendering and is not stated.
#[verifier::external_body]
pub(crate) fn sec1_to_uncompressed(bytes: &[u8]) -> (r: Result<Vec<u8>, String>)
    ensures
        r is Ok <==> sec1_uncompressed(bytes@) is Some,
        r matches Ok(v) ==> sec1_uncompressed(bytes@) == Some(v@),
{
    match k256::PublicKey::from_sec1_bytes(bytes) {
        Ok(pk) => Ok(pk.to_sec1_point(false).as_bytes().to_vec()),
        Err(e) => Err(format!("{:?}", e)),
    }
}

/// Calls `k256::PublicKey::from_sec1_bytes` and then `to_sec1_point(true)`. The contract
/// claims that parsing succeeds exactly when `sec1_compressed` gives bytes, and that those
/// are returned. The error is the crate's debug rendering and is not stated.
#[verifier::external_body]
pub(crate) fn sec1_to_compressed(bytes: &[u8]) -> (r: Result<Vec<u8>, String>)
    ensures
        r is Ok <==> sec1_compressed(bytes@) is Some,
        r matches Ok(v) ==> sec1_compressed(bytes@) == Some(v@),
{
    match k256::PublicKey::from_sec1_bytes(bytes) {
        Ok(pk) => Ok(pk.to_sec1_point(true).as_bytes().to_vec()),
        Err(e) => Err(format!("{:?}", e)),
    }
}

} // verus!
