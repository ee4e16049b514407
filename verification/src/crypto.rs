//! The two cryptographic primitives the node relies on: SHA-256 and Ed25519
//! signature verification. Both are computed by outside crates; this module
//! gives their results a name so that the rest of the library can speak of
//! them.

use crate::keys;
use crate::keys::{Pubkey, Signature};
use sha2::Digest;
use vstd::prelude::*;

verus! {

/// The SHA-256 digest of `data`.
pub uninterp spec fn sha256(data: Seq<u8>) -> keys::Hash;

/// Whether `signature` is a valid Ed25519 signature of `message` under
/// `pubkey`.
pub uninterp spec fn ed25519_verifies(pubkey: Seq<u8>, message: Seq<u8>, signature: Seq<u8>) -> bool;

/// Calls `sha2::Sha256::digest`. Trusted: the 32 bytes returned are the
/// SHA-256 digest of `data`, a function of `data` alone.
#[verifier::external_body]
fn sha256_digest(data: &[u8]) -> (digest: keys::Hash)
    ensures
        digest == sha256(data@),
{
    keys::Hash { bytes: sha2::Sha256::digest(data).into() }
}

/// Calls `ring::signature::UnparsedPublicKey::verify` with the `ED25519`
/// algorithm. Trusted: the answer is `true` exactly when the outside crate
/// accepts the signature, which depends on the three byte strings alone.
#[verifier::external_body]
fn ed25519_verify(pubkey: &Pubkey, message: &[u8], signature: &Signature) -> (ok: bool)
    ensures
        ok == ed25519_verifies(pubkey@, message@, signature@),
{
    let key = ring::signature::UnparsedPublicKey::new(&ring::signature::ED25519, &pubkey.bytes[..]);
    key.verify(message, &signature.bytes[..]).is_ok()
}

/// Hashes `data` with SHA-256.
pub fn hash(data: &[u8]) -> (digest: keys::Hash)
    ensures
        digest == sha256(data@),
{
    sha256_digest(data)
}

/// Hashes a hash: one step of the sequential hash chain.
pub fn hash_of_hash(previous: &keys::Hash) -> (digest: keys::Hash)
    ensures
        digest == sha256(previous@),
{
    sha256_digest(previous.bytes.as_slice())
}

/// Checks an Ed25519 signature over `message`.
pub fn signature_verifies(pubkey: &Pubkey, message: &[u8], signature: &Signature) -> (ok: bool)
    ensures
        ok == ed25519_verifies(pubkey@, message@, signature@),
{
    ed25519_verify(pubkey, message, signature)
}

} // verus!
