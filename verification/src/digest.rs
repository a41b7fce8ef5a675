//! SHA-256 digests and the domain-separated ("labeled") hash that the
//! certification protocol publishes.

use sha2::Digest;
use vstd::prelude::*;

verus! {

/// The SHA-256 digest of a byte sequence, as computed by the `sha2` crate.
pub uninterp spec fn sha256_of(bytes: Seq<u8>) -> Seq<u8>;

/// Relies on sha2::Sha256 (`Digest::new`/`update`/`finalize`): the SHA-256
/// digest of the input, a 32-byte value determined by the input bytes alone.
#[verifier::external_body]
pub fn hash_bytes(value: &[u8]) -> (r: [u8; 32])
    ensures
        r@ == sha256_of(value@),
        r@.len() == 32,
{
    let mut hasher = sha2::Sha256::new();
    hasher.update(value);
    hasher.finalize().into()
}

/// The exact byte string that a labeled hash digests: the length byte 19,
/// the ASCII characters of "ic-hashtree-labeled", the label, then the
/// content hash.
pub open spec fn labeled_hash_input(label: Seq<u8>, content_hash: Seq<u8>) -> Seq<u8> {
    seq![
        19u8, 105u8, 99u8, 45u8, 104u8, 97u8, 115u8, 104u8, 116u8, 114u8, 101u8, 101u8, 45u8,
        108u8, 97u8, 98u8, 101u8, 108u8, 101u8, 100u8,
    ] + label + content_hash
}

/// Relies on ic_certified_map::labeled_hash: SHA-256 over the one-byte
/// domain-string length, the domain string "ic-hashtree-labeled", the label,
/// and the content hash, in that order.
#[verifier::external_body]
pub fn labeled_hash(label: &[u8], content_hash: &[u8; 32]) -> (r: [u8; 32])
    ensures
        r@ == sha256_of(labeled_hash_input(label@, content_hash@)),
{
    ic_certified_map::labeled_hash(label, content_hash)
}

} // verus!
