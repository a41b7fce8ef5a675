//! Building the certification header: the host-issued certificate and the
//! serialized witness for the requested path, both base64-encoded and laid
//! into a fixed textual template.

use vstd::prelude::*;
use vstd::utf8::encode_utf8;

use crate::tree::{witness_cbor, AssetHashes};

verus! {

/// The base64 encoding (standard alphabet, padded) of a byte sequence, as
/// computed by the `base64` crate.
pub uninterp spec fn b64_of(bytes: Seq<u8>) -> Seq<char>;

/// Relies on base64::encode: the standard-alphabet, padded base64 encoding
/// of the input, a function of the input bytes alone; four characters for
/// every three input bytes begun.
#[verifier::external_body]
pub fn b64(bytes: &[u8]) -> (r: String)
    ensures
        r@ == b64_of(bytes@),
        r@.len() == 4 * ((bytes@.len() + 2) / 3),
{
    base64::encode(bytes)
}

/// The domain label under which asset digests are committed: the ASCII
/// bytes of "http_assets".
pub open spec fn label_bytes() -> Seq<u8> {
    seq![104u8, 116u8, 116u8, 112u8, 95u8, 97u8, 115u8, 115u8, 101u8, 116u8, 115u8]
}

/// The domain label as a byte vector.
pub fn assets_label() -> (r: Vec<u8>)
    ensures
        r@ =~= label_bytes(),
{
    let mut r: Vec<u8> = Vec::new();
    r.push(104);
    r.push(116);
    r.push(116);
    r.push(112);
    r.push(95);
    r.push(97);
    r.push(115);
    r.push(115);
    r.push(101);
    r.push(116);
    r.push(115);
    proof {
        assert(r@ =~= label_bytes());
    }
    r
}

/// The name of the certification header.
pub open spec fn certificate_header_name() -> Seq<char> {
    "IC-Certificate"@
}

/// The value of the certification header: the base64 certificate and the
/// base64 serialized witness, in a fixed template.
pub open spec fn certificate_header_value(certificate: Seq<u8>, witness: Seq<u8>) -> Seq<char> {
    "certificate=:"@ + b64_of(certificate) + ":, tree=:"@ + b64_of(witness) + ":"@
}

/// Builds the certification header for the asset at `asset_name`: the
/// host-issued certificate together with a witness that relates the asset's
/// digest (or its absence) to the root hash the certificate attests to.
///
/// The caller obtains `certificate` from the host; it is only available
/// while handling a read-only call.
pub fn make_asset_certificate_header(
    asset_hashes: &AssetHashes,
    certificate: &[u8],
    asset_name: &str,
) -> (r: (String, String))
    ensures
        r.0@ == certificate_header_name(),
        r.1@ == certificate_header_value(
            certificate@,
            witness_cbor(
                label_bytes(),
                asset_hashes.history(),
                asset_hashes.entries(),
                encode_utf8(asset_name@),
            ),
        ),
{
    let label = assets_label();
    let witness = asset_hashes.witness(label.as_slice(), asset_name.as_bytes());
    let mut value = "certificate=:".to_owned();
    value.append(b64(certificate).as_str());
    value.append(":, tree=:");
    value.append(b64(witness.as_slice()).as_str());
    value.append(":");
    ("IC-Certificate".to_owned(), value)
}

} // verus!
