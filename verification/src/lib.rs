//! Certified static assets: a path-to-content store backed by a Merkle hash
//! tree, producing per-request inclusion proofs that verify against a
//! published, domain-separated root hash.
//!
//! Insertion updates the store, the tree, and the published root together;
//! request handling answers every path — stored or not — with the fixed
//! security headers and a certification header that carries the host's
//! certificate and a serialized witness for exactly that path.

pub mod asset;
pub mod certification;
pub mod content_type;
pub mod digest;
pub mod headers;
pub mod server;
pub mod text;
pub mod tree;
pub mod types;

pub use asset::{Asset, Assets};
pub use certification::make_asset_certificate_header;
pub use content_type::content_type_of;
pub use digest::hash_bytes;
pub use headers::security_headers;
pub use server::{http_request, insert_asset, insert_favicon, CertifiedState, HttpRequest,
    HttpResponse};
pub use tree::AssetHashes;
pub use types::EmptyRecord;
