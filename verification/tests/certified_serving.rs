//! End-to-end tests of the certified state: insertion, aliasing,
//! idempotence, root consistency, and certified request handling, checked
//! against an independently built tree from the backing Merkle-map crate.

use certified_assets::{
    http_request, insert_asset, insert_favicon, Asset, AssetHashes, Assets, CertifiedState,
    HttpRequest,
};
use ic_certified_map::AsHashTree;

fn get_req(url: &str) -> HttpRequest {
    HttpRequest {
        method: "GET".to_string(),
        url: url.to_string(),
        headers: Vec::new(),
        body: Vec::new(),
    }
}

/// The labeled root the host would certify for the given (path, body)
/// pairs, built directly on the backing crate, inserting in the given
/// order.
fn expected_root(entries: &[(&str, &[u8])]) -> [u8; 32] {
    let mut tree: ic_certified_map::RbTree<Vec<u8>, ic_certified_map::Hash> =
        ic_certified_map::RbTree::new();
    for (path, body) in entries {
        tree.insert(path.as_bytes().to_vec(), certified_assets::hash_bytes(body));
    }
    ic_certified_map::labeled_hash(b"http_assets", &tree.root_hash())
}

fn header<'a>(headers: &'a [(String, String)], name: &str) -> Option<&'a str> {
    headers
        .iter()
        .find(|(k, _)| k.as_str() == name)
        .map(|(_, v)| v.as_str())
}

/// Decodes the witness blob out of a certification header value of the
/// form `certificate=:<b64>:, tree=:<b64>:`.
fn witness_bytes(value: &str) -> Vec<u8> {
    let marker = "tree=:";
    let start = value.find(marker).expect("no tree field") + marker.len();
    let end = value.rfind(':').expect("no closing colon");
    base64::decode(&value[start..end]).expect("tree field is not base64")
}

/// Reconstructs the root hash that a serialized witness commits to.
fn reconstruct(witness: &[u8]) -> [u8; 32] {
    // Skip the CBOR self-describe tag.
    let body = if witness.starts_with(&[0xd9, 0xd9, 0xf7]) {
        &witness[3..]
    } else {
        witness
    };
    let tree: ic_certified_map::HashTree = serde_cbor::from_slice(body).expect("bad witness CBOR");
    tree.reconstruct()
}

#[test]
fn insert_updates_store_and_root() {
    let mut state = CertifiedState::new();
    insert_asset(&mut state, "/a.txt".to_string(), Asset::new(b"hi".to_vec()));
    assert_eq!(state.assets.get("/a.txt").unwrap().bytes, b"hi".to_vec());
    assert_eq!(state.published_root, expected_root(&[("/a.txt", b"hi")]));
}

#[test]
fn aliasing_binds_directory_path() {
    let mut state = CertifiedState::new();
    insert_asset(
        &mut state,
        "/x/index.html".to_string(),
        Asset::new(b"<html>hello</html>".to_vec()),
    );
    let direct = state.assets.get("/x/index.html").expect("literal path missing");
    let alias = state.assets.get("/x/").expect("alias path missing");
    assert_eq!(direct.bytes, alias.bytes);
    assert_eq!(direct.headers, alias.headers);
    // Both paths have their own leaves, with identical values.
    assert_eq!(
        state.published_root,
        expected_root(&[("/x/", b"<html>hello</html>"), ("/x/index.html", b"<html>hello</html>")])
    );
}

#[test]
fn bare_index_html_aliases_empty_path() {
    let mut state = CertifiedState::new();
    insert_asset(&mut state, "index.html".to_string(), Asset::new(b"root".to_vec()));
    assert_eq!(state.assets.get("").unwrap().bytes, b"root".to_vec());
    assert_eq!(state.assets.get("index.html").unwrap().bytes, b"root".to_vec());
}

#[test]
fn reinsertion_is_idempotent() {
    let mut once = CertifiedState::new();
    insert_asset(&mut once, "/a.txt".to_string(), Asset::new(b"hi".to_vec()));
    let mut twice = CertifiedState::new();
    insert_asset(&mut twice, "/a.txt".to_string(), Asset::new(b"hi".to_vec()));
    let root_after_one = twice.published_root;
    insert_asset(&mut twice, "/a.txt".to_string(), Asset::new(b"hi".to_vec()));
    assert_eq!(twice.published_root, root_after_one);
    assert_eq!(twice.published_root, once.published_root);
    assert_eq!(
        twice.assets.get("/a.txt").unwrap().bytes,
        once.assets.get("/a.txt").unwrap().bytes
    );
}

#[test]
fn root_consistent_across_insertion_orders() {
    let bodies: [(&str, &[u8]); 3] = [("/a", &b"one"[..]), ("/b", &b"two"[..]), ("/c", &b"three"[..])];
    let mut forward = CertifiedState::new();
    for (p, b) in bodies.iter() {
        insert_asset(&mut forward, p.to_string(), Asset::new(b.to_vec()));
    }
    let mut backward = CertifiedState::new();
    for (p, b) in bodies.iter().rev() {
        insert_asset(&mut backward, p.to_string(), Asset::new(b.to_vec()));
    }
    assert_eq!(forward.published_root, backward.published_root);
    // Overwrites in any order do not move the root either.
    insert_asset(&mut forward, "/b".to_string(), Asset::new(b"two".to_vec()));
    assert_eq!(forward.published_root, backward.published_root);
}

#[test]
fn served_witness_verifies_against_published_root() {
    let mut state = CertifiedState::new();
    insert_asset(&mut state, "/a.txt".to_string(), Asset::new(b"hi".to_vec()));
    insert_asset(&mut state, "/b.txt".to_string(), Asset::new(b"ho".to_vec()));
    let response = http_request(&state, get_req("/a.txt"), b"host-cert");
    let value = header(&response.headers, "IC-Certificate").expect("no certification header");
    let root = reconstruct(&witness_bytes(value));
    assert_eq!(root, state.published_root);
}

#[test]
fn missing_path_is_certified_404() {
    let mut state = CertifiedState::new();
    insert_asset(&mut state, "/a.txt".to_string(), Asset::new(b"hi".to_vec()));
    let response = http_request(&state, get_req("/nope"), b"host-cert");
    assert_eq!(response.status_code, 404);
    assert_eq!(response.body, b"Asset /nope not found.".to_vec());
    let value = header(&response.headers, "IC-Certificate").expect("no certification header");
    assert!(!value.is_empty());
    // The exclusion witness still reconstructs the certified root.
    let root = reconstruct(&witness_bytes(value));
    assert_eq!(root, state.published_root);
}

#[test]
fn end_to_end_serving() {
    let mut state = CertifiedState::new();
    insert_asset(&mut state, "/a.txt".to_string(), Asset::new(b"hi".to_vec()));
    let response = http_request(&state, get_req("/a.txt"), b"host-cert");
    assert_eq!(response.status_code, 200);
    assert_eq!(response.body, b"hi".to_vec());
    assert_eq!(header(&response.headers, "X-Frame-Options"), Some("DENY"));
    assert_eq!(header(&response.headers, "X-Content-Type-Options"), Some("nosniff"));
    assert_eq!(
        header(&response.headers, "Strict-Transport-Security"),
        Some("max-age=31536000 ; includeSubDomains")
    );
    assert_eq!(header(&response.headers, "Referrer-Policy"), Some("same-origin"));
    assert!(header(&response.headers, "IC-Certificate").is_some());
    assert_eq!(header(&response.headers, "Content-Type"), Some("text/plain"));

    let missing = http_request(&state, get_req("/missing"), b"host-cert");
    assert_eq!(missing.status_code, 404);
    assert_eq!(missing.body, b"Asset /missing not found.".to_vec());
}

#[test]
fn asset_own_headers_are_served() {
    let mut state = CertifiedState::new();
    let asset = Asset::new(b"x".to_vec())
        .with_header("Cache-Control".to_string(), "no-store".to_string());
    insert_asset(&mut state, "/h.txt".to_string(), asset);
    let response = http_request(&state, get_req("/h.txt"), b"host-cert");
    assert_eq!(header(&response.headers, "Cache-Control"), Some("no-store"));
}

#[test]
fn query_string_is_ignored_for_lookup() {
    let mut state = CertifiedState::new();
    insert_asset(&mut state, "/a.txt".to_string(), Asset::new(b"hi".to_vec()));
    let response = http_request(&state, get_req("/a.txt?foo=bar"), b"host-cert");
    assert_eq!(response.status_code, 200);
    assert_eq!(response.body, b"hi".to_vec());
}

#[test]
fn certificate_is_embedded_base64() {
    let state = CertifiedState::new();
    let response = http_request(&state, get_req("/x"), b"hi");
    let value = header(&response.headers, "IC-Certificate").unwrap();
    assert!(value.starts_with("certificate=:aGk=:, tree=:"));
    assert!(value.ends_with(':'));
}

#[test]
fn favicon_bootstrap_is_idempotent() {
    let mut state = CertifiedState::new();
    insert_favicon(&mut state, b"icon-bytes".to_vec());
    assert_eq!(state.assets.get("/favicon.ico").unwrap().bytes, b"icon-bytes".to_vec());
    let root = state.published_root;
    insert_favicon(&mut state, b"other-bytes".to_vec());
    // A present favicon is left untouched.
    assert_eq!(state.assets.get("/favicon.ico").unwrap().bytes, b"icon-bytes".to_vec());
    assert_eq!(state.published_root, root);
}

#[test]
fn from_assets_rebuilds_the_tree() {
    let mut assets = Assets::new();
    assets.insert("/a".to_string(), Asset::new(b"one".to_vec()));
    assets.insert("/b".to_string(), Asset::new(b"two".to_vec()));
    let rebuilt = AssetHashes::from_assets(&assets);
    let mut direct: ic_certified_map::RbTree<Vec<u8>, ic_certified_map::Hash> =
        ic_certified_map::RbTree::new();
    direct.insert(b"/a".to_vec(), certified_assets::hash_bytes(b"one"));
    direct.insert(b"/b".to_vec(), certified_assets::hash_bytes(b"two"));
    assert_eq!(rebuilt.root_hash(), direct.root_hash());
}
