//! Tests for assets, the store, content types, security headers, and
//! digests.

use certified_assets::{content_type_of, hash_bytes, security_headers, Asset, Assets, EmptyRecord};

fn hex(bytes: &[u8]) -> String {
    let mut s = String::new();
    for b in bytes {
        s.push_str(&format!("{:02x}", b));
    }
    s
}

#[test]
fn content_type_directory_is_html() {
    assert_eq!(content_type_of("/a/b/"), Some("text/html"));
}

#[test]
fn content_type_svg() {
    assert_eq!(content_type_of("/a/b.svg"), Some("image/svg+xml"));
}

#[test]
fn content_type_unknown_extension_is_none() {
    assert_eq!(content_type_of("/a/b.unknownext"), None);
}

#[test]
fn content_type_table() {
    assert_eq!(content_type_of("/s.css"), Some("text/css"));
    assert_eq!(content_type_of("/p.html"), Some("text/html"));
    assert_eq!(content_type_of("/d.xml"), Some("application/xml"));
    assert_eq!(content_type_of("/m.js"), Some("application/javascript"));
    assert_eq!(content_type_of("/d.json"), Some("application/json"));
    assert_eq!(content_type_of("/i.png"), Some("image/png"));
    assert_eq!(content_type_of("/i.jpeg"), Some("image/jpeg"));
    assert_eq!(content_type_of("/i.jpg"), Some("image/jpeg"));
    assert_eq!(content_type_of("/f.ico"), Some("image/x-icon"));
    assert_eq!(content_type_of("/f.ttf"), Some("font/ttf"));
    assert_eq!(content_type_of("/f.woff2"), Some("font/woff2"));
    assert_eq!(content_type_of("/n.txt"), Some("text/plain"));
}

#[test]
fn content_type_no_dot_is_none() {
    assert_eq!(content_type_of("/plain"), None);
    assert_eq!(content_type_of(""), None);
    // A dot-free path that merely equals a table key has no extension.
    assert_eq!(content_type_of("txt"), None);
    assert_eq!(content_type_of("css"), None);
}

#[test]
fn content_type_dot_in_directory_only() {
    assert_eq!(content_type_of("/a.b/c"), None);
}

#[test]
fn security_headers_are_the_fixed_four() {
    let h = security_headers();
    assert_eq!(h.len(), 4);
    assert_eq!(h[0], ("X-Frame-Options".to_string(), "DENY".to_string()));
    assert_eq!(h[1], ("X-Content-Type-Options".to_string(), "nosniff".to_string()));
    assert_eq!(
        h[2],
        (
            "Strict-Transport-Security".to_string(),
            "max-age=31536000 ; includeSubDomains".to_string()
        )
    );
    assert_eq!(h[3], ("Referrer-Policy".to_string(), "same-origin".to_string()));
}

#[test]
fn asset_new_and_with_header() {
    let a = Asset::new(b"body".to_vec());
    assert!(a.headers.is_empty());
    assert_eq!(a.bytes, b"body".to_vec());
    let a = a.with_header("Cache-Control".to_string(), "no-store".to_string());
    assert_eq!(a.headers, vec![("Cache-Control".to_string(), "no-store".to_string())]);
    assert_eq!(a.bytes, b"body".to_vec());
}

#[test]
fn assets_insert_and_get() {
    let mut assets = Assets::new();
    assert!(assets.get("/a").is_none());
    assets.insert("/a".to_string(), Asset::new(b"one".to_vec()));
    assert_eq!(assets.get("/a").unwrap().bytes, b"one".to_vec());
    assert!(assets.get("/b").is_none());
    assets.insert("/a".to_string(), Asset::new(b"two".to_vec()));
    assert_eq!(assets.get("/a").unwrap().bytes, b"two".to_vec());
}

#[test]
fn hash_bytes_known_vectors() {
    assert_eq!(
        hex(&hash_bytes(b"")),
        "e3b0c44298fc1c149afbf4c8996fb92427ae41e4649b934ca495991b7852b855"
    );
    assert_eq!(
        hex(&hash_bytes(b"abc")),
        "ba7816bf8f01cfea414140de5dae2223b00361a396177a9cb410ff61f20015ad"
    );
}

#[test]
fn empty_record_builds() {
    let _ = EmptyRecord {};
}
