//! The certified asset server: a single state aggregate (asset store, hash
//! tree, published root) mutated only through asset insertion, and a
//! request pipeline that answers every request — hits and misses alike —
//! with a certification header.

use vstd::prelude::*;
use vstd::utf8::encode_utf8;

use crate::asset::{copy_bytes, store_map, Asset, AssetView, Assets};
use crate::certification::{assets_label, certificate_header_name, certificate_header_value,
    label_bytes, make_asset_certificate_header};
use crate::content_type::{content_type_of, spec_content_type};
use crate::digest::{hash_bytes, labeled_hash, labeled_hash_input, sha256_of};
use crate::headers::{security_headers, security_headers_view};
use crate::text::{find_char, lemma_prefix_before_first_at, lemma_prefix_before_first_none,
    lemma_suffix_after_last_at, lemma_suffix_after_last_len, lemma_suffix_after_last_none,
    prefix_before_first, rfind_char, str_eq, suffix_after_last};
use crate::tree::{witness_cbor, AssetHashes};

verus! {

/// The standardised data structure for HTTP requests as supported natively
/// by the host.
pub struct HttpRequest {
    /// The HTTP method of the request, such as "GET" or "POST".
    pub method: String,
    /// The requested path and query string, for example "/some/path?foo=bar".
    ///
    /// Note: This does NOT contain the domain, port or protocol.
    pub url: String,
    /// The HTTP request headers.
    pub headers: Vec<(String, String)>,
    /// The complete body of the HTTP request.
    pub body: Vec<u8>,
}

/// The standardised data structure for HTTP responses as supported natively
/// by the host.
pub struct HttpResponse {
    /// The HTTP status code: 200 for success, 404 for a path that holds no
    /// asset.
    pub status_code: u16,
    /// The headers of the HTTP response.
    pub headers: Vec<(String, String)>,
    /// The body of the HTTP response.
    pub body: Vec<u8>,
}

/// The tree mirrors the store exactly: every stored path has a leaf keyed
/// by its UTF-8 bytes holding the SHA-256 digest of the asset's bytes, and
/// every leaf comes from a stored path.
pub open spec fn tree_matches_store(
    entries: Map<Seq<u8>, Seq<u8>>,
    store: Map<Seq<char>, AssetView>,
) -> bool {
    &&& forall|p: Seq<char>|
        #[trigger] store.contains_key(p) ==> entries.contains_key(encode_utf8(p))
            && entries[encode_utf8(p)] == sha256_of(store[p].bytes)
    &&& forall|k: Seq<u8>|
        #[trigger] entries.contains_key(k) ==> exists|p: Seq<char>|
            store.contains_key(p) && #[trigger] encode_utf8(p) == k
}

/// UTF-8 encoding is injective on character sequences.
pub proof fn lemma_encode_injective(a: Seq<char>, b: Seq<char>)
    requires
        encode_utf8(a) == encode_utf8(b),
    ensures
        a == b,
{
    vstd::utf8::encode_utf8_decode_utf8(a);
    vstd::utf8::encode_utf8_decode_utf8(b);
}

/// The process-wide certified state: the asset store, the hash tree over
/// it, and the labeled root most recently handed to the host's
/// certified-data slot.
pub struct CertifiedState {
    /// The asset store.
    pub assets: Assets,
    /// The hash tree mirroring the store.
    pub asset_hashes: AssetHashes,
    /// The labeled root hash as last published to the host.
    pub published_root: [u8; 32],
}

/// The empty asset store mapping.
pub open spec fn no_assets() -> Map<Seq<char>, AssetView> {
    Map::empty()
}

impl CertifiedState {
    /// Well-formedness: the tree mirrors the store, and the published root
    /// is the labeled hash of the tree's root.
    pub open spec fn wf(&self) -> bool {
        &&& tree_matches_store(self.asset_hashes.entries(), self.assets@)
        &&& self.published_root@ == sha256_of(
            labeled_hash_input(label_bytes(), self.asset_hashes.root_spec()),
        )
    }

    /// Creates an empty certified state with its published root already
    /// computed.
    pub fn new() -> (r: Self)
        ensures
            r.wf(),
            r.assets@ =~= no_assets(),
            r.asset_hashes.entries() == crate::tree::no_entries(),
            r.asset_hashes.history() == Seq::<Seq<u8>>::empty(),
    {
        let assets = Assets::new();
        let asset_hashes = AssetHashes::new();
        let root = asset_hashes.root_hash();
        let label = assets_label();
        let published_root = labeled_hash(label.as_slice(), &root);
        let r = CertifiedState { assets, asset_hashes, published_root };
        proof {
            assert(r.assets@ =~= no_assets());
        }
        r
    }
}

/// Whether the final path segment is the directory index page, which makes
/// the insertion also bind the parent directory path.
pub open spec fn is_aliased(path: Seq<char>) -> bool {
    suffix_after_last(path, '/') == "index.html"@
}

/// The alias bound alongside an index page: the path with the final
/// segment removed, keeping the trailing separator.
pub open spec fn alias_of(path: Seq<char>) -> Seq<char> {
    path.take(path.len() - 10)
}

/// The store after inserting `a` at `path`, including the directory alias
/// when `path` names an index page.
pub open spec fn store_after(
    m: Map<Seq<char>, AssetView>,
    path: Seq<char>,
    a: AssetView,
) -> Map<Seq<char>, AssetView> {
    if is_aliased(path) {
        m.insert(alias_of(path), a).insert(path, a)
    } else {
        m.insert(path, a)
    }
}

/// The tree entries after inserting an asset with byte content `bytes` at
/// `path`: a leaf per bound path, holding the digest of the bytes.
pub open spec fn entries_after(
    e: Map<Seq<u8>, Seq<u8>>,
    path: Seq<char>,
    bytes: Seq<u8>,
) -> Map<Seq<u8>, Seq<u8>> {
    if is_aliased(path) {
        e.insert(encode_utf8(alias_of(path)), sha256_of(bytes)).insert(
            encode_utf8(path),
            sha256_of(bytes),
        )
    } else {
        e.insert(encode_utf8(path), sha256_of(bytes))
    }
}

/// The tree key history after the same insertion: new keys are appended in
/// the order the tree first sees them.
pub open spec fn history_after(
    h: Seq<Seq<u8>>,
    e: Map<Seq<u8>, Seq<u8>>,
    path: Seq<char>,
    bytes: Seq<u8>,
) -> Seq<Seq<u8>> {
    if is_aliased(path) {
        let k1 = encode_utf8(alias_of(path));
        let k2 = encode_utf8(path);
        let h1 = if e.contains_key(k1) {
            h
        } else {
            h.push(k1)
        };
        let e1 = e.insert(k1, sha256_of(bytes));
        if e1.contains_key(k2) {
            h1
        } else {
            h1.push(k2)
        }
    } else {
        let k2 = encode_utf8(path);
        if e.contains_key(k2) {
            h
        } else {
            h.push(k2)
        }
    }
}

/// Whether the path's final segment is "index.html".
fn path_is_aliased(path: &str) -> (r: bool)
    ensures
        r == is_aliased(path@),
        r ==> path@.len() >= 10,
{
    let n = path.unicode_len();
    let suffix_start: usize = match rfind_char(path, '/') {
        Some(i) => {
            proof {
                lemma_suffix_after_last_at(path@, '/', i as int);
            }
            i + 1
        },
        None => {
            proof {
                lemma_suffix_after_last_none(path@, '/');
            }
            0
        },
    };
    let suffix = path.substring_char(suffix_start, n);
    proof {
        assert(suffix@ =~= suffix_after_last(path@, '/'));
    }
    let r = str_eq(suffix, "index.html");
    proof {
        if r {
            reveal_strlit("index.html");
            assert(path@.len() >= 10);
        }
    }
    r
}

/// Recomputes the labeled root over the current tree and stores it as the
/// value to hand to the host's certified-data slot.
fn update_root_hash(state: &mut CertifiedState)
    ensures
        final (state).assets == old(state).assets,
        final (state).asset_hashes == old(state).asset_hashes,
        final (state).published_root@ == sha256_of(
            labeled_hash_input(label_bytes(), old(state).asset_hashes.root_spec()),
        ),
{
    let root = state.asset_hashes.root_hash();
    let label = assets_label();
    state.published_root = labeled_hash(label.as_slice(), &root);
}

/// Inserts an asset into the certified state: the store, the tree, and the
/// published root are all updated before the call returns.  When the final
/// path segment is "index.html" the parent directory path (with trailing
/// separator) is bound to the same asset, with its own tree leaf.
pub fn insert_asset(state: &mut CertifiedState, path: String, asset: Asset)
    ensures
        final (state).assets@ == store_after(old(state).assets@, path@, asset@),
        final (state).asset_hashes.entries() == entries_after(
            old(state).asset_hashes.entries(),
            path@,
            asset@.bytes,
        ),
        final (state).asset_hashes.history() == history_after(
            old(state).asset_hashes.history(),
            old(state).asset_hashes.entries(),
            path@,
            asset@.bytes,
        ),
        final (state).published_root@ == sha256_of(
            labeled_hash_input(label_bytes(), final (state).asset_hashes.root_spec()),
        ),
        old(state).wf() ==> final (state).wf(),
{
    let ghost old_state = *state;
    let aliased = path_is_aliased(path.as_str());
    if aliased {
        let n = path.unicode_len();
        let dirname = path.as_str().substring_char(0, n - 10).to_owned();
        proof {
            assert(dirname@ =~= alias_of(path@));
        }
        let digest = hash_bytes(asset.bytes.as_slice());
        state.asset_hashes.insert(dirname.as_str().as_bytes_vec(), digest);
        state.assets.insert(dirname, asset.duplicate());
    }
    let digest = hash_bytes(asset.bytes.as_slice());
    state.asset_hashes.insert(path.as_str().as_bytes_vec(), digest);
    let ghost path_view = path@;
    let ghost asset_view = asset@;
    state.assets.insert(path, asset);
    update_root_hash(state);
    proof {
        lemma_tree_still_matches(old_state, *state, path_view, asset_view);
    }
}

/// The tree/store correspondence survives an insertion.
proof fn lemma_tree_still_matches(
    pre: CertifiedState,
    post: CertifiedState,
    path: Seq<char>,
    a: AssetView,
)
    requires
        post.assets@ == store_after(pre.assets@, path, a),
        post.asset_hashes.entries() == entries_after(pre.asset_hashes.entries(), path, a.bytes),
    ensures
        tree_matches_store(pre.asset_hashes.entries(), pre.assets@) ==> tree_matches_store(
            post.asset_hashes.entries(),
            post.assets@,
        ),
{
    if tree_matches_store(pre.asset_hashes.entries(), pre.assets@) {
        let e0 = pre.asset_hashes.entries();
        let m0 = pre.assets@;
        let e1 = post.asset_hashes.entries();
        let m1 = post.assets@;
        assert forall|p: Seq<char>| #[trigger] m1.contains_key(p) implies e1.contains_key(
            encode_utf8(p),
        ) && e1[encode_utf8(p)] == sha256_of(m1[p].bytes) by {
            if p == path {
            } else if is_aliased(path) && p == alias_of(path) {
                lemma_encode_injective_contrapositive(p, path);
            } else {
                lemma_encode_injective_contrapositive(p, path);
                if is_aliased(path) {
                    lemma_encode_injective_contrapositive(p, alias_of(path));
                }
            }
        }
        assert forall|k: Seq<u8>| #[trigger] e1.contains_key(k) implies exists|p: Seq<char>|
            m1.contains_key(p) && #[trigger] encode_utf8(p) == k by {
            if k == encode_utf8(path) {
                assert(m1.contains_key(path) && encode_utf8(path) == k);
            } else if is_aliased(path) && k == encode_utf8(alias_of(path)) {
                assert(m1.contains_key(alias_of(path)) && encode_utf8(alias_of(path)) == k);
            } else {
                assert(e0.contains_key(k));
                let p = choose|p: Seq<char>|
                    m0.contains_key(p) && #[trigger] encode_utf8(p) == k;
                assert(p != path);
                if is_aliased(path) {
                    assert(p != alias_of(path));
                }
                assert(m1.contains_key(p) && encode_utf8(p) == k);
            }
        }
    }
}

/// Distinct character sequences have distinct UTF-8 encodings.
proof fn lemma_encode_injective_contrapositive(a: Seq<char>, b: Seq<char>)
    requires
        a != b,
    ensures
        encode_utf8(a) != encode_utf8(b),
{
    if encode_utf8(a) == encode_utf8(b) {
        lemma_encode_injective(a, b);
    }
}

/// The path component of a request URL: everything before the query string.
pub open spec fn request_path_of(url: Seq<char>) -> Seq<char> {
    prefix_before_first(url, '?')
}

/// The certification header pair served for `path`.
pub open spec fn cert_header_of(st: CertifiedState, certificate: Seq<u8>, path: Seq<char>) -> (
    Seq<char>,
    Seq<char>,
) {
    (
        certificate_header_name(),
        certificate_header_value(
            certificate,
            witness_cbor(
                label_bytes(),
                st.asset_hashes.history(),
                st.asset_hashes.entries(),
                encode_utf8(path),
            ),
        ),
    )
}

/// The security headers followed by the certification header: served on
/// every response, hit or miss.
pub open spec fn base_headers(st: CertifiedState, certificate: Seq<u8>, path: Seq<char>) -> Seq<
    (Seq<char>, Seq<char>),
> {
    security_headers_view().push(cert_header_of(st, certificate, path))
}

/// The Content-Type header appended for `path`, when the table knows one.
pub open spec fn content_type_headers(path: Seq<char>) -> Seq<(Seq<char>, Seq<char>)> {
    match spec_content_type(path) {
        Some(ct) => seq![("Content-Type"@, ct)],
        None => Seq::empty(),
    }
}

/// The body served when no asset is stored at `path`.
pub open spec fn not_found_message(path: Seq<char>) -> Seq<char> {
    "Asset "@ + path + " not found."@
}

/// Responds to an HTTP request for an asset.  The query string is ignored
/// for the lookup.  A stored asset is served verbatim with its own headers
/// and an inferred content type; a miss is a 404 whose exclusion witness is
/// certified all the same.
///
/// The caller obtains `certificate` from the host; it is only available
/// while handling a read-only call.
pub fn http_request(state: &CertifiedState, req: HttpRequest, certificate: &[u8]) -> (r:
    HttpResponse)
    ensures
        state.assets@.contains_key(request_path_of(req.url@)) ==> ({
            let path = request_path_of(req.url@);
            &&& r.status_code == 200
            &&& r.body@ == state.assets@[path].bytes
            &&& r.headers.deep_view() =~= base_headers(*state, certificate@, path)
                + state.assets@[path].headers + content_type_headers(path)
        }),
        !state.assets@.contains_key(request_path_of(req.url@)) ==> ({
            let path = request_path_of(req.url@);
            &&& r.status_code == 404
            &&& r.body@ == encode_utf8(not_found_message(path))
            &&& r.headers.deep_view() =~= base_headers(*state, certificate@, path)
        }),
{
    let url = req.url.as_str();
    let n = url.unicode_len();
    let path_end: usize = match find_char(url, '?') {
        Some(i) => {
            proof {
                lemma_prefix_before_first_at(url@, '?', i as int);
            }
            i
        },
        None => {
            proof {
                lemma_prefix_before_first_none(url@, '?');
            }
            n
        },
    };
    let request_path = url.substring_char(0, path_end);
    proof {
        assert(request_path@ =~= request_path_of(req.url@));
    }
    let mut headers = security_headers();
    let cert_header = make_asset_certificate_header(&state.asset_hashes, certificate, request_path);
    let ghost base = base_headers(*state, certificate@, request_path@);
    headers.push(cert_header);
    proof {
        assert(headers.deep_view() =~= base);
    }
    match state.assets.get(request_path) {
        Some(asset) => {
            let mut i: usize = 0;
            while i < asset.headers.len()
                invariant
                    i <= asset.headers.len(),
                    headers.deep_view() =~= base + asset.headers.deep_view().subrange(
                        0,
                        i as int,
                    ),
                decreases asset.headers.len() - i,
            {
                let pair = &asset.headers[i];
                let ghost pre = headers.deep_view();
                headers.push((pair.0.clone(), pair.1.clone()));
                proof {
                    let elem = (asset.headers@[i as int].0@, asset.headers@[i as int].1@);
                    assert(headers.deep_view() =~= pre.push(elem));
                    assert(asset.headers.deep_view().subrange(0, i + 1)
                        =~= asset.headers.deep_view().subrange(0, i as int).push(elem));
                    assert(headers.deep_view() =~= base + asset.headers.deep_view().subrange(
                        0,
                        i + 1,
                    ));
                }
                i += 1;
            }
            proof {
                assert(asset.headers.deep_view().subrange(0, asset.headers@.len() as int)
                    =~= asset@.headers);
            }
            match content_type_of(request_path) {
                Some(content_type) => {
                    headers.push(("Content-Type".to_owned(), content_type.to_owned()));
                },
                None => {},
            }
            proof {
                assert(headers.deep_view() =~= base + asset@.headers + content_type_headers(
                    request_path@,
                ));
            }
            let body = copy_bytes(&asset.bytes);
            HttpResponse { status_code: 200, headers, body }
        },
        None => {
            let mut msg = "Asset ".to_owned();
            msg.append(request_path);
            msg.append(" not found.");
            let body = msg.as_str().as_bytes_vec();
            HttpResponse { status_code: 404, headers, body }
        },
    }
}

/// The path of the bootstrap icon.
pub open spec fn favicon_path() -> Seq<char> {
    "/favicon.ico"@
}

/// Inserts a default icon at the favicon path, if there is not one already,
/// through the normal insertion path, so that it participates in
/// certification like any other asset.  Idempotent: a present favicon is
/// left untouched.
pub fn insert_favicon(state: &mut CertifiedState, icon: Vec<u8>)
    ensures
        old(state).assets@.contains_key(favicon_path()) ==> *final (state) == *old(state),
        !old(state).assets@.contains_key(favicon_path()) ==> ({
            let a = (AssetView { headers: Seq::empty(), bytes: icon@ });
            &&& final (state).assets@ == store_after(old(state).assets@, favicon_path(), a)
            &&& final (state).asset_hashes.entries() == entries_after(
                old(state).asset_hashes.entries(),
                favicon_path(),
                icon@,
            )
            &&& final (state).asset_hashes.history() == history_after(
                old(state).asset_hashes.history(),
                old(state).asset_hashes.entries(),
                favicon_path(),
                icon@,
            )
            &&& final (state).published_root@ == sha256_of(
                labeled_hash_input(label_bytes(), final (state).asset_hashes.root_spec()),
            )
        }),
        old(state).wf() ==> final (state).wf(),
{
    let absent = state.assets.get("/favicon.ico").is_none();
    if absent {
        let asset = Asset::new(icon);
        proof {
            assert(asset@ =~= (AssetView { headers: Seq::empty(), bytes: icon@ }));
        }
        insert_asset(state, "/favicon.ico".to_owned(), asset);
    }
}

impl AssetHashes {
    /// Rebuilds the hash tree of an asset store: one leaf per stored path,
    /// keyed by the path's UTF-8 bytes and holding the SHA-256 digest of
    /// that asset's bytes.
    pub fn from_assets(assets: &Assets) -> (r: Self)
        ensures
            tree_matches_store(r.entries(), assets@),
    {
        let mut r = AssetHashes::new();
        let mut i: usize = 0;
        while i < assets.entries.len()
            invariant
                i <= assets.entries@.len(),
                tree_matches_store(r.entries(), store_map(assets.entries@.subrange(0, i as int))),
            decreases assets.entries@.len() - i,
        {
            let ghost pre = r.entries();
            let ghost prefix = assets.entries@.subrange(0, i as int);
            let path = &assets.entries[i].0;
            let digest = hash_bytes(assets.entries[i].1.bytes.as_slice());
            r.insert(path.as_str().as_bytes_vec(), digest);
            proof {
                let next = assets.entries@.subrange(0, i + 1);
                assert(next.drop_last() =~= prefix);
                lemma_one_more_leaf(pre, store_map(prefix), path@, assets.entries@[i as int].1@);
                assert(store_map(next) == store_map(prefix).insert(
                    path@,
                    assets.entries@[i as int].1@,
                ));
            }
            i += 1;
        }
        proof {
            assert(assets.entries@.subrange(0, assets.entries@.len() as int) =~= assets.entries@);
        }
        r
    }
}

/// Adding one leaf for one store binding keeps the correspondence.
proof fn lemma_one_more_leaf(
    e: Map<Seq<u8>, Seq<u8>>,
    m: Map<Seq<char>, AssetView>,
    path: Seq<char>,
    a: AssetView,
)
    requires
        tree_matches_store(e, m),
    ensures
        tree_matches_store(e.insert(encode_utf8(path), sha256_of(a.bytes)), m.insert(path, a)),
{
    let e1 = e.insert(encode_utf8(path), sha256_of(a.bytes));
    let m1 = m.insert(path, a);
    assert forall|p: Seq<char>| #[trigger] m1.contains_key(p) implies e1.contains_key(
        encode_utf8(p),
    ) && e1[encode_utf8(p)] == sha256_of(m1[p].bytes) by {
        if p != path {
            lemma_encode_injective_contrapositive(p, path);
        }
    }
    assert forall|k: Seq<u8>| #[trigger] e1.contains_key(k) implies exists|p: Seq<char>|
        m1.contains_key(p) && #[trigger] encode_utf8(p) == k by {
        if k == encode_utf8(path) {
            assert(m1.contains_key(path) && encode_utf8(path) == k);
        } else {
            let p = choose|p: Seq<char>| m.contains_key(p) && #[trigger] encode_utf8(p) == k;
            assert(p != path);
            assert(m1.contains_key(p) && encode_utf8(p) == k);
        }
    }
}

/// Law: re-inserting the same (path, asset) pair is idempotent.  The
/// store, the tree entries, and the tree key history after two identical
/// insertions equal those after one — and with them the root hash and the
/// published root, which are functions of history and entries.
pub proof fn lemma_insert_idempotent(
    m: Map<Seq<char>, AssetView>,
    e: Map<Seq<u8>, Seq<u8>>,
    h: Seq<Seq<u8>>,
    path: Seq<char>,
    a: AssetView,
)
    ensures
        store_after(store_after(m, path, a), path, a) =~= store_after(m, path, a),
        entries_after(entries_after(e, path, a.bytes), path, a.bytes) =~= entries_after(
            e,
            path,
            a.bytes,
        ),
        history_after(
            history_after(h, e, path, a.bytes),
            entries_after(e, path, a.bytes),
            path,
            a.bytes,
        ) =~= history_after(h, e, path, a.bytes),
{
}

/// Law: inserting an asset whose final path segment is "index.html" binds
/// both the literal path and the parent directory path (with trailing
/// separator) to that asset, with independent tree leaves holding the same
/// digest.
pub proof fn lemma_alias_insert(
    m: Map<Seq<char>, AssetView>,
    e: Map<Seq<u8>, Seq<u8>>,
    path: Seq<char>,
    a: AssetView,
)
    requires
        is_aliased(path),
    ensures
        store_after(m, path, a)[path] == a,
        store_after(m, path, a)[alias_of(path)] == a,
        entries_after(e, path, a.bytes)[encode_utf8(path)] == sha256_of(a.bytes),
        entries_after(e, path, a.bytes)[encode_utf8(alias_of(path))] == sha256_of(a.bytes),
{
    reveal_strlit("index.html");
    lemma_suffix_after_last_len(path, '/');
    assert(path.len() >= 10);
    assert(alias_of(path).len() < path.len());
    lemma_encode_injective_contrapositive(alias_of(path), path);
}

} // verus!
