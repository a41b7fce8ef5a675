//! Assets and the asset store: a mapping from normalized path strings to
//! assets, viewed as a `Map` from character sequences to asset contents.

use vstd::prelude::*;

use crate::text::str_eq;

verus! {

/// The mathematical content of an asset: its header pairs and its bytes.
#[verifier::ext_equal]
pub struct AssetView {
    pub headers: Seq<(Seq<char>, Seq<char>)>,
    pub bytes: Seq<u8>,
}

/// An asset to be served via HTTP requests.
pub struct Asset {
    /// HTTP headers to be served with this asset.
    ///
    /// Note: This is typically used for headers that are fairly specific to
    /// this asset.  Headers that are common, such as certification headers
    /// or mime type headers that can be derived from the path, are added
    /// dynamically.
    pub headers: Vec<(String, String)>,
    /// The HTTP body when this asset is served.
    pub bytes: Vec<u8>,
}

impl View for Asset {
    type V = AssetView;

    open spec fn view(&self) -> AssetView {
        AssetView { headers: self.headers.deep_view(), bytes: self.bytes@ }
    }
}

impl Asset {
    /// Creates a new asset with the given bytes in the HTTP body.
    pub fn new(bytes: Vec<u8>) -> (r: Self)
        ensures
            r@.headers =~= Seq::<(Seq<char>, Seq<char>)>::empty(),
            r@.bytes == bytes@,
    {
        let r = Self { headers: Vec::new(), bytes };
        proof {
            assert(r@.headers =~= Seq::<(Seq<char>, Seq<char>)>::empty());
        }
        r
    }

    /// Adds the given header to the given asset.
    pub fn with_header(self, key: String, val: String) -> (r: Self)
        ensures
            r@.headers =~= self@.headers.push((key@, val@)),
            r@.bytes == self@.bytes,
    {
        let ghost orig = self@;
        let mut r = self;
        r.headers.push((key, val));
        proof {
            assert(r@.headers =~= orig.headers.push((key@, val@)));
        }
        r
    }

    /// An element-for-element copy of this asset.
    pub fn duplicate(&self) -> (r: Self)
        ensures
            r@ == self@,
    {
        let mut headers: Vec<(String, String)> = Vec::new();
        let mut i: usize = 0;
        while i < self.headers.len()
            invariant
                i <= self.headers.len(),
                headers.len() == i,
                forall|j: int|
                    0 <= j < i ==> headers@[j].0@ == self.headers@[j].0@ && headers@[j].1@
                        == self.headers@[j].1@,
            decreases self.headers.len() - i,
        {
            let pair = &self.headers[i];
            headers.push((pair.0.clone(), pair.1.clone()));
            i += 1;
        }
        let bytes = copy_bytes(&self.bytes);
        let r = Asset { headers, bytes };
        proof {
            assert(r@.headers =~= self@.headers);
            assert(r@ =~= self@);
        }
        r
    }
}

/// An element-for-element copy of a byte vector.
pub fn copy_bytes(v: &Vec<u8>) -> (r: Vec<u8>)
    ensures
        r@ == v@,
{
    let mut r: Vec<u8> = Vec::new();
    let mut i: usize = 0;
    while i < v.len()
        invariant
            i <= v.len(),
            r@ =~= v@.subrange(0, i as int),
        decreases v.len() - i,
    {
        r.push(v[i]);
        i += 1;
    }
    proof {
        assert(r@ =~= v@);
    }
    r
}

/// The mapping that a sequence of (path, asset) entries denotes: later
/// entries override earlier ones with the same path.
pub open spec fn store_map(s: Seq<(String, Asset)>) -> Map<Seq<char>, AssetView>
    decreases s.len(),
{
    if s.len() == 0 {
        Map::empty()
    } else {
        store_map(s.drop_last()).insert(s.last().0@, s.last().1@)
    }
}

proof fn lemma_store_map_found(s: Seq<(String, Asset)>, i: int, p: Seq<char>)
    requires
        0 <= i < s.len(),
        s[i].0@ == p,
        forall|j: int| i < j < s.len() ==> s[j].0@ != p,
    ensures
        store_map(s).contains_key(p),
        store_map(s)[p] == s[i].1@,
    decreases s.len(),
{
    if i < s.len() - 1 {
        lemma_store_map_found(s.drop_last(), i, p);
    }
}

proof fn lemma_store_map_absent(s: Seq<(String, Asset)>, p: Seq<char>)
    requires
        forall|j: int| 0 <= j < s.len() ==> s[j].0@ != p,
    ensures
        !store_map(s).contains_key(p),
    decreases s.len(),
{
    if s.len() > 0 {
        lemma_store_map_absent(s.drop_last(), p);
    }
}

/// A database of assets indexed by the path to the actual file, e.g.
/// `/index.html` is a key but `/` is not, although an insertion of the
/// former also materializes the latter (see the aliasing rule of
/// `insert_asset`).
pub struct Assets {
    /// The insertion log: later entries override earlier ones.
    pub entries: Vec<(String, Asset)>,
}

impl View for Assets {
    type V = Map<Seq<char>, AssetView>;

    open spec fn view(&self) -> Map<Seq<char>, AssetView> {
        store_map(self.entries@)
    }
}

impl Assets {
    /// Creates an empty assets database.
    pub fn new() -> (r: Self)
        ensures
            r@ =~= Map::<Seq<char>, AssetView>::empty(),
    {
        Assets { entries: Vec::new() }
    }

    /// Adds an asset to the assets database, replacing any asset already
    /// stored at the same path.
    pub fn insert(&mut self, path: String, asset: Asset)
        ensures
            final (self)@ == old(self)@.insert(path@, asset@),
    {
        let ghost old_entries = self.entries@;
        self.entries.push((path, asset));
        proof {
            assert(self.entries@.drop_last() =~= old_entries);
        }
    }

    /// Gets an asset, using the actual asset path, e.g. `/foo/index.html`
    /// not `/foo/`.
    pub fn get(&self, path: &str) -> (r: Option<&Asset>)
        ensures
            match r {
                Some(a) => self@.contains_key(path@) && a@ == self@[path@],
                None => !self@.contains_key(path@),
            },
    {
        let n = self.entries.len();
        let mut i: usize = n;
        while i > 0
            invariant
                i <= n,
                n == self.entries@.len(),
                forall|j: int| i <= j < n ==> self.entries@[j].0@ != path@,
            decreases i,
        {
            i -= 1;
            if str_eq(self.entries[i].0.as_str(), path) {
                proof {
                    lemma_store_map_found(self.entries@, i as int, path@);
                }
                return Some(&self.entries[i].1);
            }
        }
        proof {
            lemma_store_map_absent(self.entries@, path@);
        }
        None
    }
}

} // verus!
