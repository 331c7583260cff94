//! Content-addressed blobs and the store that holds them.

use vstd::prelude::*;
use vstd::hash_map::StringHashMap;

use crate::hashing::{content_hash, sha256_hex, is_hash_text};

verus! {

/// A blob together with its name, the lower-case hex SHA-256 of its bytes.
/// Its view is the bytes; its name is always `content_hash` of them.
pub struct Blob {
    hash: String,
    data: Vec<u8>,
}

impl View for Blob {
    type V = Seq<u8>;

    closed spec fn view(&self) -> Seq<u8> {
        self.data@
    }
}

impl Blob {
    #[verifier::type_invariant]
    spec fn named_by_content(self) -> bool {
        &&& self.hash@ == content_hash(self.data@)
        &&& is_hash_text(self.hash@)
    }

    /// Names `data` by its content.
    pub fn new(data: Vec<u8>) -> (blob: Blob)
        ensures
            blob@ == data@,
    {
        let hash = sha256_hex(data.as_slice());
        Blob { hash, data }
    }

    /// Accepts `data` under the name `hash` only when `hash` is its content hash.
    pub fn with_hash(hash: &str, data: Vec<u8>) -> (res: Option<Blob>)
        ensures
            res is Some <==> content_hash(data@) == hash@,
            res matches Some(blob) ==> blob@ == data@,
    {
        let computed = sha256_hex(data.as_slice());
        let expected = hash.to_owned();
        if computed == expected {
            Some(Blob { hash: computed, data })
        } else {
            None
        }
    }

    /// The blob's name.
    pub fn hash(&self) -> (res: &String)
        ensures
            res@ == content_hash(self@),
            is_hash_text(res@),
    {
        proof {
            use_type_invariant(self);
        }
        &self.hash
    }

    /// The blob's bytes.
    pub fn data(&self) -> (res: &Vec<u8>)
        ensures
            res@ == self@,
    {
        &self.data
    }

    /// The name and the bytes.
    pub fn into_parts(self) -> (res: (String, Vec<u8>))
        ensures
            res.0@ == content_hash(self@),
            is_hash_text(res.0@),
            res.1@ == self@,
    {
        proof {
            use_type_invariant(&self);
        }
        (self.hash, self.data)
    }
}

/// `keys` lists the members of `dom`, each once.
pub open spec fn lists_keys(keys: Seq<Seq<char>>, dom: Set<Seq<char>>) -> bool {
    &&& keys.no_duplicates()
    &&& forall|i: int| 0 <= i < keys.len() ==> dom.contains(#[trigger] keys[i])
    &&& forall|k: Seq<char>| #[trigger] dom.contains(k) ==> keys.contains(k)
}

/// Every entry is stored under the content hash of its bytes.
pub open spec fn content_addressed(m: Map<Seq<char>, Seq<u8>>) -> bool {
    forall|k: Seq<char>| #[trigger] m.contains_key(k) ==> k == content_hash(m[k])
}

/// The views of a list of strings.
pub open spec fn string_views(v: Seq<String>) -> Seq<Seq<char>> {
    v.map_values(|s: String| s@)
}

/// A map from blob name to blob bytes, in which every name is the content
/// hash of its bytes.
pub struct BlobStore {
    blobs: StringHashMap<Vec<u8>>,
    names: Vec<String>,
}

impl View for BlobStore {
    type V = Map<Seq<char>, Seq<u8>>;

    closed spec fn view(&self) -> Map<Seq<char>, Seq<u8>> {
        self.blobs@.map_values(|v: Vec<u8>| v@)
    }
}

impl BlobStore {
    /// The store's invariant: content addressing, and `names` lists its keys.
    pub closed spec fn wf(&self) -> bool {
        &&& forall|k: Seq<char>| #[trigger] self.blobs@.contains_key(k) ==> k == content_hash(
            self.blobs@[k]@,
        )
        &&& forall|k: Seq<char>| #[trigger] self.blobs@.contains_key(k) ==> is_hash_text(k)
        &&& lists_keys(string_views(self.names@), self.blobs@.dom())
    }

    /// An empty store.
    pub fn new() -> (store: BlobStore)
        ensures
            store.wf(),
            store@ == Map::<Seq<char>, Seq<u8>>::empty(),
    {
        let store = BlobStore { blobs: StringHashMap::new(), names: Vec::new() };
        assert(store@ =~= Map::<Seq<char>, Seq<u8>>::empty());
        assert(string_views(store.names@) =~= Seq::<Seq<char>>::empty());
        store
    }

    /// Whether a blob is stored under `hash`.
    pub fn contains(&self, hash: &str) -> (res: bool)
        requires
            self.wf(),
        ensures
            res == self@.contains_key(hash@),
    {
        self.blobs.contains_key(hash)
    }

    /// A copy of the bytes stored under `hash`.
    pub fn get(&self, hash: &str) -> (res: Option<Vec<u8>>)
        requires
            self.wf(),
        ensures
            res is Some <==> self@.contains_key(hash@),
            res matches Some(v) ==> v@ == self@[hash@] && content_hash(v@) == hash@,
    {
        match self.blobs.get(hash) {
            Some(v) => {
                let copy = v.clone();
                assert(copy@ =~= v@);
                Some(copy)
            },
            None => None,
        }
    }

    /// Stores `blob` under its name (replacing what was there, which is the same bytes).
    pub fn insert(&mut self, blob: Blob)
        requires
            old(self).wf(),
        ensures
            final(self).wf(),
            final(self)@ == old(self)@.insert(content_hash(blob@), blob@),
    {
        let (hash, data) = blob.into_parts();
        let ghost old_names = string_views(self.names@);
        if !self.blobs.contains_key(hash.as_str()) {
            self.names.push(hash.clone());
            proof {
                assert(string_views(self.names@) =~= old_names.push(hash@));
                assert forall|k: Seq<char>| #[trigger] self.blobs@.insert(hash@, data).dom().contains(k)
                    implies string_views(self.names@).contains(k) by {
                    if k == hash@ {
                        assert(string_views(self.names@)[old_names.len() as int] == k);
                    } else {
                        assert(old_names.contains(k));
                        let i = choose|i: int| 0 <= i < old_names.len() && old_names[i] == k;
                        assert(string_views(self.names@)[i] == k);
                    }
                }
            }
        }
        self.blobs.insert(hash, data);
        assert(self@ =~= old(self)@.insert(content_hash(blob@), blob@));
    }

    /// The names of all stored blobs, each once.
    pub fn hashes(&self) -> (res: Vec<String>)
        requires
            self.wf(),
        ensures
            lists_keys(string_views(res@), self@.dom()),
            forall|i: int| 0 <= i < res@.len() ==> is_hash_text(#[trigger] res@[i]@),
    {
        let mut res: Vec<String> = Vec::new();
        let mut i: usize = 0;
        while i < self.names.len()
            invariant
                self.wf(),
                0 <= i <= self.names@.len(),
                string_views(res@) =~= string_views(self.names@).subrange(0, i as int),
            decreases self.names@.len() - i,
        {
            let name = self.names[i].clone();
            proof {
                assert(string_views(res@.push(name)) =~= string_views(res@).push(name@));
            }
            res.push(name);
            i = i + 1;
        }
        proof {
            assert(string_views(res@) =~= string_views(self.names@));
            assert forall|i: int| 0 <= i < res@.len() implies is_hash_text(#[trigger] res@[i]@) by {
                assert(string_views(res@)[i] == res@[i]@);
                assert(self.blobs@.dom().contains(string_views(self.names@)[i]));
            }
        }
        res
    }

    /// Takes in a blob read back from disk under the file name `name`: it is
    /// stored only when `name` is the content hash of `bytes`.
    pub fn take_loaded(&mut self, name: &str, bytes: Vec<u8>) -> (taken: bool)
        requires
            old(self).wf(),
        ensures
            final(self).wf(),
            taken == (content_hash(bytes@) == name@),
            taken ==> final(self)@ == old(self)@.insert(name@, bytes@),
            !taken ==> final(self)@ == old(self)@,
    {
        match Blob::with_hash(name, bytes) {
            Some(blob) => {
                self.insert(blob);
                true
            },
            None => false,
        }
    }

    /// The number of stored blobs.
    pub fn len(&self) -> (res: usize)
        requires
            self.wf(),
        ensures
            res == self@.len(),
    {
        assert(self@.dom() =~= self.blobs@.dom());
        self.blobs.len()
    }
}

/// A well-formed store is content-addressed: every name is the content hash
/// of the bytes stored under it, and is 64 lower-case hex digits.
pub proof fn lemma_store_content_addressed(store: &BlobStore)
    requires
        store.wf(),
    ensures
        content_addressed(store@),
        forall|k: Seq<char>| #[trigger] store@.contains_key(k) ==> is_hash_text(k),
{
}

/// Reading a name after storing a blob gives that blob's bytes, and every
/// other name keeps what it had.
pub proof fn law_insert_then_get(m: Map<Seq<char>, Seq<u8>>, data: Seq<u8>, other: Seq<char>)
    ensures
        m.insert(content_hash(data), data).contains_key(content_hash(data)),
        m.insert(content_hash(data), data)[content_hash(data)] == data,
        other != content_hash(data) ==> (m.insert(content_hash(data), data).contains_key(other)
            == m.contains_key(other)),
        other != content_hash(data) && m.contains_key(other) ==> m.insert(content_hash(data), data)[other] == m[other],
{
}

} // verus!
