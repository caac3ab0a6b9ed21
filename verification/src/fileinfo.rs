//! The persistable snapshot of the cache: one record per file path with
//! its named digests, as a later process invocation would reload them.
//! The cache itself lives in [`crate::filer`]; these types are the plain
//! form a snapshot is written from and read into.

use vstd::prelude::*;
use crate::keyed::{keyed_contains, keyed_distinct, keyed_map, lemma_keyed_at, lemma_keyed_push,
    lemma_keyed_update};

verus! {

/// The mathematical value of a snapshot record: its path and its digests
/// by algorithm name.
#[verifier::ext_equal]
pub struct FileInfoView {
    pub path: Seq<char>,
    pub hashes: Map<Seq<char>, Seq<char>>,
}

/// One file's snapshot record: the path it was observed under and the
/// digests recorded for it.
#[derive(Debug)]
pub struct FileInfo {
    path: String,
    hashes: Vec<(String, String)>,
}

impl View for FileInfo {
    type V = FileInfoView;

    closed spec fn view(&self) -> FileInfoView {
        FileInfoView { path: self.path@, hashes: keyed_map(self.hashes@) }
    }
}

impl FileInfo {
    /// The digest names are stored without repetition.
    pub closed spec fn inv(&self) -> bool {
        keyed_distinct(self.hashes@)
    }

    /// A record for `path` with no digests yet.
    pub fn new(path: String) -> (r: FileInfo)
        ensures
            r.inv(),
            r@.path == path@,
            r@.hashes =~= Map::<Seq<char>, Seq<char>>::empty(),
    {
        let hashes = Vec::new();
        let r = FileInfo { path, hashes };
        proof {
            assert forall|k: Seq<char>| !keyed_contains(r.hashes@, k) by {}
        }
        r
    }

    /// Whether a digest is recorded under the named algorithm.
    pub fn contains_hash(&self, hash_name: &str) -> (r: bool)
        requires
            self.inv(),
        ensures
            r == self@.hashes.contains_key(hash_name@),
    {
        let n = self.hashes.len();
        let mut i: usize = 0;
        while i < n
            invariant
                n == self.hashes@.len(),
                self.inv(),
                forall|j: int| 0 <= j < i ==> (#[trigger] self.hashes@[j]).0@ != hash_name@,
            decreases n - i,
        {
            if crate::filer::fileinfo::string_eq_str(&self.hashes[i].0, hash_name) {
                proof {
                    lemma_keyed_at(self.hashes@, i as int);
                }
                return true;
            }
            i = i + 1;
        }
        false
    }

    /// Records a digest under a fresh algorithm name. A name already
    /// recorded is a caller error: this snapshot format keeps the first
    /// value of each name.
    pub fn add_hash(&mut self, hash_name: String, hash_value: String)
        requires
            old(self).inv(),
            !old(self)@.hashes.contains_key(hash_name@),
        ensures
            final(self).inv(),
            final(self)@.path == old(self)@.path,
            final(self)@.hashes =~= old(self)@.hashes.insert(hash_name@, hash_value@),
    {
        proof {
            lemma_keyed_push(self.hashes@, (hash_name, hash_value));
        }
        self.hashes.push((hash_name, hash_value));
    }
}

/// The snapshot itself: one record per distinct path.
#[derive(Debug)]
pub struct Files {
    files: Vec<(String, FileInfo)>,
}

impl View for Files {
    type V = Map<Seq<char>, FileInfoView>;

    closed spec fn view(&self) -> Map<Seq<char>, FileInfoView> {
        keyed_map(self.files@)
    }
}

impl Default for Files {
    /// An empty snapshot.
    fn default() -> (r: Files)
        ensures
            r.inv(),
            r@ =~= Map::<Seq<char>, FileInfoView>::empty(),
    {
        let r = Files { files: Vec::new() };
        proof {
            assert forall|k: Seq<char>| !keyed_contains(r.files@, k) by {}
        }
        r
    }
}

impl Files {
    /// Each record is stored under its own path, paths without
    /// repetition.
    pub closed spec fn inv(&self) -> bool {
        &&& keyed_distinct(self.files@)
        &&& forall|i: int|
            0 <= i < self.files@.len() ==> {
                &&& (#[trigger] self.files@[i]).1.inv()
                &&& self.files@[i].0@ == self.files@[i].1@.path
            }
    }

    /// Stores a record under its path, replacing any record already held
    /// for that path.
    pub fn add_file(&mut self, fi: FileInfo)
        requires
            old(self).inv(),
            fi.inv(),
        ensures
            final(self).inv(),
            final(self)@ =~= old(self)@.insert(fi@.path, fi@),
    {
        let n = self.files.len();
        let mut i: usize = 0;
        while i < n
            invariant
                n == self.files@.len(),
                self.inv(),
                fi.inv(),
                *self == *old(self),
                forall|j: int| 0 <= j < i ==> (#[trigger] self.files@[j]).0@ != fi@.path,
            decreases n - i,
        {
            let hit = {
                let key = fi.path_str();
                crate::filer::fileinfo::string_eq_str(&self.files[i].0, key)
            };
            if hit {
                proof {
                    lemma_keyed_update(
                        self.files@,
                        i as int,
                        (self.files@[i as int].0, fi),
                    );
                }
                self.files[i].1 = fi;
                return ;
            }
            i = i + 1;
        }
        let key = fi.path_string();
        proof {
            lemma_keyed_push(self.files@, (key, fi));
        }
        self.files.push((key, fi));
    }
}

impl FileInfo {
    /// The path this record was observed under.
    pub fn path_str(&self) -> (r: &str)
        ensures
            r@ == self@.path,
    {
        self.path.as_str()
    }

    /// The path this record was observed under, as an owned string.
    pub fn path_string(&self) -> (r: String)
        ensures
            r@ == self@.path,
    {
        self.path.clone()
    }
}

} // verus!
