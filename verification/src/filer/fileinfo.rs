//! The per-file record of the metadata cache: a modification time as last
//! observed, a content classification, and any number of named content
//! digests. Setting a new modification time invalidates the derived fields,
//! because the file's content may have changed.

use vstd::prelude::*;
use crate::image_type::ImageType;

verus! {

/// A modification time, in nanoseconds since the epoch.
pub type Timestamp = u128;

/// What a key-value list of digests means: whether `k` is among the keys.
pub open spec fn assoc_contains(s: Seq<(String, String)>, k: Seq<char>) -> bool {
    exists|i: int| 0 <= i < s.len() && s[i].0@ == k
}

/// The value stored under `k`; meaningful only when the keys are distinct
/// and `k` is among them.
pub open spec fn assoc_value(s: Seq<(String, String)>, k: Seq<char>) -> Seq<char> {
    let i = choose|i: int| 0 <= i < s.len() && s[i].0@ == k;
    s[i].1@
}

/// The mapping a key-value list stands for.
pub open spec fn assoc_map(s: Seq<(String, String)>) -> Map<Seq<char>, Seq<char>> {
    Map::new(|k: Seq<char>| assoc_contains(s, k), |k: Seq<char>| assoc_value(s, k))
}

/// The keys of `s` are pairwise distinct.
pub open spec fn assoc_distinct(s: Seq<(String, String)>) -> bool {
    forall|i: int, j: int| 0 <= i < j < s.len() ==> s[i].0@ != s[j].0@
}

/// The mathematical value of a [`FileInfo`].
#[verifier::ext_equal]
pub struct FileInfoView {
    pub mod_time: Option<Timestamp>,
    pub image_type: Option<ImageType>,
    pub hashes: Map<Seq<char>, Seq<char>>,
}

/// The record of a fresh, never-populated file.
pub open spec fn empty_record() -> FileInfoView {
    FileInfoView { mod_time: None, image_type: None, hashes: Map::empty() }
}

/// One file's cached metadata. The derived fields (classification and
/// digests) are only ever valid for the recorded modification time:
/// `set_mod_time` clears both.
#[derive(Debug)]
pub struct FileInfo {
    mod_time: Option<Timestamp>,
    image_type: Option<ImageType>,
    hashes: Vec<(String, String)>,
}

impl View for FileInfo {
    type V = FileInfoView;

    closed spec fn view(&self) -> FileInfoView {
        FileInfoView {
            mod_time: self.mod_time,
            image_type: self.image_type,
            hashes: assoc_map(self.hashes@),
        }
    }
}

impl Default for FileInfo {
    /// A record with nothing known yet.
    fn default() -> (r: FileInfo)
        ensures
            r.inv(),
            r@ =~= empty_record(),
    {
        FileInfo { mod_time: None, image_type: None, hashes: Vec::new() }
    }
}

impl FileInfo {
    /// The digest keys are stored without repetition.
    pub closed spec fn inv(&self) -> bool {
        assoc_distinct(self.hashes@)
    }

    /// The modification time as last observed, if any.
    pub fn mod_time(&self) -> (r: Option<Timestamp>)
        ensures
            r == self@.mod_time,
    {
        self.mod_time
    }

    /// Sets the modification time, clearing out any other file data
    /// (because the content may have changed).
    pub fn set_mod_time(&mut self, time: Timestamp)
        ensures
            final(self).inv(),
            final(self)@ =~= (FileInfoView {
                mod_time: Some(time),
                image_type: None,
                hashes: Map::empty(),
            }),
    {
        self.mod_time = Some(time);
        self.image_type = None;
        self.hashes.clear();
        proof {
            assert forall|k: Seq<char>| !assoc_contains(self.hashes@, k) by {}
        }
    }

    /// The recorded content classification, if any.
    pub fn image_type(&self) -> (r: Option<ImageType>)
        ensures
            r == self@.image_type,
    {
        self.image_type
    }

    /// Records the content classification; digests are an independent
    /// derived fact and stay untouched.
    pub fn set_image_type(&mut self, image_type: ImageType)
        requires
            old(self).inv(),
        ensures
            final(self).inv(),
            final(self)@ =~= (FileInfoView { image_type: Some(image_type), ..old(self)@ }),
    {
        self.image_type = Some(image_type);
    }

    /// Records the digest computed by the named algorithm, replacing any
    /// earlier value for that algorithm.
    pub fn add_hash(&mut self, hash_name: &str, hash_value: &str)
        requires
            old(self).inv(),
        ensures
            final(self).inv(),
            final(self)@ =~= (FileInfoView {
                hashes: old(self)@.hashes.insert(hash_name@, hash_value@),
                ..old(self)@
            }),
    {
        let n = self.hashes.len();
        let mut i: usize = 0;
        while i < n
            invariant
                n == self.hashes@.len(),
                old(self).inv(),
                *self == *old(self),
                forall|j: int| 0 <= j < i ==> self.hashes@[j].0@ != hash_name@,
            decreases n - i,
        {
            if string_eq_str(&self.hashes[i].0, hash_name) {
                self.hashes[i].1 = hash_value.to_owned();
                proof {
                    let s0 = old(self).hashes@;
                    let s1 = self.hashes@;
                    assert forall|k: Seq<char>| assoc_contains(s1, k) <==> assoc_contains(
                        s0,
                        k,
                    ) by {
                        if assoc_contains(s0, k) {
                            let w = choose|w: int| 0 <= w < s0.len() && s0[w].0@ == k;
                            assert(s1[w].0@ == k);
                        }
                        if assoc_contains(s1, k) {
                            let w = choose|w: int| 0 <= w < s1.len() && s1[w].0@ == k;
                            assert(s0[w].0@ == k);
                        }
                    }
                    assert forall|k: Seq<char>| assoc_contains(s1, k) implies assoc_value(s1, k)
                        == assoc_map(s0).insert(hash_name@, hash_value@)[k] by {
                        let w = choose|w: int| 0 <= w < s1.len() && s1[w].0@ == k;
                        if k == hash_name@ {
                            assert(s1[i as int].0@ == k);
                            assert(w == i);
                        } else {
                            assert(s0[w].0@ == k);
                            let w0 = choose|v: int| 0 <= v < s0.len() && s0[v].0@ == k;
                            assert(w0 == w);
                        }
                    }
                    assert(assoc_map(s1) =~= assoc_map(s0).insert(hash_name@, hash_value@));
                }
                return ;
            }
            i = i + 1;
        }
        self.hashes.push((hash_name.to_owned(), hash_value.to_owned()));
        proof {
            let s0 = old(self).hashes@;
            let s1 = self.hashes@;
            assert forall|k: Seq<char>| assoc_contains(s1, k) implies (assoc_contains(s0, k) || k
                == hash_name@) by {
                let w = choose|w: int| 0 <= w < s1.len() && s1[w].0@ == k;
                if w < s0.len() {
                    assert(s0[w].0@ == k);
                }
            }
            assert forall|k: Seq<char>| assoc_contains(s0, k) implies assoc_contains(s1, k) by {
                let w = choose|w: int| 0 <= w < s0.len() && s0[w].0@ == k;
                assert(s1[w].0@ == k);
            }
            assert(assoc_contains(s1, hash_name@)) by {
                assert(s1[s1.len() - 1].0@ == hash_name@);
            }
            assert forall|k: Seq<char>| assoc_contains(s1, k) implies assoc_value(s1, k)
                == assoc_map(s0).insert(hash_name@, hash_value@)[k] by {
                let w = choose|w: int| 0 <= w < s1.len() && s1[w].0@ == k;
                if k == hash_name@ {
                    assert(w == s1.len() - 1);
                } else {
                    assert(w < s0.len());
                    assert(s0[w].0@ == k);
                    let w0 = choose|v: int| 0 <= v < s0.len() && s0[v].0@ == k;
                    assert(w0 == w);
                }
            }
            assert(assoc_map(s1) =~= assoc_map(s0).insert(hash_name@, hash_value@));
        }
    }

    /// Whether a digest is recorded under the named algorithm.
    pub fn contains_hash(&self, hash_name: &str) -> (r: bool)
        requires
            self.inv(),
        ensures
            r == self@.hashes.contains_key(hash_name@),
    {
        let n = self.hashes.len();
        let mut i: usize = 0;
        while i < n
            invariant
                n == self.hashes@.len(),
                forall|j: int| 0 <= j < i ==> self.hashes@[j].0@ != hash_name@,
            decreases n - i,
        {
            if string_eq_str(&self.hashes[i].0, hash_name) {
                return true;
            }
            i = i + 1;
        }
        false
    }

    /// The digest recorded under the named algorithm, if any.
    pub fn hash_value(&self, hash_name: &str) -> (r: Option<String>)
        requires
            self.inv(),
        ensures
            match r {
                Some(v) => self@.hashes.contains_key(hash_name@) && v@ == self@.hashes[hash_name@],
                None => !self@.hashes.contains_key(hash_name@),
            },
    {
        let n = self.hashes.len();
        let mut i: usize = 0;
        while i < n
            invariant
                n == self.hashes@.len(),
                self.inv(),
                forall|j: int| 0 <= j < i ==> self.hashes@[j].0@ != hash_name@,
            decreases n - i,
        {
            if string_eq_str(&self.hashes[i].0, hash_name) {
                let v = self.hashes[i].1.clone();
                proof {
                    let s = self.hashes@;
                    let w = choose|w: int| 0 <= w < s.len() && s[w].0@ == hash_name@;
                    assert(s[i as int].0@ == hash_name@);
                    assert(w == i);
                }
                return Some(v);
            }
            i = i + 1;
        }
        None
    }
}

/// String against string-slice comparison by contents.
pub fn string_eq_str(a: &String, b: &str) -> (r: bool)
    ensures
        r == (a@ == b@),
{
    let owned = b.to_owned();
    *a == owned
}

} // verus!
