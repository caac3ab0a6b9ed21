//! The path-keyed metadata cache: one [`FileInfo`] record per distinct file
//! path ever registered. Registration is idempotent, no operation ever
//! fails, records are never deleted, and iteration order is the stable
//! order of first registration.

use vstd::prelude::*;
use crate::filer::fileinfo::{empty_record, FileInfo, FileInfoView, Timestamp};
use crate::image_type::ImageType;
use crate::keyed::{keyed_contains, keyed_distinct, keyed_map, lemma_keyed_at, lemma_keyed_push,
    lemma_keyed_update};

verus! {

/// The mathematical value of a cache: its paths in registration order, and
/// what record each path carries.
#[verifier::ext_equal]
pub struct CacheView {
    pub paths: Seq<Seq<char>>,
    pub map: Map<Seq<char>, FileInfoView>,
}

impl CacheView {
    /// An empty cache.
    pub open spec fn empty() -> CacheView {
        CacheView { paths: Seq::empty(), map: Map::empty() }
    }

    /// The paths listed are exactly the keys of the map, without repetition.
    pub open spec fn wf(self) -> bool {
        &&& forall|i: int, j: int| 0 <= i < j < self.paths.len() ==> self.paths[i] != self.paths[j]
        &&& forall|i: int| 0 <= i < self.paths.len() ==> self.map.contains_key(#[trigger] self.paths[i])
        &&& forall|k: Seq<char>| self.map.contains_key(k) ==> self.paths.contains(k)
    }
}

/// The record under `p`, or the fresh record when `p` is not yet known.
pub open spec fn record_of(v: CacheView, p: Seq<char>) -> FileInfoView {
    if v.map.contains_key(p) {
        v.map[p]
    } else {
        empty_record()
    }
}

/// What registering `p` does: nothing when `p` is known, else a fresh
/// record under `p` at the end of the order.
pub open spec fn spec_register(v: CacheView, p: Seq<char>) -> CacheView {
    if v.map.contains_key(p) {
        v
    } else {
        CacheView { paths: v.paths.push(p), map: v.map.insert(p, empty_record()) }
    }
}

/// What setting the modification time does: registers `p` if needed and
/// replaces its record by one holding only the new time — the derived
/// fields are invalidated together.
pub open spec fn spec_set_mod_time(v: CacheView, p: Seq<char>, t: Timestamp) -> CacheView {
    let v1 = spec_register(v, p);
    CacheView {
        paths: v1.paths,
        map: v1.map.insert(
            p,
            FileInfoView { mod_time: Some(t), image_type: None, hashes: Map::empty() },
        ),
    }
}

/// What recording a classification does: registers `p` if needed and sets
/// the classification, leaving time and digests untouched.
pub open spec fn spec_set_image_type(v: CacheView, p: Seq<char>, t: ImageType) -> CacheView {
    let v1 = spec_register(v, p);
    CacheView {
        paths: v1.paths,
        map: v1.map.insert(p, FileInfoView { image_type: Some(t), ..record_of(v, p) }),
    }
}

/// What recording a digest does: registers `p` if needed and stores the
/// value under the algorithm name, leaving the other fields untouched.
pub open spec fn spec_set_hash(
    v: CacheView,
    p: Seq<char>,
    name: Seq<char>,
    value: Seq<char>,
) -> CacheView {
    let v1 = spec_register(v, p);
    CacheView {
        paths: v1.paths,
        map: v1.map.insert(
            p,
            FileInfoView { hashes: record_of(v, p).hashes.insert(name, value), ..record_of(v, p) },
        ),
    }
}

/// The digest recorded for `p` under `name`, if any.
pub open spec fn spec_hash_for_name(v: CacheView, p: Seq<char>, name: Seq<char>) -> Option<
    Seq<char>,
> {
    if v.map.contains_key(p) && v.map[p].hashes.contains_key(name) {
        Some(v.map[p].hashes[name])
    } else {
        None
    }
}

/// The in-memory realization of the metadata cache.
#[derive(Debug)]
pub struct Base {
    files: Vec<(String, FileInfo)>,
}

impl View for Base {
    type V = CacheView;

    closed spec fn view(&self) -> CacheView {
        CacheView {
            paths: Seq::new(self.files@.len(), |i: int| self.files@[i].0@),
            map: keyed_map(self.files@),
        }
    }
}

impl Default for Base {
    /// The empty cache.
    fn default() -> (r: Base)
        ensures
            r.inv(),
            r@ =~= CacheView::empty(),
    {
        let r = Base { files: Vec::new() };
        proof {
            assert forall|k: Seq<char>| !keyed_contains(r.files@, k) by {}
        }
        r
    }
}

impl Base {
    /// The stored records are keyed without repetition and each is itself
    /// well formed.
    pub closed spec fn inv(&self) -> bool {
        &&& keyed_distinct(self.files@)
        &&& forall|i: int| 0 <= i < self.files@.len() ==> (#[trigger] self.files@[i]).1.inv()
    }

    /// A well-formed cache has a well-formed view.
    pub proof fn lemma_view_wf(&self)
        requires
            self.inv(),
        ensures
            self@.wf(),
    {
        assert forall|i: int| 0 <= i < self@.paths.len() implies self@.map.contains_key(
            #[trigger] self@.paths[i],
        ) by {
            lemma_keyed_at(self.files@, i);
        }
        assert forall|k: Seq<char>| self@.map.contains_key(k) implies self@.paths.contains(k) by {
            let w = choose|w: int| 0 <= w < self.files@.len() && self.files@[w].0@ == k;
            assert(self@.paths[w] == k);
        }
    }

    /// The index at which `path` is stored, if it is known.
    fn find(&self, path: &str) -> (r: Option<usize>)
        requires
            self.inv(),
        ensures
            match r {
                Some(i) => {
                    &&& i < self.files@.len()
                    &&& self.files@[i as int].0@ == path@
                    &&& self@.map.contains_key(path@)
                    &&& self@.map[path@] == self.files@[i as int].1@
                },
                None => !self@.map.contains_key(path@),
            },
    {
        let n = self.files.len();
        let mut i: usize = 0;
        while i < n
            invariant
                self.inv(),
                n == self.files@.len(),
                forall|j: int| 0 <= j < i ==> self.files@[j].0@ != path@,
            decreases n - i,
        {
            if crate::filer::fileinfo::string_eq_str(&self.files[i].0, path) {
                proof {
                    lemma_keyed_at(self.files@, i as int);
                }
                return Some(i);
            }
            i = i + 1;
        }
        proof {
            assert forall|w: int| 0 <= w < self.files@.len() implies self.files@[w].0@
                != path@ by {}
        }
        None
    }

    /// Ensures a record exists for `path`; a later registration of the same
    /// path changes nothing.
    pub fn add_file(&mut self, path: &str)
        requires
            old(self).inv(),
        ensures
            final(self).inv(),
            final(self)@ =~= spec_register(old(self)@, path@),
    {
        match self.find(path) {
            Some(_) => {},
            None => {
                let fi = FileInfo::default();
                self.files.push((path.to_owned(), fi));
                proof {
                    lemma_keyed_push(old(self).files@, self.files@[self.files@.len() - 1]);
                    assert(self@.paths =~= old(self)@.paths.push(path@));
                    assert(self@.map =~= old(self)@.map.insert(path@, empty_record()));
                }
            },
        }
    }

    /// Whether `path` has ever been registered.
    pub fn file_known(&self, path: &str) -> (r: bool)
        requires
            self.inv(),
        ensures
            r == self@.map.contains_key(path@),
    {
        self.find(path).is_some()
    }

    /// The modification time recorded for `path`, if any.
    pub fn mod_time(&self, path: &str) -> (r: Option<Timestamp>)
        requires
            self.inv(),
        ensures
            r == record_of(self@, path@).mod_time,
    {
        match self.find(path) {
            Some(i) => self.files[i].1.mod_time(),
            None => None,
        }
    }

    /// Records the modification time of `path`, registering it if needed;
    /// the classification and digests recorded so far are cleared, because
    /// they were computed under the old time.
    pub fn set_mod_time(&mut self, path: &str, time: Timestamp)
        requires
            old(self).inv(),
        ensures
            final(self).inv(),
            final(self)@ =~= spec_set_mod_time(old(self)@, path@, time),
    {
        match self.find(path) {
            Some(i) => {
                self.files[i].1.set_mod_time(time);
                proof {
                    lemma_keyed_update(old(self).files@, i as int, self.files@[i as int]);
                    assert(self@.paths =~= old(self)@.paths);
                    assert(self@ =~= spec_set_mod_time(old(self)@, path@, time));
                }
            },
            None => {
                let mut fi = FileInfo::default();
                fi.set_mod_time(time);
                self.files.push((path.to_owned(), fi));
                proof {
                    lemma_keyed_push(old(self).files@, self.files@[self.files@.len() - 1]);
                    assert(self@.paths =~= old(self)@.paths.push(path@));
                    assert(self@ =~= spec_set_mod_time(old(self)@, path@, time));
                }
            },
        }
    }

    /// The classification recorded for `path`, if any.
    pub fn image_type(&self, path: &str) -> (r: Option<ImageType>)
        requires
            self.inv(),
        ensures
            r == record_of(self@, path@).image_type,
    {
        match self.find(path) {
            Some(i) => self.files[i].1.image_type(),
            None => None,
        }
    }

    /// Records the classification of `path`, registering it if needed;
    /// digests are untouched.
    pub fn set_image_type(&mut self, path: &str, image_type: ImageType)
        requires
            old(self).inv(),
        ensures
            final(self).inv(),
            final(self)@ =~= spec_set_image_type(old(self)@, path@, image_type),
    {
        match self.find(path) {
            Some(i) => {
                self.files[i].1.set_image_type(image_type);
                proof {
                    lemma_keyed_update(old(self).files@, i as int, self.files@[i as int]);
                    assert(self@.paths =~= old(self)@.paths);
                    assert(self@ =~= spec_set_image_type(old(self)@, path@, image_type));
                }
            },
            None => {
                let mut fi = FileInfo::default();
                fi.set_image_type(image_type);
                self.files.push((path.to_owned(), fi));
                proof {
                    lemma_keyed_push(old(self).files@, self.files@[self.files@.len() - 1]);
                    assert(self@.paths =~= old(self)@.paths.push(path@));
                    assert(self@ =~= spec_set_image_type(old(self)@, path@, image_type));
                }
            },
        }
    }

    /// The digest recorded for `path` under `hash_name`, if any.
    pub fn hash_for_name(&self, path: &str, hash_name: &str) -> (r: Option<String>)
        requires
            self.inv(),
        ensures
            match r {
                Some(v) => spec_hash_for_name(self@, path@, hash_name@) == Some(v@),
                None => spec_hash_for_name(self@, path@, hash_name@) is None,
            },
    {
        match self.find(path) {
            Some(i) => self.files[i].1.hash_value(hash_name),
            None => None,
        }
    }

    /// Whether a digest is recorded for `path` under `hash_name`.
    pub fn contains_hash_for_name(&self, path: &str, hash_name: &str) -> (r: bool)
        requires
            self.inv(),
        ensures
            r == (self@.map.contains_key(path@) && record_of(self@, path@).hashes.contains_key(
                hash_name@,
            )),
    {
        match self.find(path) {
            Some(i) => self.files[i].1.contains_hash(hash_name),
            None => false,
        }
    }

    /// Records a digest for `path` under `hash_name`, registering the path
    /// if needed and replacing any earlier value for that algorithm.
    pub fn set_hash_for_name(&mut self, path: &str, hash_name: &str, value: &str)
        requires
            old(self).inv(),
        ensures
            final(self).inv(),
            final(self)@ =~= spec_set_hash(old(self)@, path@, hash_name@, value@),
    {
        match self.find(path) {
            Some(i) => {
                self.files[i].1.add_hash(hash_name, value);
                proof {
                    lemma_keyed_update(old(self).files@, i as int, self.files@[i as int]);
                    assert(self@.paths =~= old(self)@.paths);
                    assert(self@ =~= spec_set_hash(old(self)@, path@, hash_name@, value@));
                }
            },
            None => {
                let mut fi = FileInfo::default();
                fi.add_hash(hash_name, value);
                self.files.push((path.to_owned(), fi));
                proof {
                    lemma_keyed_push(old(self).files@, self.files@[self.files@.len() - 1]);
                    assert(self@.paths =~= old(self)@.paths.push(path@));
                    assert(self.files@[self.files@.len() - 1].1@.hashes =~= empty_record()
                        .hashes.insert(hash_name@, value@));
                    assert(self@ =~= spec_set_hash(old(self)@, path@, hash_name@, value@));
                }
            },
        }
    }

    /// Every known path, in the stable order of first registration.
    pub fn files_iter(&self) -> (r: Vec<String>)
        requires
            self.inv(),
        ensures
            r@.len() == self@.paths.len(),
            forall|i: int| 0 <= i < r@.len() ==> r@[i]@ == self@.paths[i],
    {
        let n = self.files.len();
        let mut r: Vec<String> = Vec::new();
        let mut i: usize = 0;
        while i < n
            invariant
                n == self.files@.len(),
                r@.len() == i,
                i <= n,
                forall|j: int| 0 <= j < i ==> r@[j]@ == self.files@[j].0@,
            decreases n - i,
        {
            r.push(self.files[i].0.clone());
            i = i + 1;
        }
        r
    }
}

impl crate::filer::FilerTrait for Base {
    open spec fn filer_inv(&self) -> bool {
        self.inv()
    }

    open spec fn cache(&self) -> CacheView {
        self@
    }

    fn add_file(&mut self, path: &str) {
        Base::add_file(self, path)
    }

    fn file_known(&self, path: &str) -> (r: bool) {
        Base::file_known(self, path)
    }

    fn mod_time(&self, path: &str) -> (r: Option<Timestamp>) {
        Base::mod_time(self, path)
    }

    fn set_mod_time(&mut self, path: &str, time: Timestamp) {
        Base::set_mod_time(self, path, time)
    }

    fn image_type(&self, path: &str) -> (r: Option<ImageType>) {
        Base::image_type(self, path)
    }

    fn set_image_type(&mut self, path: &str, image_type: ImageType) {
        Base::set_image_type(self, path, image_type)
    }

    fn hash_for_name(&self, path: &str, hash_name: &str) -> (r: Option<String>) {
        Base::hash_for_name(self, path, hash_name)
    }

    fn contains_hash_for_name(&self, path: &str, hash_name: &str) -> (r: bool) {
        Base::contains_hash_for_name(self, path, hash_name)
    }

    fn set_hash_for_name(&mut self, path: &str, hash_name: &str, value: &str) {
        Base::set_hash_for_name(self, path, hash_name, value)
    }
}

} // verus!
