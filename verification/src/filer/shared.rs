//! The handle behind which policies reach the cache during a scan. It
//! exposes the same operation set as [`Base`] and additionally tracks a
//! dirty flag: whether any mutating operation has happened since the flag
//! was last cleared, so a caller can decide whether persisting the cache is
//! worth while.

use vstd::prelude::*;
use crate::filer::base::{
    record_of, spec_hash_for_name, spec_register, spec_set_hash, spec_set_image_type,
    spec_set_mod_time, Base, CacheView,
};
use crate::filer::fileinfo::Timestamp;
use crate::image_type::ImageType;

verus! {

/// A cache together with its dirty flag.
#[derive(Debug)]
pub struct SharedFiler {
    base: Base,
    modified: bool,
}

impl View for SharedFiler {
    type V = CacheView;

    closed spec fn view(&self) -> CacheView {
        self.base@
    }
}

impl SharedFiler {
    /// The underlying cache is well formed.
    pub closed spec fn inv(&self) -> bool {
        self.base.inv()
    }

    /// Whether a mutating operation has happened since the flag was last
    /// cleared.
    pub closed spec fn dirty(&self) -> bool {
        self.modified
    }

    /// Wraps a cache and starts tracking modifications.
    pub fn new(base: Base) -> (r: SharedFiler)
        requires
            base.inv(),
        ensures
            r.inv(),
            r@ == base@,
            !r.dirty(),
    {
        SharedFiler { base, modified: false }
    }

    /// A fresh handle around an empty cache.
    pub fn new_basic() -> (r: SharedFiler)
        ensures
            r.inv(),
            r@ =~= CacheView::empty(),
            !r.dirty(),
    {
        SharedFiler::new(Base::default())
    }

    /// Reads the dirty flag.
    pub fn mod_flag(&self) -> (r: bool)
        ensures
            r == self.dirty(),
    {
        self.modified
    }

    /// Sets or clears the dirty flag; the cache itself is untouched.
    pub fn set_mod_flag(&mut self, val: bool)
        requires
            old(self).inv(),
        ensures
            final(self).inv(),
            final(self)@ == old(self)@,
            final(self).dirty() == val,
    {
        self.modified = val;
    }

    /// Registers `path` and marks the cache dirty.
    pub fn add_file(&mut self, path: &str)
        requires
            old(self).inv(),
        ensures
            final(self).inv(),
            final(self)@ =~= spec_register(old(self)@, path@),
            final(self).dirty(),
    {
        self.base.add_file(path);
        self.modified = true;
    }

    /// Whether `path` has ever been registered.
    pub fn file_known(&self, path: &str) -> (r: bool)
        requires
            self.inv(),
        ensures
            r == self@.map.contains_key(path@),
    {
        self.base.file_known(path)
    }

    /// The modification time recorded for `path`, if any.
    pub fn mod_time(&self, path: &str) -> (r: Option<Timestamp>)
        requires
            self.inv(),
        ensures
            r == record_of(self@, path@).mod_time,
    {
        self.base.mod_time(path)
    }

    /// Records the modification time of `path`, invalidating its derived
    /// fields, and marks the cache dirty.
    pub fn set_mod_time(&mut self, path: &str, time: Timestamp)
        requires
            old(self).inv(),
        ensures
            final(self).inv(),
            final(self)@ =~= spec_set_mod_time(old(self)@, path@, time),
            final(self).dirty(),
    {
        self.base.set_mod_time(path, time);
        self.modified = true;
    }

    /// The classification recorded for `path`, if any.
    pub fn image_type(&self, path: &str) -> (r: Option<ImageType>)
        requires
            self.inv(),
        ensures
            r == record_of(self@, path@).image_type,
    {
        self.base.image_type(path)
    }

    /// Records the classification of `path` and marks the cache dirty.
    pub fn set_image_type(&mut self, path: &str, image_type: ImageType)
        requires
            old(self).inv(),
        ensures
            final(self).inv(),
            final(self)@ =~= spec_set_image_type(old(self)@, path@, image_type),
            final(self).dirty(),
    {
        self.base.set_image_type(path, image_type);
        self.modified = true;
    }

    /// The digest recorded for `path` under `hash_name`, if any.
    pub fn hash_for_name(&self, path: &str, hash_name: &str) -> (r: Option<String>)
        requires
            self.inv(),
        ensures
            match r {
                Some(v) => spec_hash_for_name(self@, path@, hash_name@) == Some(v@),
                None => spec_hash_for_name(self@, path@, hash_name@) is None,
            },
    {
        self.base.hash_for_name(path, hash_name)
    }

    /// Whether a digest is recorded for `path` under `hash_name`.
    pub fn contains_hash_for_name(&self, path: &str, hash_name: &str) -> (r: bool)
        requires
            self.inv(),
        ensures
            r == (self@.map.contains_key(path@) && record_of(self@, path@).hashes.contains_key(
                hash_name@,
            )),
    {
        self.base.contains_hash_for_name(path, hash_name)
    }

    /// Records a digest for `path` under `hash_name` and marks the cache
    /// dirty.
    pub fn set_hash_for_name(&mut self, path: &str, hash_name: &str, value: &str)
        requires
            old(self).inv(),
        ensures
            final(self).inv(),
            final(self)@ =~= spec_set_hash(old(self)@, path@, hash_name@, value@),
            final(self).dirty(),
    {
        self.base.set_hash_for_name(path, hash_name, value);
        self.modified = true;
    }

    /// Every known path, in the stable order of first registration.
    pub fn files_iter(&self) -> (r: Vec<String>)
        requires
            self.inv(),
        ensures
            r@.len() == self@.paths.len(),
            forall|i: int| 0 <= i < r@.len() ==> r@[i]@ == self@.paths[i],
    {
        self.base.files_iter()
    }
}

impl crate::filer::FilerTrait for SharedFiler {
    open spec fn filer_inv(&self) -> bool {
        self.inv()
    }

    open spec fn cache(&self) -> CacheView {
        self@
    }

    fn add_file(&mut self, path: &str) {
        SharedFiler::add_file(self, path)
    }

    fn file_known(&self, path: &str) -> (r: bool) {
        SharedFiler::file_known(self, path)
    }

    fn mod_time(&self, path: &str) -> (r: Option<Timestamp>) {
        SharedFiler::mod_time(self, path)
    }

    fn set_mod_time(&mut self, path: &str, time: Timestamp) {
        SharedFiler::set_mod_time(self, path, time)
    }

    fn image_type(&self, path: &str) -> (r: Option<ImageType>) {
        SharedFiler::image_type(self, path)
    }

    fn set_image_type(&mut self, path: &str, image_type: ImageType) {
        SharedFiler::set_image_type(self, path, image_type)
    }

    fn hash_for_name(&self, path: &str, hash_name: &str) -> (r: Option<String>) {
        SharedFiler::hash_for_name(self, path, hash_name)
    }

    fn contains_hash_for_name(&self, path: &str, hash_name: &str) -> (r: bool) {
        SharedFiler::contains_hash_for_name(self, path, hash_name)
    }

    fn set_hash_for_name(&mut self, path: &str, hash_name: &str, value: &str) {
        SharedFiler::set_hash_for_name(self, path, hash_name, value)
    }
}

} // verus!
