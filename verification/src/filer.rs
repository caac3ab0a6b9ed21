//! The metadata cache: per-file records ([`fileinfo`]), the path-keyed
//! container ([`base`]), and the shared handle with its dirty flag
//! ([`shared`]) behind which the cache is reached during a scan. The
//! operation set every realization exposes — and what each operation
//! means — is [`FilerTrait`].

use vstd::prelude::*;
use crate::filer::base::{
    record_of, spec_hash_for_name, spec_register, spec_set_hash, spec_set_image_type,
    spec_set_mod_time, CacheView,
};
use crate::filer::fileinfo::Timestamp;
use crate::image_type::ImageType;

pub mod base;
pub mod fileinfo;
pub mod filer;
pub mod laws;
pub mod shared;

pub use base::Base;
pub use fileinfo::FileInfo;
pub use filer::Filer;
pub use shared::SharedFiler;

verus! {

/// The operation set of the metadata cache, with the meaning of each
/// operation over the cache's mathematical value. Every realization —
/// the plain container, the shared handle — obeys the same contract:
/// registration is idempotent, reads of unknown paths return absent
/// values, a new modification time invalidates the derived fields, and
/// no operation ever fails.
pub trait FilerTrait: Sized {
    /// The realization's own well-formedness.
    spec fn filer_inv(&self) -> bool;

    /// The cache's mathematical value.
    spec fn cache(&self) -> CacheView;

    /// Ensures a record exists for `path`; no-op when one exists.
    fn add_file(&mut self, path: &str)
        requires
            old(self).filer_inv(),
        ensures
            final(self).filer_inv(),
            final(self).cache() =~= spec_register(old(self).cache(), path@),
    ;

    /// Whether `path` has ever been registered.
    fn file_known(&self, path: &str) -> (r: bool)
        requires
            self.filer_inv(),
        ensures
            r == self.cache().map.contains_key(path@),
    ;

    /// The modification time recorded for `path`, if any.
    fn mod_time(&self, path: &str) -> (r: Option<Timestamp>)
        requires
            self.filer_inv(),
        ensures
            r == record_of(self.cache(), path@).mod_time,
    ;

    /// Records the modification time of `path`, clearing its derived
    /// fields.
    fn set_mod_time(&mut self, path: &str, time: Timestamp)
        requires
            old(self).filer_inv(),
        ensures
            final(self).filer_inv(),
            final(self).cache() =~= spec_set_mod_time(old(self).cache(), path@, time),
    ;

    /// The classification recorded for `path`, if any.
    fn image_type(&self, path: &str) -> (r: Option<ImageType>)
        requires
            self.filer_inv(),
        ensures
            r == record_of(self.cache(), path@).image_type,
    ;

    /// Records the classification of `path`; digests stay untouched.
    fn set_image_type(&mut self, path: &str, image_type: ImageType)
        requires
            old(self).filer_inv(),
        ensures
            final(self).filer_inv(),
            final(self).cache() =~= spec_set_image_type(old(self).cache(), path@, image_type),
    ;

    /// The digest recorded for `path` under `hash_name`, if any.
    fn hash_for_name(&self, path: &str, hash_name: &str) -> (r: Option<String>)
        requires
            self.filer_inv(),
        ensures
            match r {
                Some(v) => spec_hash_for_name(self.cache(), path@, hash_name@) == Some(v@),
                None => spec_hash_for_name(self.cache(), path@, hash_name@) is None,
            },
    ;

    /// Whether a digest is recorded for `path` under `hash_name`.
    fn contains_hash_for_name(&self, path: &str, hash_name: &str) -> (r: bool)
        requires
            self.filer_inv(),
        ensures
            r == (self.cache().map.contains_key(path@) && record_of(
                self.cache(),
                path@,
            ).hashes.contains_key(hash_name@)),
    ;

    /// Records a digest for `path` under `hash_name`, replacing any
    /// earlier value for that algorithm.
    fn set_hash_for_name(&mut self, path: &str, hash_name: &str, value: &str)
        requires
            old(self).filer_inv(),
        ensures
            final(self).filer_inv(),
            final(self).cache() =~= spec_set_hash(old(self).cache(), path@, hash_name@, value@),
    ;
}

} // verus!
