//! The laws the cache obeys, stated over the operation specs of
//! [`crate::filer::base`] and proved once and for all: invalidation on a
//! modification-time change, idempotent registration, and independence of
//! the two derived fields.

use vstd::prelude::*;
use crate::filer::base::{
    record_of, spec_hash_for_name, spec_register, spec_set_hash, spec_set_image_type,
    spec_set_mod_time, CacheView,
};
use crate::filer::fileinfo::Timestamp;
use crate::image_type::ImageType;

verus! {

/// Invalidation: however a path's record was populated after its
/// modification time was set, setting a new modification time leaves both
/// derived fields absent again.
pub proof fn lemma_invalidation(
    v: CacheView,
    p: Seq<char>,
    t1: Timestamp,
    t2: Timestamp,
    x: ImageType,
    h: Seq<char>,
    d: Seq<char>,
)
    ensures
        ({
            let v1 = spec_set_mod_time(v, p, t1);
            let v2 = spec_set_image_type(v1, p, x);
            let v3 = spec_set_hash(v2, p, h, d);
            let v4 = spec_set_mod_time(v3, p, t2);
            &&& record_of(v4, p).image_type is None
            &&& record_of(v4, p).hashes =~= Map::<Seq<char>, Seq<char>>::empty()
            &&& spec_hash_for_name(v4, p, h) is None
            &&& record_of(v4, p).mod_time == Some(t2)
        }),
{
}

/// Registration is idempotent: registering a path that is already known —
/// with or without data recorded for it in between — changes nothing.
pub proof fn lemma_register_idempotent(v: CacheView, p: Seq<char>, h: Seq<char>, d: Seq<char>)
    ensures
        ({
            let v1 = spec_register(v, p);
            let v2 = spec_set_hash(v1, p, h, d);
            let v3 = spec_register(v2, p);
            &&& v3 == v2
            &&& spec_hash_for_name(v3, p, h) == Some(d)
        }),
{
}

/// Recording a digest never touches the recorded classification, of this
/// path or of any other.
pub proof fn lemma_set_hash_keeps_image_type(
    v: CacheView,
    p: Seq<char>,
    q: Seq<char>,
    h: Seq<char>,
    d: Seq<char>,
)
    ensures
        record_of(spec_set_hash(v, p, h, d), q).image_type == record_of(v, q).image_type,
{
}

/// Recording a classification never touches the recorded digests, of this
/// path or of any other.
pub proof fn lemma_set_image_type_keeps_hashes(
    v: CacheView,
    p: Seq<char>,
    q: Seq<char>,
    x: ImageType,
)
    ensures
        record_of(spec_set_image_type(v, p, x), q).hashes == record_of(v, q).hashes,
{
}

} // verus!
