//! The single-owner realization of the shared cache: every mutation is a
//! message, and one owner applies them in the order they were sent. The
//! observable effect of each message is pinned by [`spec_apply`], so a
//! caller that sends messages knows the cache state as exactly as one that
//! calls the operations directly.

use vstd::prelude::*;
use crate::filer::base::{
    spec_register, spec_set_hash, spec_set_image_type, spec_set_mod_time, CacheView,
};
use crate::filer::fileinfo::Timestamp;
use crate::filer::shared::SharedFiler;
use crate::image_type::ImageType;

verus! {

/// One mutating cache operation, as a message to the owner.
#[derive(Clone, Debug)]
pub enum FilerMessage {
    AddFile { path: String },
    SetModTime { path: String, time: Timestamp },
    SetImageType { path: String, image_type: ImageType },
    SetHashForName { path: String, hash_name: String, value: String },
}

/// What one message does to the cache.
pub open spec fn spec_apply(v: CacheView, m: FilerMessage) -> CacheView {
    match m {
        FilerMessage::AddFile { path } => spec_register(v, path@),
        FilerMessage::SetModTime { path, time } => spec_set_mod_time(v, path@, time),
        FilerMessage::SetImageType { path, image_type } => spec_set_image_type(
            v,
            path@,
            image_type,
        ),
        FilerMessage::SetHashForName { path, hash_name, value } => spec_set_hash(
            v,
            path@,
            hash_name@,
            value@,
        ),
    }
}

/// The owner of the cache in the message-passing realization: messages
/// sent to it are applied one at a time, in order.
#[derive(Debug)]
pub struct Filer {
    state: SharedFiler,
}

impl Filer {
    /// The owned cache is well formed.
    pub closed spec fn inv(&self) -> bool {
        self.state.inv()
    }

    /// The cache as the messages applied so far have left it.
    pub closed spec fn view(&self) -> CacheView {
        self.state@
    }

    /// Whether any message has been applied since the flag was cleared.
    pub closed spec fn dirty(&self) -> bool {
        self.state.dirty()
    }

    /// An owner of a fresh, empty cache.
    pub fn new() -> (r: Filer)
        ensures
            r.inv(),
            r@ =~= CacheView::empty(),
            !r.dirty(),
    {
        Filer { state: SharedFiler::new_basic() }
    }

    /// Takes ownership of an existing cache.
    pub fn with_state(state: SharedFiler) -> (r: Filer)
        requires
            state.inv(),
        ensures
            r.inv(),
            r@ == state@,
            r.dirty() == state.dirty(),
    {
        Filer { state }
    }

    /// Sends one mutating operation to the owner; its effect on the cache
    /// is exactly `spec_apply`, and the cache is marked dirty.
    pub fn send(&mut self, msg: FilerMessage)
        requires
            old(self).inv(),
        ensures
            final(self).inv(),
            final(self)@ =~= spec_apply(old(self)@, msg),
            final(self).dirty(),
    {
        match msg {
            FilerMessage::AddFile { path } => self.state.add_file(path.as_str()),
            FilerMessage::SetModTime { path, time } => self.state.set_mod_time(
                path.as_str(),
                time,
            ),
            FilerMessage::SetImageType { path, image_type } => self.state.set_image_type(
                path.as_str(),
                image_type,
            ),
            FilerMessage::SetHashForName { path, hash_name, value } => self
                .state
                .set_hash_for_name(path.as_str(), hash_name.as_str(), value.as_str()),
        }
    }

    /// Hands the cache back when the owner is done.
    pub fn into_state(self) -> (s: SharedFiler)
        ensures
            s.inv() == self.inv(),
            s@ == self@,
            s.dirty() == self.dirty(),
    {
        self.state
    }
}

} // verus!
