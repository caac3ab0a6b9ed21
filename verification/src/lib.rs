//! Library for scanning directory trees of image files: a traversal engine
//! with pluggable per-entry policies, a metadata cache keyed by file path
//! with modification-time invalidation, byte-signature image classification,
//! and content-digest based duplicate grouping.

pub mod addext;
pub mod command;
pub mod crawler;
pub mod digest;
pub mod fileinfo;
pub mod filer;
pub mod finddups;
pub mod image_type;
pub mod keyed;
pub mod paths;
