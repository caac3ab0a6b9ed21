//! The extension-repair policy: walk directories, find regular files that
//! have no extension but whose content is a recognized image format, and
//! ask for each to be renamed with the format's preferred extension.
//! Hidden directories are not descended into.

use vstd::prelude::*;
use crate::crawler::{
    actions_view, crawl_roots, spec_walks, CrawlHelper, Entry, FileAction, FileActionView,
    PolicyError, WalkItem, WalkReport,
};
use crate::filer::base::{spec_register, CacheView};
use crate::filer::shared::SharedFiler;
use crate::image_type::{spec_classify, spec_preferred_extension, ImageType};
use crate::paths::{
    has_extension, is_hidden, spec_file_name_ok, spec_has_extension, spec_is_hidden,
    spec_with_extension, with_extension,
};

verus! {

/// Add extensions to image files with no extensions.
#[derive(Clone, Debug)]
pub struct AddExt {
    /// Print actions only.
    pub dry_run: bool,
    /// The directories to search.
    pub directories: Vec<String>,
}

/// What is known of an entry's content, cached in the per-entry scratch
/// value so the file's bytes are inspected at most once: nothing yet, not
/// an image, or an image of a known format.
#[derive(Copy, Clone, Debug, PartialEq, Eq, Structural)]
pub enum Classification {
    Unknown,
    NotApplicable,
    Known(ImageType),
}

/// The extension-repair policy itself, holding the cache handle it
/// registers processed files in.
pub struct AddExtHelper {
    pub dry_run: bool,
    pub filer: SharedFiler,
}

/// The filter decision of the extension-repair policy: accept a regular
/// file when its path has no extension and its read bytes classify as a
/// known image format, caching the classification.
pub open spec fn addext_filter(e: Entry) -> (bool, Classification) {
    if spec_has_extension(e.path@) {
        (false, Classification::Unknown)
    } else {
        match (e.data.head, e.data.tail) {
            (Some(h), Some(t)) => {
                if h@.len() == 10 && t@.len() == 2 {
                    let c = spec_classify(h@, t@);
                    if c is UNKNOWN {
                        (false, Classification::NotApplicable)
                    } else {
                        (true, Classification::Known(c))
                    }
                } else {
                    (false, Classification::Unknown)
                }
            },
            _ => (false, Classification::Unknown),
        }
    }
}

impl CrawlHelper for AddExtHelper {
    type InfoType = Classification;

    type State = CacheView;

    open spec fn inv(&self) -> bool {
        self.filer.inv()
    }

    open spec fn abs(&self) -> CacheView {
        self.filer@
    }

    open spec fn spec_new_info() -> Classification {
        Classification::Unknown
    }

    /// Descend everywhere but into hidden directories.
    open spec fn spec_descend(s: CacheView, e: Entry) -> Result<bool, PolicyError> {
        Ok(!spec_is_hidden(e.path@))
    }

    /// Nothing to do on a directory itself.
    open spec fn spec_dir(s: CacheView, e: Entry) -> (CacheView, Result<(), PolicyError>) {
        (s, Ok(()))
    }

    open spec fn spec_filter(s: CacheView, e: Entry) -> Result<
        (bool, Classification),
        PolicyError,
    > {
        Ok(addext_filter(e))
    }

    /// An accepted file is registered in the cache and, when its path can
    /// carry one, asked to be renamed with the preferred extension of its
    /// classified format.
    open spec fn spec_process(s: CacheView, e: Entry, info: Classification) -> (
        CacheView,
        Result<Option<FileActionView>, PolicyError>,
    ) {
        match info {
            Classification::Known(it) => {
                let s2 = spec_register(s, e.path@);
                if spec_file_name_ok(e.path@) {
                    (
                        s2,
                        Ok(
                            Some(
                                FileActionView::Rename {
                                    from: e.path@,
                                    to: spec_with_extension(
                                        e.path@,
                                        spec_preferred_extension(it),
                                    ),
                                },
                            ),
                        ),
                    )
                } else {
                    (s2, Ok(None))
                }
            },
            _ => (s, Ok(None)),
        }
    }

    fn new_info(&self) -> (i: Classification) {
        Classification::Unknown
    }

    fn should_descend(&self, e: &Entry) -> (r: Result<bool, PolicyError>) {
        Ok(!is_hidden(e.path.as_str()))
    }

    fn process_directory(&mut self, e: &Entry) -> (r: Result<(), PolicyError>) {
        Ok(())
    }

    fn should_process_file(&self, e: &Entry, info: &mut Classification) -> (r: Result<
        bool,
        PolicyError,
    >) {
        if has_extension(e.path.as_str()) {
            Ok(false)
        } else {
            match (&e.data.head, &e.data.tail) {
                (Some(h), Some(t)) => {
                    if h.len() == 10 && t.len() == 2 {
                        let c = ImageType::classify(h.as_slice(), t.as_slice());
                        if c == ImageType::UNKNOWN {
                            *info = Classification::NotApplicable;
                            Ok(false)
                        } else {
                            *info = Classification::Known(c);
                            Ok(true)
                        }
                    } else {
                        Ok(false)
                    }
                },
                _ => Ok(false),
            }
        }
    }

    fn process_file(&mut self, e: &Entry, info: &mut Classification) -> (r: Result<
        Option<FileAction>,
        PolicyError,
    >) {
        match *info {
            Classification::Known(it) => {
                self.filer.add_file(e.path.as_str());
                let ext = it.preferred_extension();
                match with_extension(e.path.as_str(), ext) {
                    Some(to) => Ok(Some(FileAction::Rename { from: e.path.clone(), to })),
                    None => Ok(None),
                }
            },
            _ => Ok(None),
        }
    }
}

/// Runs the extension-repair policy over one enumerated walk per
/// directory argument, against the given cache. Returns the cache handle
/// and the combined report; whether the renames asked for are carried out
/// or only shown is the caller's business (the dry-run flag).
pub fn process_addext(ae: &AddExt, walks: &Vec<Vec<WalkItem>>, filer: SharedFiler) -> (r: (
    SharedFiler,
    WalkReport,
))
    requires
        filer.inv(),
        walks@.len() == ae.directories@.len(),
    ensures
        r.0.inv(),
        ({
            let (sf, af, ef) = spec_walks::<AddExtHelper>(
                walks@.map_values(|w: Vec<WalkItem>| w@),
                filer@,
            );
            &&& r.0@ == sf
            &&& actions_view(r.1) == af
            &&& r.1.errors@ == ef
        }),
{
    let helper = AddExtHelper { dry_run: ae.dry_run, filer };
    let (helper, report) = crawl_roots(&ae.directories, walks, helper);
    (helper.filer, report)
}

} // verus!
