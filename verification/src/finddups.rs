//! The duplicate-finder policy: walk directories, ask for the SHA-256
//! digest of every regular file not already digested in the cache, and —
//! once the digests are recorded — group the cached paths by equal digest.
//! Hidden directories are not descended into.

use vstd::prelude::*;
use crate::crawler::{
    actions_view, crawl_roots, spec_walks, CrawlHelper, Entry, FileAction, FileActionView,
    PolicyError, WalkItem, WalkReport,
};
use crate::filer::base::{record_of, spec_hash_for_name, spec_register, spec_set_hash, CacheView};
use crate::filer::fileinfo::string_eq_str;
use crate::filer::shared::SharedFiler;
use crate::paths::{is_hidden, spec_is_hidden};

verus! {

/// Find groups of files with identical content.
#[derive(Clone, Debug)]
pub struct FindDups {
    /// The directories to search.
    pub directories: Vec<String>,
}

/// The duplicate finder needs no per-entry scratch state.
#[derive(Copy, Clone, Debug, Default, PartialEq, Eq, Structural)]
pub struct FindDupsInfo;

/// The duplicate-finder policy, holding the cache handle it registers
/// files in.
pub struct FindDupsHelper {
    pub filer: SharedFiler,
}

/// The algorithm name under which this policy records content digests.
pub open spec fn spec_hash_name() -> Seq<char> {
    "SHA256"@
}

/// The algorithm name under which this policy records content digests.
pub fn hash_name() -> (r: &'static str)
    ensures
        r@ == spec_hash_name(),
{
    "SHA256"
}

/// The digest recorded for `p`, if any.
pub open spec fn digest_of(v: CacheView, p: Seq<char>) -> Option<Seq<char>> {
    spec_hash_for_name(v, p, spec_hash_name())
}

impl CrawlHelper for FindDupsHelper {
    type InfoType = FindDupsInfo;

    type State = CacheView;

    open spec fn inv(&self) -> bool {
        self.filer.inv()
    }

    open spec fn abs(&self) -> CacheView {
        self.filer@
    }

    open spec fn spec_new_info() -> FindDupsInfo {
        FindDupsInfo
    }

    /// Descend everywhere but into hidden directories.
    open spec fn spec_descend(s: CacheView, e: Entry) -> Result<bool, PolicyError> {
        Ok(!spec_is_hidden(e.path@))
    }

    /// Nothing to do on a directory itself.
    open spec fn spec_dir(s: CacheView, e: Entry) -> (CacheView, Result<(), PolicyError>) {
        (s, Ok(()))
    }

    /// Process exactly the files whose digest the cache does not hold yet.
    open spec fn spec_filter(s: CacheView, e: Entry) -> Result<
        (bool, FindDupsInfo),
        PolicyError,
    > {
        Ok(
            (
                !(s.map.contains_key(e.path@) && record_of(s, e.path@).hashes.contains_key(
                    spec_hash_name(),
                )),
                FindDupsInfo,
            ),
        )
    }

    /// An accepted file is registered in the cache and its content digest
    /// asked for.
    open spec fn spec_process(s: CacheView, e: Entry, info: FindDupsInfo) -> (
        CacheView,
        Result<Option<FileActionView>, PolicyError>,
    ) {
        (
            spec_register(s, e.path@),
            Ok(Some(FileActionView::ComputeDigest { path: e.path@ })),
        )
    }

    fn new_info(&self) -> (i: FindDupsInfo) {
        FindDupsInfo
    }

    fn should_descend(&self, e: &Entry) -> (r: Result<bool, PolicyError>) {
        Ok(!is_hidden(e.path.as_str()))
    }

    fn process_directory(&mut self, e: &Entry) -> (r: Result<(), PolicyError>) {
        Ok(())
    }

    fn should_process_file(&self, e: &Entry, info: &mut FindDupsInfo) -> (r: Result<
        bool,
        PolicyError,
    >) {
        Ok(!self.filer.contains_hash_for_name(e.path.as_str(), hash_name()))
    }

    fn process_file(&mut self, e: &Entry, info: &mut FindDupsInfo) -> (r: Result<
        Option<FileAction>,
        PolicyError,
    >) {
        self.filer.add_file(e.path.as_str());
        Ok(Some(FileAction::ComputeDigest { path: e.path.clone() }))
    }
}

/// Runs the duplicate-finder policy over one enumerated walk per
/// directory argument, against the given cache. The report's actions name
/// every file whose content digest must now be computed and recorded (see
/// [`record_digest`]); grouping afterwards is [`look_for_dups`]'s job.
pub fn process_finddups(fd: &FindDups, walks: &Vec<Vec<WalkItem>>, filer: SharedFiler) -> (r: (
    SharedFiler,
    WalkReport,
))
    requires
        filer.inv(),
        walks@.len() == fd.directories@.len(),
    ensures
        r.0.inv(),
        ({
            let (sf, af, ef) = spec_walks::<FindDupsHelper>(
                walks@.map_values(|w: Vec<WalkItem>| w@),
                filer@,
            );
            &&& r.0@ == sf
            &&& actions_view(r.1) == af
            &&& r.1.errors@ == ef
        }),
{
    let helper = FindDupsHelper { filer };
    let (helper, report) = crawl_roots(&fd.directories, walks, helper);
    (helper.filer, report)
}

/// Records the content digest computed for `path` under this policy's
/// algorithm name.
pub fn record_digest(filer: &mut SharedFiler, path: &str, value: &str)
    requires
        old(filer).inv(),
    ensures
        final(filer).inv(),
        final(filer)@ =~= spec_set_hash(old(filer)@, path@, spec_hash_name(), value@),
        final(filer).dirty(),
{
    filer.set_hash_for_name(path, hash_name(), value);
}

/// The paths among the first `i` (in cache order) whose recorded digest
/// is `h`, in that order.
pub open spec fn group_prefix(v: CacheView, h: Seq<char>, i: int) -> Seq<Seq<char>>
    decreases i,
{
    if i <= 0 {
        Seq::empty()
    } else if digest_of(v, v.paths[i - 1]) == Some(h) {
        group_prefix(v, h, i - 1).push(v.paths[i - 1])
    } else {
        group_prefix(v, h, i - 1)
    }
}

/// All cached paths whose recorded digest is `h`, in cache order.
pub open spec fn group_of(v: CacheView, h: Seq<char>) -> Seq<Seq<char>> {
    group_prefix(v, h, v.paths.len() as int)
}

/// A digest group is empty unless some path among the first `i` carries
/// the digest.
proof fn lemma_group_prefix_occurs(v: CacheView, h: Seq<char>, i: int)
    requires
        group_prefix(v, h, i).len() > 0,
    ensures
        exists|j: int| 0 <= j < i && digest_of(v, #[trigger] v.paths[j]) == Some(h),
    decreases i,
{
    if i > 0 && digest_of(v, v.paths[i - 1]) != Some(h) {
        lemma_group_prefix_occurs(v, h, i - 1);
    }
}

/// The position of the first path at or after `i` (in cache order) whose
/// recorded digest is `h`; the number of paths when none is.
pub open spec fn first_pos_from(v: CacheView, h: Seq<char>, i: int) -> int
    decreases v.paths.len() - i,
{
    if i < 0 || i >= v.paths.len() {
        v.paths.len() as int
    } else if digest_of(v, v.paths[i]) == Some(h) {
        i
    } else {
        first_pos_from(v, h, i + 1)
    }
}

/// The position of the first path whose recorded digest is `h`.
pub open spec fn first_pos(v: CacheView, h: Seq<char>) -> int {
    first_pos_from(v, h, 0)
}

/// `first_pos_from` lands on the first carrier of `h`: nothing before it
/// (from `i` on) carries `h`, and where it lands does, unless there is
/// none.
proof fn lemma_first_pos_from(v: CacheView, h: Seq<char>, i: int)
    requires
        0 <= i <= v.paths.len(),
    ensures
        i <= first_pos_from(v, h, i) <= v.paths.len(),
        forall|j: int|
            i <= j < first_pos_from(v, h, i) ==> digest_of(v, #[trigger] v.paths[j]) != Some(h),
        first_pos_from(v, h, i) < v.paths.len() ==> digest_of(
            v,
            v.paths[first_pos_from(v, h, i)],
        ) == Some(h),
    decreases v.paths.len() - i,
{
    if i < v.paths.len() && digest_of(v, v.paths[i]) != Some(h) {
        lemma_first_pos_from(v, h, i + 1);
    }
}

/// `first_pos_from` is no later than any carrier of `h`.
proof fn lemma_first_pos_le(v: CacheView, h: Seq<char>, i: int, j: int)
    requires
        0 <= i <= j < v.paths.len(),
        digest_of(v, v.paths[j]) == Some(h),
    ensures
        first_pos_from(v, h, i) <= j,
    decreases v.paths.len() - i,
{
    if i < j && digest_of(v, v.paths[i]) != Some(h) {
        lemma_first_pos_le(v, h, i + 1, j);
    }
}

/// A copy of a vector of strings, element for element.
fn clone_string_vec(xs: &Vec<String>) -> (r: Vec<String>)
    ensures
        r@ =~= xs@,
{
    let n = xs.len();
    let mut r: Vec<String> = Vec::new();
    let mut i: usize = 0;
    while i < n
        invariant
            i <= n,
            n == xs@.len(),
            r@.len() == i,
            forall|j: int| 0 <= j < i ==> r@[j] == xs@[j],
        decreases n - i,
    {
        r.push(xs[i].clone());
        i = i + 1;
    }
    r
}

/// Groups the cached paths by equal recorded digest: each returned group
/// collects, in cache order, every path sharing one digest carried by two
/// or more paths; every such digest is represented; no digest twice.
#[verifier::loop_isolation(false)]
pub fn look_for_dups(filer: &SharedFiler) -> (r: Vec<Vec<String>>)
    requires
        filer.inv(),
    ensures
        forall|g: int| 0 <= g < r@.len() ==> (#[trigger] r@[g])@.len() >= 2,
        forall|g: int|
            0 <= g < r@.len() ==> {
                &&& digest_of(filer@, (#[trigger] r@[g]).deep_view()[0]) is Some
                &&& r@[g].deep_view() == group_of(
                    filer@,
                    digest_of(filer@, r@[g].deep_view()[0])->0,
                )
            },
        forall|g1: int, g2: int|
            0 <= g1 < g2 < r@.len() ==> digest_of(filer@, (#[trigger] r@[g1]).deep_view()[0])
                != digest_of(filer@, (#[trigger] r@[g2]).deep_view()[0]),
        forall|h: Seq<char>|
            #[trigger] group_of(filer@, h).len() >= 2 ==> exists|g: int|
                0 <= g < r@.len() && (#[trigger] r@[g]).deep_view() == group_of(filer@, h),
        forall|g1: int, g2: int|
            0 <= g1 < g2 < r@.len() ==> first_pos(
                filer@,
                digest_of(filer@, (#[trigger] r@[g1]).deep_view()[0])->0,
            ) < first_pos(filer@, digest_of(filer@, (#[trigger] r@[g2]).deep_view()[0])->0),
{
    let ghost v = filer@;
    let paths = filer.files_iter();
    let n = paths.len();
    let mut keys: Vec<String> = Vec::new();
    let mut groups: Vec<Vec<String>> = Vec::new();
    let mut i: usize = 0;
    while i < n
        invariant
            i <= n,
            n == paths@.len(),
            n == v.paths.len(),
            v == filer@,
            filer.inv(),
            forall|j: int| 0 <= j < n ==> (#[trigger] paths@[j])@ == v.paths[j],
            keys@.len() == groups@.len(),
            forall|g1: int, g2: int|
                0 <= g1 < g2 < keys@.len() ==> (#[trigger] keys@[g1])@ != (#[trigger] keys@[g2])@,
            forall|g: int|
                0 <= g < keys@.len() ==> {
                    &&& (#[trigger] groups@[g]).deep_view() == group_prefix(
                        v,
                        keys@[g]@,
                        i as int,
                    )
                    &&& groups@[g]@.len() >= 1
                    &&& digest_of(v, groups@[g].deep_view()[0]) == Some(keys@[g]@)
                },
            forall|j: int|
                0 <= j < i && digest_of(v, #[trigger] v.paths[j]) is Some ==> exists|g: int|
                    0 <= g < keys@.len() && (#[trigger] keys@[g])@ == digest_of(v, v.paths[j])->0,
            forall|g: int| 0 <= g < keys@.len() ==> first_pos(v, (#[trigger] keys@[g])@) < i,
            forall|g1: int, g2: int|
                0 <= g1 < g2 < keys@.len() ==> first_pos(v, (#[trigger] keys@[g1])@) < first_pos(
                    v,
                    (#[trigger] keys@[g2])@,
                ),
        decreases n - i,
    {
        let p = &paths[i];
        match filer.hash_for_name(p.as_str(), hash_name()) {
            None => {
                proof {
                    assert forall|g: int| 0 <= g < keys@.len() implies group_prefix(
                        v,
                        keys@[g]@,
                        i + 1,
                    ) == group_prefix(v, keys@[g]@, i as int) by {
                        assert(digest_of(v, v.paths[i as int]) != Some(keys@[g]@));
                    }
                }
            },
            Some(h) => {
                let ghost hv = h@;
                let m = keys.len();
                let mut g: usize = 0;
                let mut found: bool = false;
                while g < m && !found
                    invariant
                        g <= m,
                        m == keys@.len(),
                        !found ==> forall|k: int| 0 <= k < g ==> (#[trigger] keys@[k])@ != hv,
                        found ==> g < m && keys@[g as int]@ == hv,
                    decreases m - g + (if found { 0int } else { 1int }),
                {
                    if string_eq_str(&keys[g], h.as_str()) {
                        found = true;
                    } else {
                        g = g + 1;
                    }
                }
                if found {
                    groups[g].push(p.clone());
                    proof {
                        assert forall|g2: int|
                            0 <= g2 < keys@.len() && g2 != g implies (#[trigger] groups@[g2])
                            .deep_view() == group_prefix(v, keys@[g2]@, i + 1) by {
                            assert(keys@[g2]@ != hv);
                            assert(digest_of(v, v.paths[i as int]) == Some(hv));
                        }
                        assert(groups@[g as int].deep_view() =~= group_prefix(
                            v,
                            keys@[g as int]@,
                            i as int,
                        ).push(v.paths[i as int]));
                    }
                } else {
                    let ghost keys0 = keys@;
                    let ghost groups0 = groups@;
                    keys.push(h);
                    let mut ng: Vec<String> = Vec::new();
                    ng.push(p.clone());
                    groups.push(ng);
                    proof {
                        let m0 = keys0.len();
                        // the digest is new: no earlier path carries it
                        assert forall|j: int| 0 <= j < i implies digest_of(
                            v,
                            #[trigger] v.paths[j],
                        ) != Some(hv) by {
                            if digest_of(v, v.paths[j]) == Some(hv) {
                                let g0 = choose|g0: int|
                                    0 <= g0 < keys0.len() && (#[trigger] keys0[g0])@ == digest_of(
                                        v,
                                        v.paths[j],
                                    )->0;
                                assert(keys0[g0]@ != hv);
                            }
                        }
                        if group_prefix(v, hv, i as int).len() > 0 {
                            lemma_group_prefix_occurs(v, hv, i as int);
                        }
                        assert(group_prefix(v, hv, i as int) =~= Seq::<Seq<char>>::empty());
                        // the old groups are untouched by this entry
                        assert forall|g2: int| 0 <= g2 < m0 implies (#[trigger] groups@[g2])
                            .deep_view() == group_prefix(v, keys@[g2]@, i + 1) by {
                            assert(keys@[g2] == keys0[g2]);
                            assert(groups@[g2] == groups0[g2]);
                            assert(keys0[g2]@ != hv);
                            assert(digest_of(v, v.paths[i as int]) == Some(hv));
                        }
                        // the new group holds exactly this path
                        assert(groups@[m0 as int].deep_view() =~= Seq::<Seq<char>>::empty().push(
                            v.paths[i as int],
                        ));
                        assert(group_prefix(v, hv, i + 1) == Seq::<Seq<char>>::empty().push(
                            v.paths[i as int],
                        ));
                        // every digest seen so far (this one included) has a key
                        assert forall|j: int|
                            0 <= j < i + 1 && digest_of(v, #[trigger] v.paths[j])
                                is Some implies exists|g2: int|
                            0 <= g2 < keys@.len() && (#[trigger] keys@[g2])@ == digest_of(
                                v,
                                v.paths[j],
                            )->0 by {
                            if j < i {
                                let g0 = choose|g0: int|
                                    0 <= g0 < keys0.len() && (#[trigger] keys0[g0])@ == digest_of(
                                        v,
                                        v.paths[j],
                                    )->0;
                                assert(keys@[g0]@ == digest_of(v, v.paths[j])->0);
                            } else {
                                assert(keys@[m0 as int]@ == hv);
                            }
                        }
                        // this digest first occurs exactly here
                        lemma_first_pos_from(v, hv, 0);
                        lemma_first_pos_le(v, hv, 0, i as int);
                        assert(first_pos(v, hv) == i as int) by {
                            if first_pos(v, hv) < i as int {
                                assert(digest_of(v, v.paths[first_pos(v, hv)]) == Some(hv));
                            }
                        }
                        assert forall|g1: int, g2: int|
                            0 <= g1 < g2 < keys@.len() implies first_pos(
                            v,
                            (#[trigger] keys@[g1])@,
                        ) < first_pos(v, (#[trigger] keys@[g2])@) by {
                            assert(keys@[g1] == keys0[g1]);
                            if g2 < m0 {
                                assert(keys@[g2] == keys0[g2]);
                            } else {
                                assert(keys@[g2]@ == hv);
                                assert(first_pos(v, keys0[g1]@) < i as int);
                            }
                        }
                        assert forall|g: int| 0 <= g < keys@.len() implies first_pos(
                            v,
                            (#[trigger] keys@[g])@,
                        ) < i + 1 by {
                            if g < m0 {
                                assert(keys@[g] == keys0[g]);
                            } else {
                                assert(keys@[g]@ == hv);
                            }
                        }
                    }
                }
            },
        }
        i = i + 1;
    }
    let mut r: Vec<Vec<String>> = Vec::new();
    let m = groups.len();
    let mut g: usize = 0;
    let ghost mut sel: Seq<int> = Seq::empty();
    while g < m
        invariant
            g <= m,
            m == keys@.len(),
            m == groups@.len(),
            v == filer@,
            forall|g1: int, g2: int|
                0 <= g1 < g2 < keys@.len() ==> (#[trigger] keys@[g1])@ != (#[trigger] keys@[g2])@,
            forall|k: int|
                0 <= k < keys@.len() ==> {
                    &&& (#[trigger] groups@[k]).deep_view() == group_of(v, keys@[k]@)
                    &&& groups@[k]@.len() >= 1
                    &&& digest_of(v, groups@[k].deep_view()[0]) == Some(keys@[k]@)
                },
            sel.len() == r@.len(),
            forall|k: int| 0 <= k < sel.len() ==> 0 <= #[trigger] sel[k] < g,
            forall|k: int|
                0 <= k < sel.len() ==> (#[trigger] r@[k])@ == groups@[sel[k]]@,
            forall|k: int| 0 <= k < sel.len() ==> groups@[#[trigger] sel[k]]@.len() >= 2,
            forall|k1: int, k2: int| 0 <= k1 < k2 < sel.len() ==> sel[k1] < sel[k2],
            forall|k: int|
                0 <= k < g && (#[trigger] groups@[k])@.len() >= 2 ==> exists|k2: int|
                    0 <= k2 < sel.len() && sel[k2] == k,
        decreases m - g,
    {
        if groups[g].len() > 1 {
            let c = clone_string_vec(&groups[g]);
            let ghost sel0 = sel;
            let ghost r0 = r@;
            proof {
                assert(c@ == groups@[g as int]@);
                sel = sel0.push(g as int);
            }
            r.push(c);
            proof {
                assert forall|k: int| 0 <= k < sel.len() implies 0 <= #[trigger] sel[k]
                    <= g as int && (#[trigger] r@[k])@ == groups@[sel[k]]@ && groups@[sel[k]]@.len()
                    >= 2 by {
                    if k < sel0.len() {
                        assert(sel[k] == sel0[k]);
                        assert(r@[k] == r0[k]);
                        assert(r0[k]@ == groups@[sel0[k]]@);
                        assert(groups@[sel0[k]]@.len() >= 2);
                    } else {
                        assert(sel[k] == g as int);
                        assert(r@[k] == c);
                    }
                }
                assert forall|k1: int, k2: int| 0 <= k1 < k2 < sel.len() implies sel[k1]
                    < sel[k2] by {
                    if k2 >= sel0.len() {
                        assert(sel[k1] == sel0[k1]);
                        assert(sel0[k1] < g as int);
                        assert(sel[k2] == g as int);
                    }
                }
                assert forall|k: int|
                    0 <= k < g + 1 && (#[trigger] groups@[k])@.len() >= 2 implies exists|k2: int|
                    0 <= k2 < sel.len() && sel[k2] == k by {
                    if k < g as int {
                        let k2 = choose|k2: int| 0 <= k2 < sel0.len() && sel0[k2] == k;
                        assert(sel[k2] == k);
                    } else {
                        assert(sel[sel.len() - 1] == g as int);
                    }
                }
            }
        }
        g = g + 1;
    }
    proof {
        assert forall|k: int| 0 <= k < r@.len() implies (#[trigger] r@[k]).deep_view()
            == groups@[sel[k]].deep_view() by {
            assert(r@[k]@ == groups@[sel[k]]@);
            assert(r@[k].deep_view() =~= groups@[sel[k]].deep_view());
        }
        assert forall|h: Seq<char>| #[trigger] group_of(v, h).len() >= 2 implies exists|gg: int|
            0 <= gg < r@.len() && (#[trigger] r@[gg]).deep_view() == group_of(v, h) by {
            lemma_group_prefix_occurs(v, h, v.paths.len() as int);
            let j = choose|j: int|
                0 <= j < v.paths.len() && digest_of(v, #[trigger] v.paths[j]) == Some(h);
            let k = choose|k: int|
                0 <= k < keys@.len() && (#[trigger] keys@[k])@ == digest_of(v, v.paths[j])->0;
            assert(groups@[k].deep_view() == group_of(v, h));
            assert(groups@[k]@.len() == group_of(v, h).len());
            let k2 = choose|k2: int| 0 <= k2 < sel.len() && sel[k2] == k;
            assert(r@[k2].deep_view() == group_of(v, h));
        }
        assert forall|g1: int, g2: int| 0 <= g1 < g2 < r@.len() implies first_pos(
            v,
            digest_of(v, (#[trigger] r@[g1]).deep_view()[0])->0,
        ) < first_pos(v, digest_of(v, (#[trigger] r@[g2]).deep_view()[0])->0) by {
            assert(r@[g1].deep_view() == groups@[sel[g1]].deep_view());
            assert(r@[g2].deep_view() == groups@[sel[g2]].deep_view());
            assert(digest_of(v, groups@[sel[g1]].deep_view()[0]) == Some(keys@[sel[g1]]@));
            assert(digest_of(v, groups@[sel[g2]].deep_view()[0]) == Some(keys@[sel[g2]]@));
            assert(sel[g1] < sel[g2]);
            assert(first_pos(v, keys@[sel[g1]]@) < first_pos(v, keys@[sel[g2]]@));
        }
    }
    r
}

} // verus!
