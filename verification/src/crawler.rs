//! The traversal engine. A walk is driven from a flat, depth-annotated
//! list of items in depth-first order, as a filesystem enumerator yields
//! them; the engine consults a policy ([`CrawlHelper`]) at each entry and
//! produces a report of actions and contained errors. Refusing to descend
//! into a directory suppresses every deeper item that follows it, and any
//! error — of the enumerator or of the policy — is confined to its single
//! entry: the walk only ends when the items are exhausted.

use vstd::prelude::*;

verus! {

/// What kind of filesystem node an entry is; `Vanished` stands for a node
/// that disappeared (or stopped being a regular file) between enumeration
/// and inspection, which the walk skips silently.
#[derive(Copy, Clone, Debug, PartialEq, Eq, Structural)]
pub enum EntryKind {
    Directory,
    RegularFile,
    Vanished,
}

/// The content bytes the enumerator managed to read for a regular file:
/// the first ten and the last two, where the policy wants them. `None`
/// stands for bytes that were not read — not wanted, or unreadable.
#[derive(Clone, Debug, PartialEq, Eq)]
pub struct EntryData {
    pub head: Option<Vec<u8>>,
    pub tail: Option<Vec<u8>>,
}

impl EntryData {
    /// Data for an entry none of whose bytes were read.
    pub fn none() -> (r: EntryData)
        ensures
            r.head is None,
            r.tail is None,
    {
        EntryData { head: None, tail: None }
    }
}

/// One visited filesystem node: its path, its depth below the walk's root,
/// what kind of node it is, and what was read of it.
#[derive(Clone, Debug, PartialEq, Eq)]
pub struct Entry {
    pub path: String,
    pub depth: usize,
    pub kind: EntryKind,
    pub data: EntryData,
}

/// What the enumerator yields: a visited node, or its failure to produce
/// one (with the depth at which it failed).
#[derive(Clone, Debug, PartialEq, Eq)]
pub enum WalkItem {
    Entry(Entry),
    Failure { depth: usize, message: String },
}

/// An error contained during a walk, by the phase that raised it.
#[derive(Clone, Debug, PartialEq, Eq)]
pub enum WalkError {
    /// The enumerator could not produce an entry.
    Enumeration { message: String },
    /// A policy decision (descend or process this file?) failed.
    Filter { path: String },
    /// The policy failed on an accepted directory.
    Directory { path: String },
    /// The policy failed on an accepted file.
    Process { path: String },
}

/// An action a policy asks for on an accepted file. The walk only decides;
/// carrying an action out (renaming, reading content to digest it) is the
/// caller's business.
#[derive(Clone, Debug, PartialEq, Eq)]
pub enum FileAction {
    /// Give the file a new name.
    Rename { from: String, to: String },
    /// Compute the content digest of the file and record it.
    ComputeDigest { path: String },
}

/// The mathematical value of a [`FileAction`].
#[verifier::ext_equal]
pub enum FileActionView {
    Rename { from: Seq<char>, to: Seq<char> },
    ComputeDigest { path: Seq<char> },
}

impl View for FileAction {
    type V = FileActionView;

    open spec fn view(&self) -> FileActionView {
        match self {
            FileAction::Rename { from, to } => FileActionView::Rename { from: from@, to: to@ },
            FileAction::ComputeDigest { path } => FileActionView::ComputeDigest { path: path@ },
        }
    }
}

/// A policy decision failed; the entry it failed on is recorded by the
/// walk, which carries on.
#[derive(Copy, Clone, Debug, PartialEq, Eq, Structural)]
pub struct PolicyError;

/// What a finished walk reports: the actions asked for and the errors
/// contained, each in walk order.
#[derive(Clone, Debug, PartialEq, Eq)]
pub struct WalkReport {
    pub actions: Vec<FileAction>,
    pub errors: Vec<WalkError>,
}

/// The actions of a report, as mathematical values.
pub open spec fn actions_view(r: WalkReport) -> Seq<FileActionView> {
    r.actions@.map_values(|a: FileAction| a@)
}

/// Whether an executable process result says the same as a spec-level one.
pub open spec fn action_res_matches(
    r: Result<Option<FileAction>, PolicyError>,
    s: Result<Option<FileActionView>, PolicyError>,
) -> bool {
    match (r, s) {
        (Ok(a), Ok(v)) => match (a, v) {
            (None, None) => true,
            (Some(a0), Some(v0)) => a0@ == v0,
            _ => false,
        },
        (Err(e1), Err(e2)) => true,
        _ => false,
    }
}

/// The policy interface of the engine: whether to descend into a
/// directory, whether to process a file, and what to do with an accepted
/// one. A per-entry scratch value of the policy's choosing is created
/// fresh before the filter step and carried into the process step of that
/// same entry only, so an expensive decision made while filtering need not
/// be recomputed.
///
/// Each decision is pinned to a spec-level function of the entry and of an
/// abstraction of the policy's state (its `State`, reached by `abs`), so a
/// whole walk has a computable meaning at that abstract level.
pub trait CrawlHelper: Sized {
    type InfoType;

    type State;

    /// The policy's own well-formedness.
    spec fn inv(&self) -> bool;

    /// The abstraction of the policy's current state that its decisions
    /// depend on.
    spec fn abs(&self) -> Self::State;

    /// The scratch value an entry starts with.
    spec fn spec_new_info() -> Self::InfoType;

    /// What the policy answers for "descend into this directory?".
    spec fn spec_descend(s: Self::State, e: Entry) -> Result<bool, PolicyError>;

    /// The policy's state after an accepted directory, and its answer.
    spec fn spec_dir(s: Self::State, e: Entry) -> (Self::State, Result<(), PolicyError>);

    /// What the policy answers for "process this file?", and the scratch
    /// value it leaves behind for the process step.
    spec fn spec_filter(s: Self::State, e: Entry) -> Result<(bool, Self::InfoType), PolicyError>;

    /// The policy's state after processing a file, and the action it asks
    /// for, if any.
    spec fn spec_process(s: Self::State, e: Entry, info: Self::InfoType) -> (
        Self::State,
        Result<Option<FileActionView>, PolicyError>,
    );

    /// A fresh scratch value for one entry.
    fn new_info(&self) -> (i: Self::InfoType)
        requires
            self.inv(),
        ensures
            i == Self::spec_new_info(),
    ;

    /// Whether the walk should descend into this directory.
    fn should_descend(&self, e: &Entry) -> (r: Result<bool, PolicyError>)
        requires
            self.inv(),
        ensures
            r == Self::spec_descend(self.abs(), *e),
    ;

    /// Called on each directory the walk descends into.
    fn process_directory(&mut self, e: &Entry) -> (r: Result<(), PolicyError>)
        requires
            old(self).inv(),
        ensures
            final(self).inv(),
            (final(self).abs(), r) == Self::spec_dir(old(self).abs(), *e),
    ;

    /// Whether this file should be processed; may record what it learned
    /// in the scratch value.
    fn should_process_file(&self, e: &Entry, info: &mut Self::InfoType) -> (r: Result<
        bool,
        PolicyError,
    >)
        requires
            self.inv(),
            *old(info) == Self::spec_new_info(),
        ensures
            match Self::spec_filter(self.abs(), *e) {
                Ok((b, i2)) => r == Ok::<bool, PolicyError>(b) && *final(info) == i2,
                Err(pe) => r == Err::<bool, PolicyError>(pe),
            },
    ;

    /// Processes an accepted file, using the scratch value the filter step
    /// left behind.
    fn process_file(&mut self, e: &Entry, info: &mut Self::InfoType) -> (r: Result<
        Option<FileAction>,
        PolicyError,
    >)
        requires
            old(self).inv(),
            Self::spec_filter(old(self).abs(), *e) == Ok::<(bool, Self::InfoType), PolicyError>(
                (true, *old(info)),
            ),
        ensures
            final(self).inv(),
            ({
                let (s2, pr) = Self::spec_process(old(self).abs(), *e, *old(info));
                &&& final(self).abs() == s2
                &&& action_res_matches(r, pr)
            }),
    ;
}

/// The depth of an item below the walk's root.
pub open spec fn item_depth(it: WalkItem) -> int {
    match it {
        WalkItem::Entry(e) => e.depth as int,
        WalkItem::Failure { depth, message } => depth as int,
    }
}

/// The first position at or after `i` that is not deeper than `d`: where
/// the walk resumes after refusing to descend into a directory of depth
/// `d`.
pub open spec fn spec_skip_end(items: Seq<WalkItem>, i: int, d: int) -> int
    decreases items.len() - i,
{
    if i < 0 || i >= items.len() {
        items.len() as int
    } else if item_depth(items[i]) > d {
        spec_skip_end(items, i + 1, d)
    } else {
        i
    }
}

/// `spec_skip_end` lands between `i` and the end, everything it skipped
/// was deeper than `d`, and where it lands is not.
pub proof fn lemma_skip_end(items: Seq<WalkItem>, i: int, d: int)
    requires
        0 <= i <= items.len(),
    ensures
        i <= spec_skip_end(items, i, d) <= items.len(),
        forall|j: int| i <= j < spec_skip_end(items, i, d) ==> item_depth(#[trigger] items[j]) > d,
        spec_skip_end(items, i, d) < items.len() ==> item_depth(
            items[spec_skip_end(items, i, d)],
        ) <= d,
    decreases items.len() - i,
{
    if i < items.len() && item_depth(items[i]) > d {
        lemma_skip_end(items, i + 1, d);
    }
}

/// The meaning of a walk from position `i` with abstract policy state
/// `s`: the final abstract state, the actions asked for, and the errors
/// contained.
pub open spec fn spec_crawl_from<H: CrawlHelper>(items: Seq<WalkItem>, i: int, s: H::State) -> (
    H::State,
    Seq<FileActionView>,
    Seq<WalkError>,
)
    decreases items.len() - i,
{
    if i < 0 || i >= items.len() {
        (s, Seq::empty(), Seq::empty())
    } else {
        match items[i] {
            WalkItem::Failure { depth, message } => {
                let (sf, acts, errs) = spec_crawl_from::<H>(items, i + 1, s);
                (sf, acts, seq![WalkError::Enumeration { message }] + errs)
            },
            WalkItem::Entry(e) => match e.kind {
                EntryKind::Vanished => spec_crawl_from::<H>(items, i + 1, s),
                EntryKind::Directory => match H::spec_descend(s, e) {
                    Err(pe) => {
                        let (sf, acts, errs) = spec_crawl_from::<H>(items, i + 1, s);
                        (sf, acts, seq![WalkError::Filter { path: e.path }] + errs)
                    },
                    Ok(false) => {
                        proof {
                            lemma_skip_end(items, i + 1, e.depth as int);
                        }
                        spec_crawl_from::<H>(items, spec_skip_end(items, i + 1, e.depth as int), s)
                    },
                    Ok(true) => {
                        let (s2, dr) = H::spec_dir(s, e);
                        let (sf, acts, errs) = spec_crawl_from::<H>(items, i + 1, s2);
                        match dr {
                            Ok(u) => (sf, acts, errs),
                            Err(pe) => (sf, acts, seq![WalkError::Directory { path: e.path }] + errs),
                        }
                    },
                },
                EntryKind::RegularFile => match H::spec_filter(s, e) {
                    Err(pe) => {
                        let (sf, acts, errs) = spec_crawl_from::<H>(items, i + 1, s);
                        (sf, acts, seq![WalkError::Filter { path: e.path }] + errs)
                    },
                    Ok((false, info)) => spec_crawl_from::<H>(items, i + 1, s),
                    Ok((true, info)) => {
                        let (s2, pr) = H::spec_process(s, e, info);
                        let (sf, acts, errs) = spec_crawl_from::<H>(items, i + 1, s2);
                        match pr {
                            Ok(None) => (sf, acts, errs),
                            Ok(Some(a)) => (sf, seq![a] + acts, errs),
                            Err(pe) => (sf, acts, seq![WalkError::Process { path: e.path }] + errs),
                        }
                    },
                },
            },
        }
    }
}

/// The depth of an item, executable.
fn item_depth_of(it: &WalkItem) -> (r: usize)
    ensures
        r as int == item_depth(*it),
{
    match it {
        WalkItem::Entry(e) => e.depth,
        WalkItem::Failure { depth, message } => *depth,
    }
}

/// The first position at or after `from` not deeper than `d`.
fn skip_past(items: &Vec<WalkItem>, from: usize, d: usize) -> (r: usize)
    requires
        from <= items@.len(),
    ensures
        r == spec_skip_end(items@, from as int, d as int),
        from <= r <= items@.len(),
{
    proof {
        lemma_skip_end(items@, from as int, d as int);
    }
    let n = items.len();
    let mut j = from;
    while j < n && item_depth_of(&items[j]) > d
        invariant
            from <= j <= n,
            n == items@.len(),
            spec_skip_end(items@, from as int, d as int) == spec_skip_end(
                items@,
                j as int,
                d as int,
            ),
        decreases n - j,
    {
        j = j + 1;
    }
    j
}

/// A traversal: the root it was started from, and the policy that drives
/// it.
pub struct Crawler<H: CrawlHelper> {
    path: String,
    helper: H,
}

impl<H: CrawlHelper> Crawler<H> {
    /// The policy driving this traversal.
    pub closed spec fn helper(&self) -> H {
        self.helper
    }

    /// The root this traversal was started from.
    pub closed spec fn root(&self) -> Seq<char> {
        self.path@
    }

    /// A traversal of the tree under `p`, driven by `h`.
    pub fn new(p: String, h: H) -> (c: Crawler<H>)
        ensures
            c.helper() == h,
            c.root() == p@,
    {
        Crawler { path: p, helper: h }
    }

    /// Hands the policy (and whatever it accumulated) back.
    pub fn into_helper(self) -> (h: H)
        ensures
            h == self.helper(),
    {
        self.helper
    }

    /// Walks the enumerated items, consulting the policy at each entry.
    /// The result — actions asked for, errors contained, the policy's end
    /// state — is exactly the spec-level meaning of the walk.
    #[verifier::loop_isolation(false)]
    pub fn crawl(&mut self, items: &Vec<WalkItem>) -> (report: WalkReport)
        requires
            old(self).helper().inv(),
        ensures
            final(self).helper().inv(),
            final(self).root() == old(self).root(),
            ({
                let (sf, acts, errs) = spec_crawl_from::<H>(items@, 0, old(self).helper().abs());
                &&& final(self).helper().abs() == sf
                &&& actions_view(report) == acts
                &&& report.errors@ == errs
            }),
    {
        let ghost s0 = self.helper.abs();
        let mut actions: Vec<FileAction> = Vec::new();
        let mut errors: Vec<WalkError> = Vec::new();
        let n = items.len();
        let mut i: usize = 0;
        while i < n
            invariant
                i <= n,
                self.helper.inv(),
                self.path == old(self).path,
                ({
                    let (sf, af, ef) = spec_crawl_from::<H>(items@, i as int, self.helper.abs());
                    let (sf0, af0, ef0) = spec_crawl_from::<H>(items@, 0, s0);
                    &&& sf0 == sf
                    &&& af0 == actions@.map_values(|a: FileAction| a@) + af
                    &&& ef0 == errors@ + ef
                }),
            decreases n - i,
        {
            let ghost pre_actions = actions@.map_values(|a: FileAction| a@);
            let ghost pre_errors = errors@;
            let ghost s_at = self.helper.abs();
            match &items[i] {
                WalkItem::Failure { depth, message } => {
                    errors.push(WalkError::Enumeration { message: message.clone() });
                    i = i + 1;
                    proof {
                        let (sf, af, ef) = spec_crawl_from::<H>(items@, i as int, self.helper.abs());
                        assert(errors@ =~= pre_errors + seq![
                            WalkError::Enumeration { message: *message },
                        ]);
                        assert(pre_errors + (seq![
                            WalkError::Enumeration { message: *message },
                        ] + ef) =~= errors@ + ef);
                    }
                },
                WalkItem::Entry(e) => {
                    match e.kind {
                        EntryKind::Vanished => {
                            i = i + 1;
                        },
                        EntryKind::Directory => {
                            match self.helper.should_descend(e) {
                                Err(pe) => {
                                    errors.push(WalkError::Filter { path: e.path.clone() });
                                    i = i + 1;
                                    proof {
                                        let (sf, af, ef) = spec_crawl_from::<H>(
                                            items@,
                                            i as int,
                                            self.helper.abs(),
                                        );
                                        assert(errors@ =~= pre_errors + seq![
                                            WalkError::Filter { path: e.path },
                                        ]);
                                        assert(pre_errors + (seq![
                                            WalkError::Filter { path: e.path },
                                        ] + ef) =~= errors@ + ef);
                                    }
                                },
                                Ok(false) => {
                                    i = skip_past(items, i + 1, e.depth);
                                },
                                Ok(true) => {
                                    match self.helper.process_directory(e) {
                                        Ok(u) => {
                                            i = i + 1;
                                        },
                                        Err(pe) => {
                                            errors.push(
                                                WalkError::Directory { path: e.path.clone() },
                                            );
                                            i = i + 1;
                                            proof {
                                                let (sf, af, ef) = spec_crawl_from::<H>(
                                                    items@,
                                                    i as int,
                                                    self.helper.abs(),
                                                );
                                                assert(errors@ =~= pre_errors + seq![
                                                    WalkError::Directory { path: e.path },
                                                ]);
                                                assert(pre_errors + (seq![
                                                    WalkError::Directory { path: e.path },
                                                ] + ef) =~= errors@ + ef);
                                            }
                                        },
                                    }
                                },
                            }
                        },
                        EntryKind::RegularFile => {
                            let mut info = self.helper.new_info();
                            match self.helper.should_process_file(e, &mut info) {
                                Err(pe) => {
                                    errors.push(WalkError::Filter { path: e.path.clone() });
                                    i = i + 1;
                                    proof {
                                        let (sf, af, ef) = spec_crawl_from::<H>(
                                            items@,
                                            i as int,
                                            self.helper.abs(),
                                        );
                                        assert(errors@ =~= pre_errors + seq![
                                            WalkError::Filter { path: e.path },
                                        ]);
                                        assert(pre_errors + (seq![
                                            WalkError::Filter { path: e.path },
                                        ] + ef) =~= errors@ + ef);
                                    }
                                },
                                Ok(false) => {
                                    i = i + 1;
                                },
                                Ok(true) => {
                                    match self.helper.process_file(e, &mut info) {
                                        Ok(None) => {
                                            i = i + 1;
                                        },
                                        Ok(Some(a)) => {
                                            let ghost av = a@;
                                            actions.push(a);
                                            i = i + 1;
                                            proof {
                                                let (sf, af, ef) = spec_crawl_from::<H>(
                                                    items@,
                                                    i as int,
                                                    self.helper.abs(),
                                                );
                                                assert(actions@.map_values(|x: FileAction| x@)
                                                    =~= pre_actions + seq![av]);
                                                assert(pre_actions + (seq![av] + af)
                                                    =~= actions@.map_values(|x: FileAction| x@)
                                                    + af);
                                            }
                                        },
                                        Err(pe) => {
                                            errors.push(
                                                WalkError::Process { path: e.path.clone() },
                                            );
                                            i = i + 1;
                                            proof {
                                                let (sf, af, ef) = spec_crawl_from::<H>(
                                                    items@,
                                                    i as int,
                                                    self.helper.abs(),
                                                );
                                                assert(errors@ =~= pre_errors + seq![
                                                    WalkError::Process { path: e.path },
                                                ]);
                                                assert(pre_errors + (seq![
                                                    WalkError::Process { path: e.path },
                                                ] + ef) =~= errors@ + ef);
                                            }
                                        },
                                    }
                                },
                            }
                        },
                    }
                },
            }
        }
        WalkReport { actions, errors }
    }
}


/// The meaning of walking several roots in turn with one policy: the
/// abstract state is threaded through, the actions and errors accumulate
/// in order.
pub open spec fn spec_walks<H: CrawlHelper>(walks: Seq<Seq<WalkItem>>, s: H::State) -> (
    H::State,
    Seq<FileActionView>,
    Seq<WalkError>,
)
    decreases walks.len(),
{
    if walks.len() == 0 {
        (s, Seq::empty(), Seq::empty())
    } else {
        let (s1, a1, e1) = spec_crawl_from::<H>(walks[0], 0, s);
        let (sf, af, ef) = spec_walks::<H>(walks.drop_first(), s1);
        (sf, a1 + af, e1 + ef)
    }
}

/// Walks one enumerated item list per root directory, in order, with one
/// policy, and combines the reports.
pub fn crawl_roots<H: CrawlHelper>(dirs: &Vec<String>, walks: &Vec<Vec<WalkItem>>, helper: H) -> (r:
    (H, WalkReport))
    requires
        helper.inv(),
        walks@.len() == dirs@.len(),
    ensures
        r.0.inv(),
        ({
            let (sf, af, ef) = spec_walks::<H>(
                walks@.map_values(|w: Vec<WalkItem>| w@),
                helper.abs(),
            );
            &&& r.0.abs() == sf
            &&& actions_view(r.1) == af
            &&& r.1.errors@ == ef
        }),
{
    let ghost walk_views = walks@.map_values(|w: Vec<WalkItem>| w@);
    let ghost s0 = helper.abs();
    let mut helper = helper;
    let mut actions: Vec<FileAction> = Vec::new();
    let mut errors: Vec<WalkError> = Vec::new();
    let n = walks.len();
    let mut i: usize = 0;
    proof {
        assert(walk_views.subrange(0, n as int) =~= walk_views);
        let (sf, af, ef) = spec_walks::<H>(walk_views, s0);
        assert(actions@.map_values(|a: FileAction| a@) =~= Seq::<FileActionView>::empty());
        assert(Seq::<FileActionView>::empty() + af =~= af);
        assert(Seq::<WalkError>::empty() + ef =~= ef);
    }
    while i < n
        invariant
            i <= n,
            n == walks@.len(),
            walks@.len() == dirs@.len(),
            walk_views == walks@.map_values(|w: Vec<WalkItem>| w@),
            helper.inv(),
            ({
                let (sf, af, ef) = spec_walks::<H>(
                    walk_views.subrange(i as int, n as int),
                    helper.abs(),
                );
                let (sf0, af0, ef0) = spec_walks::<H>(walk_views, s0);
                &&& sf0 == sf
                &&& af0 == actions@.map_values(|a: FileAction| a@) + af
                &&& ef0 == errors@ + ef
            }),
        decreases n - i,
    {
        let ghost pre_actions = actions@.map_values(|a: FileAction| a@);
        let ghost pre_errors = errors@;
        let ghost s_at = helper.abs();
        let dir = &dirs[i];
        let mut crawler = Crawler::new(dir.clone(), helper);
        let mut report = crawler.crawl(&walks[i]);
        helper = crawler.into_helper();
        actions.append(&mut report.actions);
        errors.append(&mut report.errors);
        i = i + 1;
        proof {
            let rest_before = walk_views.subrange(i - 1, n as int);
            let rest_after = walk_views.subrange(i as int, n as int);
            assert(rest_before[0] == walk_views[i - 1]);
            assert(rest_before.drop_first() =~= rest_after);
            let (s1, a1, e1) = spec_crawl_from::<H>(walk_views[i - 1], 0, s_at);
            let (sf, af, ef) = spec_walks::<H>(rest_after, helper.abs());
            assert(actions@.map_values(|a: FileAction| a@) =~= pre_actions + a1);
            assert(errors@ =~= pre_errors + e1);
            assert(pre_actions + (a1 + af) =~= (pre_actions + a1) + af);
            assert(pre_errors + (e1 + ef) =~= (pre_errors + e1) + ef);
        }
    }
    proof {
        assert(walk_views.subrange(n as int, n as int) =~= Seq::<Seq<WalkItem>>::empty());
    }
    (helper, WalkReport { actions, errors })
}

} // verus!
