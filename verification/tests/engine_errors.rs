use imtlib::crawler::{
    CrawlHelper, Crawler, Entry, EntryData, EntryKind, FileAction, PolicyError, WalkError,
    WalkItem,
};

/// A policy whose decisions fail on chosen paths, for exercising the
/// engine's error containment: a failure in any phase is reported for
/// that entry alone and the walk carries on.
struct Brittle;

impl CrawlHelper for Brittle {
    type InfoType = ();
    type State = ();

    // The specification-level items of the trait survive compilation as
    // ordinary trait members but are never called at run time; inert
    // bodies satisfy the compiler.
    fn inv(&self) -> bool {
        true
    }

    fn abs(&self) -> () {
        ()
    }

    fn spec_new_info() -> () {
        ()
    }

    fn spec_descend(_s: (), _e: Entry) -> Result<bool, PolicyError> {
        Ok(true)
    }

    fn spec_dir(s: (), _e: Entry) -> ((), Result<(), PolicyError>) {
        (s, Ok(()))
    }

    fn spec_filter(_s: (), _e: Entry) -> Result<(bool, ()), PolicyError> {
        Ok((true, ()))
    }

    fn spec_process(
        s: (),
        _e: Entry,
        _info: (),
    ) -> ((), Result<Option<imtlib::crawler::FileActionView>, PolicyError>) {
        (s, Ok(None))
    }

    fn new_info(&self) -> () {
        ()
    }

    fn should_descend(&self, e: &Entry) -> Result<bool, PolicyError> {
        if e.path.ends_with("baddir") {
            Err(PolicyError)
        } else {
            Ok(true)
        }
    }

    fn process_directory(&mut self, e: &Entry) -> Result<(), PolicyError> {
        if e.path.ends_with("dirfail") {
            Err(PolicyError)
        } else {
            Ok(())
        }
    }

    fn should_process_file(&self, e: &Entry, _info: &mut ()) -> Result<bool, PolicyError> {
        if e.path.ends_with("filterfail") {
            Err(PolicyError)
        } else {
            Ok(true)
        }
    }

    fn process_file(&mut self, e: &Entry, _info: &mut ()) -> Result<Option<FileAction>, PolicyError> {
        if e.path.ends_with("processfail") {
            Err(PolicyError)
        } else {
            Ok(Some(FileAction::ComputeDigest { path: e.path.clone() }))
        }
    }
}

fn dir(path: &str, depth: usize) -> WalkItem {
    WalkItem::Entry(Entry {
        path: path.to_string(),
        depth,
        kind: EntryKind::Directory,
        data: EntryData::none(),
    })
}

fn file(path: &str, depth: usize) -> WalkItem {
    WalkItem::Entry(Entry {
        path: path.to_string(),
        depth,
        kind: EntryKind::RegularFile,
        data: EntryData::none(),
    })
}

/// Each phase's failure is contained: the walk reports it for the one
/// entry and still processes everything else.
#[test]
fn failures_are_contained_per_phase() {
    let items = vec![
        dir("root", 0),
        file("root/a", 1),
        file("root/filterfail", 1),
        file("root/processfail", 1),
        dir("root/dirfail", 1),
        file("root/dirfail/inside", 2),
        file("root/b", 1),
    ];
    let mut crawler = Crawler::new("root".to_string(), Brittle);
    let report = crawler.crawl(&items);

    assert_eq!(
        vec![
            WalkError::Filter { path: "root/filterfail".to_string() },
            WalkError::Process { path: "root/processfail".to_string() },
            WalkError::Directory { path: "root/dirfail".to_string() },
        ],
        report.errors
    );
    // every file whose process step succeeded was still processed,
    // including the one below the directory whose own callback failed
    let processed: Vec<String> = report
        .actions
        .iter()
        .map(|a| match a {
            FileAction::ComputeDigest { path } => path.clone(),
            other => panic!("unexpected action: {:?}", other),
        })
        .collect();
    assert_eq!(
        vec!["root/a", "root/dirfail/inside", "root/b"],
        processed
    );
}

/// An erring descend decision reports the directory and the walk goes on
/// below it, as if the decision had been to descend.
#[test]
fn descend_error_still_descends() {
    let items = vec![
        dir("root", 0),
        dir("root/baddir", 1),
        file("root/baddir/inside", 2),
    ];
    let mut crawler = Crawler::new("root".to_string(), Brittle);
    let report = crawler.crawl(&items);
    assert_eq!(
        vec![WalkError::Filter { path: "root/baddir".to_string() }],
        report.errors
    );
    assert_eq!(1, report.actions.len());
}
