use imtlib::addext::{process_addext, AddExt};
use imtlib::command::{process_command, Command};
use imtlib::crawler::{Entry, EntryData, EntryKind, FileAction, WalkError, WalkItem};
use imtlib::digest::Hasher;
use imtlib::filer::shared::SharedFiler;
use imtlib::finddups::{look_for_dups, process_finddups, record_digest, FindDups};

fn dir_entry(path: &str, depth: usize) -> WalkItem {
    WalkItem::Entry(Entry {
        path: path.to_string(),
        depth,
        kind: EntryKind::Directory,
        data: EntryData::none(),
    })
}

fn file_entry(path: &str, depth: usize, head: Option<Vec<u8>>, tail: Option<Vec<u8>>) -> WalkItem {
    WalkItem::Entry(Entry {
        path: path.to_string(),
        depth,
        kind: EntryKind::RegularFile,
        data: EntryData { head, tail },
    })
}

fn jpeg_head() -> Vec<u8> {
    vec![0xff, 0xd8, 0xff, 0xe0, 0x00, 0x10, 0x4a, 0x46, 0x49, 0x46]
}

fn jpeg_tail() -> Vec<u8> {
    vec![0xff, 0xd9]
}

fn png_head() -> Vec<u8> {
    vec![0x89, 0x50, 0x4e, 0x47, 0x0d, 0x0a, 0x1a, 0x0a, 0x00, 0x0d]
}

fn text_head() -> Vec<u8> {
    vec![b'h', b'e', b'l', b'l', b'o', b' ', b't', b'h', b'e', b'r']
}

fn text_tail() -> Vec<u8> {
    vec![b'e', b'\n']
}

/// One unreadable file among readable ones: the walk still visits every
/// readable file and reports exactly one error for the failure.
#[test]
fn error_isolation() {
    let walk = vec![
        dir_entry("root", 0),
        file_entry("root/f1", 1, None, None),
        WalkItem::Failure {
            depth: 1,
            message: "permission denied".to_string(),
        },
        file_entry("root/f2", 1, None, None),
        file_entry("root/f3", 1, None, None),
    ];
    let fd = FindDups {
        directories: vec!["root".to_string()],
    };
    let filer = SharedFiler::new_basic();
    let (_filer, report) = process_finddups(&fd, &vec![walk], filer);

    assert_eq!(1, report.errors.len());
    assert!(matches!(&report.errors[0], WalkError::Enumeration { .. }));
    let digested: Vec<String> = report
        .actions
        .iter()
        .map(|a| match a {
            FileAction::ComputeDigest { path } => path.clone(),
            other => panic!("unexpected action: {:?}", other),
        })
        .collect();
    assert_eq!(vec!["root/f1", "root/f2", "root/f3"], digested);
}

/// A policy that rejects hidden directories never processes anything in
/// them, however deep.
#[test]
fn descend_suppression() {
    let walk = vec![
        dir_entry("root", 0),
        dir_entry("root/.hid", 1),
        file_entry("root/.hid/img", 2, Some(jpeg_head()), Some(jpeg_tail())),
        dir_entry("root/.hid/deeper", 2),
        file_entry("root/.hid/deeper/img2", 3, Some(jpeg_head()), Some(jpeg_tail())),
        file_entry("root/visible", 1, Some(jpeg_head()), Some(jpeg_tail())),
    ];
    let ae = AddExt {
        dry_run: true,
        directories: vec!["root".to_string()],
    };
    let filer = SharedFiler::new_basic();
    let (_filer, report) = process_addext(&ae, &vec![walk], filer);

    assert_eq!(0, report.errors.len());
    assert_eq!(1, report.actions.len());
    assert_eq!(
        FileAction::Rename {
            from: "root/visible".to_string(),
            to: "root/visible.jpg".to_string(),
        },
        report.actions[0]
    );
}

/// The extension-repair walk over a directory of four files asks for
/// exactly two renames: the extension-less JPEG and PNG files; the file
/// that already has an extension and the text file are untouched, and in
/// dry-run mode nothing actually happens — the actions are only reported.
#[test]
fn addext_end_to_end() {
    let walk = vec![
        dir_entry("root", 0),
        file_entry("root/a.jpg", 1, None, None),
        file_entry("root/b", 1, Some(jpeg_head()), Some(jpeg_tail())),
        file_entry("root/c", 1, Some(png_head()), Some(vec![0x0a, 0x1a])),
        file_entry("root/d.txt", 1, Some(text_head()), Some(text_tail())),
    ];
    let ae = AddExt {
        dry_run: true,
        directories: vec!["root".to_string()],
    };
    let filer = SharedFiler::new_basic();
    let (filer, report) = process_addext(&ae, &vec![walk], filer);

    assert_eq!(0, report.errors.len());
    assert_eq!(
        vec![
            FileAction::Rename {
                from: "root/b".to_string(),
                to: "root/b.jpg".to_string(),
            },
            FileAction::Rename {
                from: "root/c".to_string(),
                to: "root/c.png".to_string(),
            },
        ],
        report.actions
    );
    // the processed files were registered in the cache
    assert!(filer.file_known("root/b"));
    assert!(filer.file_known("root/c"));
    assert!(!filer.file_known("root/d.txt"));
}

/// Two files with identical content and one with different content:
/// after the walk, digest computation and grouping, there is exactly one
/// group, of the two identical files, and the third file is in no group.
#[test]
fn duplicate_finder_end_to_end() {
    let same: &[u8] = b"identical content";
    let different: &[u8] = b"something else";

    let walk = vec![
        dir_entry("root", 0),
        file_entry("root/f1", 1, None, None),
        file_entry("root/f2", 1, None, None),
        file_entry("root/f3", 1, None, None),
    ];
    let fd = FindDups {
        directories: vec!["root".to_string()],
    };
    let filer = SharedFiler::new_basic();
    let (mut filer, report) = process_finddups(&fd, &vec![walk], filer);
    assert_eq!(0, report.errors.len());
    assert_eq!(3, report.actions.len());

    for action in &report.actions {
        let path = match action {
            FileAction::ComputeDigest { path } => path.clone(),
            other => panic!("unexpected action: {:?}", other),
        };
        let content: &[u8] = if path == "root/f3" { different } else { same };
        let mut hasher = Hasher::new();
        hasher.update(content);
        let hex = hasher.finish_hex();
        record_digest(&mut filer, &path, &hex);
    }

    let dups = look_for_dups(&filer);
    assert_eq!(1, dups.len());
    assert_eq!(vec!["root/f1".to_string(), "root/f2".to_string()], dups[0]);
}

/// A file whose digest the cache already holds is not asked for again:
/// the memoization that makes a second scan cheap.
#[test]
fn finddups_skips_cached_digests() {
    let walk = vec![
        dir_entry("root", 0),
        file_entry("root/f1", 1, None, None),
        file_entry("root/f2", 1, None, None),
    ];
    let fd = FindDups {
        directories: vec!["root".to_string()],
    };
    let mut filer = SharedFiler::new_basic();
    record_digest(&mut filer, "root/f1", "cafe");
    let (_filer, report) = process_finddups(&fd, &vec![walk], filer);

    assert_eq!(0, report.errors.len());
    assert_eq!(
        vec![FileAction::ComputeDigest {
            path: "root/f2".to_string(),
        }],
        report.actions
    );
}

/// A vanished file (gone between enumeration and inspection) is skipped
/// silently: no action, no error.
#[test]
fn vanished_entries_are_silent() {
    let walk = vec![
        dir_entry("root", 0),
        WalkItem::Entry(Entry {
            path: "root/gone".to_string(),
            depth: 1,
            kind: EntryKind::Vanished,
            data: EntryData::none(),
        }),
    ];
    let fd = FindDups {
        directories: vec!["root".to_string()],
    };
    let filer = SharedFiler::new_basic();
    let (_filer, report) = process_finddups(&fd, &vec![walk], filer);
    assert_eq!(0, report.errors.len());
    assert_eq!(0, report.actions.len());
}

/// The command dispatcher runs the chosen policy.
#[test]
fn command_dispatch() {
    let walk = vec![
        dir_entry("root", 0),
        file_entry("root/b", 1, Some(jpeg_head()), Some(jpeg_tail())),
    ];
    let ae = AddExt {
        dry_run: true,
        directories: vec!["root".to_string()],
    };
    let filer = SharedFiler::new_basic();
    let (_filer, report) = process_command(Command::AddExt(ae), &vec![walk.clone()], filer);
    assert_eq!(1, report.actions.len());

    let fd = FindDups {
        directories: vec!["root".to_string()],
    };
    let filer = SharedFiler::new_basic();
    let (_filer, report) = process_command(Command::FindDups(fd), &vec![walk], filer);
    assert_eq!(
        vec![FileAction::ComputeDigest {
            path: "root/b".to_string(),
        }],
        report.actions
    );
}

/// An unreadable extension-less file cannot be classified; the
/// extension-repair policy passes it over without an action.
#[test]
fn addext_unreadable_file_is_skipped() {
    let walk = vec![
        dir_entry("root", 0),
        file_entry("root/b", 1, None, None),
        file_entry("root/c", 1, Some(png_head()), Some(vec![0x00, 0x00])),
    ];
    let ae = AddExt {
        dry_run: false,
        directories: vec!["root".to_string()],
    };
    let filer = SharedFiler::new_basic();
    let (_filer, report) = process_addext(&ae, &vec![walk], filer);
    assert_eq!(0, report.errors.len());
    assert_eq!(
        vec![FileAction::Rename {
            from: "root/c".to_string(),
            to: "root/c.png".to_string(),
        }],
        report.actions
    );
}

/// Several root directories are walked in order against one cache.
#[test]
fn multiple_roots_share_one_cache() {
    let walk1 = vec![
        dir_entry("one", 0),
        file_entry("one/x", 1, Some(jpeg_head()), Some(jpeg_tail())),
    ];
    let walk2 = vec![
        dir_entry("two", 0),
        file_entry("two/y", 1, Some(png_head()), Some(vec![0x00, 0x00])),
    ];
    let ae = AddExt {
        dry_run: true,
        directories: vec!["one".to_string(), "two".to_string()],
    };
    let filer = SharedFiler::new_basic();
    let (filer, report) = process_addext(&ae, &vec![walk1, walk2], filer);

    assert_eq!(0, report.errors.len());
    assert_eq!(
        vec![
            FileAction::Rename {
                from: "one/x".to_string(),
                to: "one/x.jpg".to_string(),
            },
            FileAction::Rename {
                from: "two/y".to_string(),
                to: "two/y.png".to_string(),
            },
        ],
        report.actions
    );
    assert!(filer.file_known("one/x"));
    assert!(filer.file_known("two/y"));
    assert_eq!(vec!["one/x".to_string(), "two/y".to_string()], filer.files_iter());
}
