use checkstyle::walker::{all_files, DirEntry, EntryKind, TreeWalk};

fn entry(path: &str, kind: EntryKind) -> DirEntry {
    DirEntry::new(path.to_string(), kind)
}

/// Runs a walk over a tree given as the listing of each directory; a
/// directory missing from `listings` cannot be read.
fn walk(root: &str, listings: &[(&str, Vec<(&str, EntryKind)>)]) -> Vec<String> {
    let mut walk = TreeWalk::new(root.to_string());
    while let Some(dir) = walk.next_directory() {
        let listing = listings.iter().find(|(d, _)| *d == dir).map(|(_, es)| {
            es.iter().map(|(p, k)| entry(p, *k)).collect::<Vec<DirEntry>>()
        });
        walk.record_listing(listing);
    }
    assert!(walk.is_done());
    all_files(walk)
}

#[test]
fn walk_collects_regular_files_of_every_level() {
    let mut files = walk(
        "root",
        &[
            (
                "root",
                vec![("root/a.kt", EntryKind::File), ("root/sub", EntryKind::Directory)],
            ),
            (
                "root/sub",
                vec![("root/sub/b.kt", EntryKind::File), ("root/sub/deep", EntryKind::Directory)],
            ),
            ("root/sub/deep", vec![("root/sub/deep/c.kt", EntryKind::File)]),
        ],
    );
    files.sort();
    assert_eq!(files, vec!["root/a.kt", "root/sub/b.kt", "root/sub/deep/c.kt"]);
}

#[test]
fn walk_skips_symlinks_and_other_entries() {
    let files = walk(
        "root",
        &[
            (
                "root",
                vec![
                    ("root/link_to_file", EntryKind::Symlink),
                    ("root/link_to_dir", EntryKind::Symlink),
                    ("root/fifo", EntryKind::Other),
                    ("root/a.kt", EntryKind::File),
                ],
            ),
            ("root/link_to_dir", vec![("root/link_to_dir/x.kt", EntryKind::File)]),
        ],
    );
    assert_eq!(files, vec!["root/a.kt"]);
}

#[test]
fn walk_never_returns_directories() {
    let files = walk(
        "root",
        &[("root", vec![("root/empty", EntryKind::Directory)]), ("root/empty", vec![])],
    );
    assert!(files.is_empty());
}

#[test]
fn unreadable_subtree_is_dropped() {
    let files = walk(
        "root",
        &[(
            "root",
            vec![("root/locked", EntryKind::Directory), ("root/a.kt", EntryKind::File)],
        )],
    );
    assert_eq!(files, vec!["root/a.kt"]);
}

#[test]
fn unreadable_root_gives_no_files() {
    assert!(walk("missing", &[]).is_empty());
}

#[test]
fn next_directory_hands_out_pending_directories() {
    let mut w = TreeWalk::new("root".to_string());
    assert!(!w.is_done());
    assert_eq!(w.next_directory(), Some("root".to_string()));
    assert!(w.is_done());
    assert_eq!(w.next_directory(), None);
    w.record_listing(Some(vec![entry("root/d", EntryKind::Directory)]));
    assert_eq!(w.next_directory(), Some("root/d".to_string()));
    w.record_listing(None);
    assert!(w.is_done());
}
