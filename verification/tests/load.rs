use markfs::metadata::FileVersion;
use markfs::metadata::INode;
use markfs::metadata::INodeKind;
use markfs::metadata::Metadata;
use markfs::metadata::Timespec;
use markfs::types::action::ErrorKind;

fn t(sec: i64) -> Timespec {
    Timespec { sec, nsec: 1 }
}

fn s(text: &str) -> String {
    text.to_string()
}

fn dir(ino: u64, id: &str, parent: &str, name: &str) -> INode {
    INode {
        ino,
        id: s(id),
        parent: s(parent),
        name: s(name),
        kind: INodeKind::Directory,
        size: 0,
        atime: t(1),
        mtime: t(2),
        ctime: t(3),
        crtime: t(4),
        nlink: 1,
        current_version: 0,
    }
}

fn file(ino: u64, id: &str, parent: &str, name: &str, current: u64) -> INode {
    INode {
        ino,
        id: s(id),
        parent: s(parent),
        name: s(name),
        kind: INodeKind::RegularFile,
        size: 0,
        atime: t(1),
        mtime: t(2),
        ctime: t(3),
        crtime: t(4),
        nlink: 1,
        current_version: current,
    }
}

fn version(id: &str, version: u64, source: u64, size: u64) -> FileVersion {
    FileVersion { id: s(id), version, source_version: source, size, hash: s("h") }
}

/// root / a / f with two versions, root / b.
fn rows() -> Vec<INode> {
    vec![
        dir(1, "r", "r", ""),
        dir(5, "a", "r", "a"),
        file(3, "f", "a", "f", 2),
        dir(9, "b", "r", "b"),
    ]
}

fn versions() -> Vec<FileVersion> {
    vec![version("f", 1, 0, 10), version("f", 2, 1, 20)]
}

fn loads(rows: Vec<INode>, versions: Vec<FileVersion>) -> bool {
    Metadata::load(rows, versions).is_some()
}

#[test]
fn a_table_is_taken_up_as_it_was_kept() {
    let table = Metadata::load(rows(), versions()).unwrap();
    let all = table.inodes();
    assert_eq!(all.len(), 4);
    assert_eq!(all[2].id, "f");
    assert_eq!(all[2].ino, 3);
    assert_eq!(all[2].mtime, t(2));
    // The size comes from the store, whatever the kept inode said.
    assert_eq!(all[2].size, 20);
    assert_eq!(table.versions().len(), 2);
    assert_eq!(table.path_names(&s("f")).unwrap(), vec![s("a"), s("f")]);
    assert_eq!(table.get_children(&s("r")).len(), 2);
}

#[test]
fn a_loaded_table_goes_on_after_the_highest_number() {
    let mut table = Metadata::load(rows(), versions()).unwrap();
    let made = table.create_dir(&s("b"), &s("c"), s("c"), t(9)).unwrap();
    assert_eq!(made.ino, 10);
    assert_eq!(table.append_version(&s("f"), 5, s("x"), 2).unwrap(), 3);
}

#[test]
fn what_a_table_hands_out_can_be_taken_up_again() {
    let mut table = Metadata::new(s("root"), t(1));
    table.create_dir(&s("root"), &s("a"), s("a"), t(2)).unwrap();
    table.create_dir(&s("root"), &s("b"), s("b"), t(2)).unwrap();
    table.create_file(&s("b"), &s("f"), s("f"), t(3), 7, s("h")).unwrap();
    table.append_version(&s("f"), 8, s("i"), 1).unwrap();
    table.rename(&s("a"), &s("b"), &s("under"), t(4)).unwrap();
    let again = Metadata::load(table.inodes(), table.versions()).unwrap();
    let left: Vec<(u64, String, String, String, u64)> = table
        .inodes()
        .iter()
        .map(|n| (n.ino, n.id.clone(), n.parent.clone(), n.name.clone(), n.size))
        .collect();
    let right: Vec<(u64, String, String, String, u64)> = again
        .inodes()
        .iter()
        .map(|n| (n.ino, n.id.clone(), n.parent.clone(), n.name.clone(), n.size))
        .collect();
    assert_eq!(left, right);
    assert_eq!(again.versions().len(), 2);
}

#[test]
fn a_table_without_a_proper_root_is_not_taken_up() {
    assert!(!loads(vec![], vec![]));
    assert!(!loads(vec![dir(2, "r", "r", "")], vec![]));
    assert!(!loads(vec![dir(1, "r", "x", "")], vec![]));
    assert!(!loads(vec![dir(1, "r", "r", "root")], vec![]));
    assert!(!loads(vec![file(1, "r", "r", "", 0)], vec![]));
    let mut moved = rows();
    moved.swap(0, 1);
    assert!(!loads(moved, versions()));
    assert!(loads(vec![dir(1, "r", "r", "")], vec![]));
}

#[test]
fn numbers_identities_and_names_are_in_use_once() {
    let mut twice = rows();
    twice[3].ino = 5;
    assert!(!loads(twice, versions()));
    let mut twice = rows();
    twice[3].id = s("a");
    assert!(!loads(twice, versions()));
    let mut twice = rows();
    twice[3].name = s("a");
    assert!(!loads(twice, versions()));
    let mut zero = rows();
    zero[3].ino = 0;
    assert!(!loads(zero, versions()));
    let mut last = rows();
    last[3].ino = u64::MAX;
    assert!(!loads(last, versions()));
    let mut nearly = rows();
    nearly[3].ino = u64::MAX - 1;
    assert!(loads(nearly, versions()));
    // The same name in another directory is another entry.
    let mut same = rows();
    same[3].name = s("f");
    assert!(loads(same, versions()));
}

#[test]
fn parents_are_directories_of_the_table() {
    let mut orphan = rows();
    orphan[3].parent = s("nobody");
    assert!(!loads(orphan, versions()));
    let mut under_file = rows();
    under_file[3].parent = s("f");
    assert!(!loads(under_file, versions()));
    let mut own = rows();
    own[3].parent = s("b");
    assert!(!loads(own, versions()));
}

#[test]
fn a_cycle_of_parents_is_not_taken_up() {
    let mut cycle = rows();
    cycle[1].parent = s("b");
    cycle[3].parent = s("a");
    assert!(!loads(cycle, versions()));
    // A long chain is none.
    let mut chain = vec![dir(1, "r", "r", "")];
    let mut parent = s("r");
    for ino in 2..40u64 {
        let id = format!("d{}", ino);
        chain.push(dir(ino, &id, &parent, "n"));
        parent = id;
    }
    chain.reverse();
    let root = chain.pop().unwrap();
    chain.insert(0, root);
    assert!(loads(chain, vec![]));
}

#[test]
fn versions_fit_the_files() {
    let mut none = rows();
    none[2].current_version = 3;
    assert!(!loads(none, versions()));
    let mut unset = rows();
    unset[2].current_version = 0;
    assert!(!loads(unset, versions()));
    let mut versioned_dir = rows();
    versioned_dir[3].current_version = 1;
    assert!(!loads(versioned_dir, versions()));

    assert!(!loads(rows(), vec![version("f", 1, 0, 10)]));
    assert!(!loads(rows(), vec![version("f", 2, 1, 20)]));
    assert!(!loads(rows(), vec![version("f", 1, 0, 1), version("f", 2, 2, 1)]));
    assert!(!loads(rows(), vec![version("f", 1, 0, 1), version("f", 2, 3, 1)]));
    assert!(!loads(rows(), vec![version("f", 0, 0, 1), version("f", 2, 0, 1)]));
    assert!(!loads(
        rows(),
        vec![version("f", 1, 0, 1), version("f", 2, 1, 1), version("f", 2, 1, 1)]
    ));
    assert!(!loads(
        rows(),
        vec![version("f", 1, 0, 1), version("f", 2, 1, 1), version("a", 1, 0, 1)]
    ));
    assert!(!loads(
        rows(),
        vec![version("f", 1, 0, 1), version("f", 2, 1, 1), version("zz", 1, 0, 1)]
    ));
    // The order in the store is free, and so is a gap in the numbers.
    assert!(loads(rows(), vec![version("f", 2, 1, 1), version("f", 1, 0, 1)]));
    assert!(loads(rows(), vec![version("f", 2, 0, 1), version("f", 7, 2, 1)]));
}

#[test]
fn numbers_that_are_used_up_leave_no_space() {
    let mut last = rows();
    last[3].ino = u64::MAX - 1;
    let mut table = Metadata::load(last, versions()).unwrap();
    let refused = table.create_dir(&s("r"), &s("more"), s("m"), t(9));
    assert_eq!(refused.err().unwrap().get_kind(), ErrorKind::NoSpaceLeftOnDevice);
    let refused = table.create_file(&s("r"), &s("more"), s("m"), t(9), 1, s("h"));
    assert_eq!(refused.err().unwrap().get_kind(), ErrorKind::NoSpaceLeftOnDevice);
    assert_eq!(table.inodes().len(), 4);

    let full = vec![version("f", 2, 0, 1), version("f", u64::MAX, 2, 1)];
    let mut table = Metadata::load(rows(), full).unwrap();
    let refused = table.append_version(&s("f"), 1, s("h"), 2);
    assert_eq!(refused.err().unwrap().get_kind(), ErrorKind::NoSpaceLeftOnDevice);
    assert_eq!(table.versions().len(), 2);
}
