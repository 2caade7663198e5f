use markfs::metadata::INodeKind;
use markfs::metadata::Metadata;
use markfs::metadata::Timespec;
use markfs::metadata::NO_VERSION;
use markfs::types::action::ActionError;
use markfs::types::action::ErrorKind;

fn at(sec: i64) -> Timespec {
    Timespec { sec, nsec: 0 }
}

fn table() -> Metadata {
    Metadata::new("root".to_string(), at(100))
}

fn s(text: &str) -> String {
    text.to_string()
}

fn kind_of<T>(reply: Result<T, ActionError>) -> ErrorKind {
    match reply {
        Ok(_) => panic!("the operation was expected to fail"),
        Err(e) => e.get_kind(),
    }
}

/// root / world / hello.txt, as a small tree to work on.
fn sample() -> Metadata {
    let mut table = table();
    table.create_dir(&s("root"), &s("world"), s("w"), at(101)).unwrap();
    table.create_file(&s("w"), &s("hello.txt"), s("h"), at(102), 13, s("abc")).unwrap();
    table
}

#[test]
fn new_table_holds_the_root_alone() {
    let table = table();
    let all = table.inodes();
    assert_eq!(all.len(), 1);
    let root = table.get_by_ino(1).unwrap();
    assert_eq!(root.ino, 1);
    assert_eq!(root.id, "root");
    assert_eq!(root.parent, "root");
    assert_eq!(root.name, "");
    assert_eq!(root.kind, INodeKind::Directory);
    assert_eq!(root.size, 0);
    assert_eq!(root.nlink, 2);
    assert_eq!(root.current_version, NO_VERSION);
    assert_eq!(root.atime, at(100));
    assert_eq!(root.mtime, at(100));
    assert_eq!(root.ctime, at(100));
    assert_eq!(root.crtime, at(100));
    assert!(table.versions().is_empty());
    assert!(table.get_children(&s("root")).is_empty());
    assert!(table.get_by_ino(0).is_none());
    assert!(table.get_by_ino(2).is_none());
    assert!(table.get_by_id(&s("nobody")).is_none());
}

#[test]
fn lookup_of_the_empty_name_under_the_root_is_the_root() {
    let table = table();
    assert_eq!(table.lookup(&s("root"), &s("")).unwrap().ino, 1);
    assert!(table.lookup(&s("root"), &s("a")).is_none());
}

#[test]
fn create_dir_hands_out_numbers_in_turn() {
    let mut table = table();
    let a = table.create_dir(&s("root"), &s("a"), s("id-a"), at(5)).unwrap();
    let b = table.create_dir(&s("id-a"), &s("b"), s("id-b"), at(6)).unwrap();
    assert_eq!(a.ino, 2);
    assert_eq!(b.ino, 3);
    assert_eq!(a.kind, INodeKind::Directory);
    assert_eq!(a.parent, "root");
    assert_eq!(a.name, "a");
    assert_eq!(a.size, 0);
    assert_eq!(a.nlink, 1);
    assert_eq!(a.crtime, at(5));
    assert_eq!(a.current_version, NO_VERSION);
    assert_eq!(table.get_by_id(&s("id-b")).unwrap().parent, "id-a");
    assert_eq!(table.lookup(&s("id-a"), &s("b")).unwrap().ino, 3);
    assert!(table.contains_id(&s("id-a")));
    assert!(!table.contains_id(&s("id-c")));
}

#[test]
fn create_dir_is_refused_for_each_reason() {
    let mut table = sample();
    assert_eq!(
        kind_of(table.create_dir(&s("nobody"), &s("x"), s("n1"), at(1))),
        ErrorKind::NoEntry
    );
    assert_eq!(
        kind_of(table.create_dir(&s("h"), &s("x"), s("n1"), at(1))),
        ErrorKind::NotADirectory
    );
    assert_eq!(
        kind_of(table.create_dir(&s("root"), &s("world"), s("n1"), at(1))),
        ErrorKind::FileExists
    );
    assert_eq!(
        kind_of(table.create_dir(&s("root"), &s(""), s("n1"), at(1))),
        ErrorKind::FileExists
    );
    assert_eq!(
        kind_of(table.create_dir(&s("root"), &s("x"), s("w"), at(1))),
        ErrorKind::Conflict
    );
    assert_eq!(table.inodes().len(), 3);
    assert_eq!(table.versions().len(), 1);
}

#[test]
fn a_file_reports_the_size_of_its_current_version() {
    let mut table = sample();
    let hello = table.lookup(&s("w"), &s("hello.txt")).unwrap();
    assert_eq!(hello.kind, INodeKind::RegularFile);
    assert_eq!(hello.size, 13);
    assert_eq!(hello.current_version, 1);
    assert_eq!(table.current_size(&hello), 13);

    let second = table.append_version(&s("h"), 20, s("def"), 1).unwrap();
    assert_eq!(second, 2);
    // Appending does not switch: the first version is current still.
    assert_eq!(table.get_by_id(&s("h")).unwrap().size, 13);
    assert_eq!(table.get_by_id(&s("h")).unwrap().current_version, 1);

    table.set_current_version(&s("h"), 2, at(200)).unwrap();
    let hello = table.get_by_id(&s("h")).unwrap();
    assert_eq!(hello.size, 20);
    assert_eq!(hello.current_version, 2);
    assert_eq!(hello.mtime, at(200));
    assert_eq!(hello.ctime, at(200));
    assert_eq!(hello.crtime, at(102));
    assert_eq!(hello.atime, at(102));

    table.set_current_version(&s("h"), 1, at(201)).unwrap();
    assert_eq!(table.get_by_id(&s("h")).unwrap().size, 13);
}

#[test]
fn versions_are_numbered_per_file_and_never_change() {
    let mut table = sample();
    table.create_file(&s("w"), &s("other.txt"), s("o"), at(103), 1, s("x")).unwrap();
    assert_eq!(table.latest_version(&s("h")), 1);
    assert_eq!(table.latest_version(&s("o")), 1);
    assert_eq!(table.latest_version(&s("w")), 0);
    assert_eq!(table.append_version(&s("h"), 2, s("h2"), 1).unwrap(), 2);
    assert_eq!(table.append_version(&s("h"), 3, s("h3"), 1).unwrap(), 3);
    assert_eq!(table.append_version(&s("o"), 4, s("o2"), NO_VERSION).unwrap(), 2);
    assert_eq!(table.latest_version(&s("h")), 3);

    let first = table.resolve(&s("h"), 1).unwrap();
    assert_eq!(first.id, "h");
    assert_eq!(first.version, 1);
    assert_eq!(first.source_version, NO_VERSION);
    assert_eq!(first.size, 13);
    assert_eq!(first.hash, "abc");
    let third = table.resolve(&s("h"), 3).unwrap();
    assert_eq!(third.source_version, 1);
    assert_eq!(third.size, 3);
    assert_eq!(third.hash, "h3");
    assert!(table.resolve(&s("h"), 4).is_none());
    assert!(table.resolve(&s("w"), 1).is_none());
    assert_eq!(table.versions().len(), 5);
}

#[test]
fn append_and_switch_are_refused_for_each_reason() {
    let mut table = sample();
    assert_eq!(kind_of(table.append_version(&s("zz"), 1, s(""), 0)), ErrorKind::NoEntry);
    assert_eq!(kind_of(table.append_version(&s("w"), 1, s(""), 0)), ErrorKind::IsADirectory);
    assert_eq!(kind_of(table.append_version(&s("h"), 1, s(""), 9)), ErrorKind::NoEntry);
    assert_eq!(kind_of(table.set_current_version(&s("zz"), 1, at(1))), ErrorKind::NoEntry);
    assert_eq!(kind_of(table.set_current_version(&s("w"), 1, at(1))), ErrorKind::IsADirectory);
    assert_eq!(kind_of(table.set_current_version(&s("h"), 2, at(1))), ErrorKind::NoEntry);
    assert_eq!(kind_of(table.set_current_version(&s("h"), 0, at(1))), ErrorKind::NoEntry);
    assert_eq!(table.versions().len(), 1);
    assert_eq!(table.get_by_id(&s("h")).unwrap().mtime, at(102));
}

#[test]
fn rename_changes_parent_name_and_two_times_only() {
    let mut table = sample();
    table.create_dir(&s("root"), &s("moon"), s("m"), at(103)).unwrap();
    let before = table.get_by_id(&s("h")).unwrap();
    let moved = table.rename(&s("h"), &s("m"), &s("hi.txt"), at(300)).unwrap();
    assert_eq!(moved.id, before.id);
    assert_eq!(moved.ino, before.ino);
    assert_eq!(moved.parent, "m");
    assert_eq!(moved.name, "hi.txt");
    assert_eq!(moved.kind, before.kind);
    assert_eq!(moved.size, 13);
    assert_eq!(moved.current_version, before.current_version);
    assert_eq!(moved.nlink, before.nlink);
    assert_eq!(moved.atime, before.atime);
    assert_eq!(moved.crtime, before.crtime);
    assert_eq!(moved.mtime, at(300));
    assert_eq!(moved.ctime, at(300));
    assert!(table.lookup(&s("w"), &s("hello.txt")).is_none());
    assert_eq!(table.lookup(&s("m"), &s("hi.txt")).unwrap().id, "h");
    assert_eq!(table.inodes().len(), 4);
}

#[test]
fn rename_is_refused_for_each_reason() {
    let mut table = sample();
    table.create_dir(&s("w"), &s("deep"), s("d"), at(103)).unwrap();
    table.create_dir(&s("d"), &s("deeper"), s("e"), at(104)).unwrap();
    assert_eq!(kind_of(table.rename(&s("zz"), &s("w"), &s("x"), at(1))), ErrorKind::NoEntry);
    assert_eq!(kind_of(table.rename(&s("h"), &s("zz"), &s("x"), at(1))), ErrorKind::NoEntry);
    assert_eq!(
        kind_of(table.rename(&s("d"), &s("h"), &s("x"), at(1))),
        ErrorKind::NotADirectory
    );
    assert_eq!(
        kind_of(table.rename(&s("root"), &s("w"), &s("x"), at(1))),
        ErrorKind::NotImplemented
    );
    assert_eq!(
        kind_of(table.rename(&s("d"), &s("w"), &s("hello.txt"), at(1))),
        ErrorKind::FileExists
    );
    // A directory cannot move into itself, nor under itself.
    assert_eq!(kind_of(table.rename(&s("w"), &s("w"), &s("x"), at(1))), ErrorKind::Conflict);
    assert_eq!(kind_of(table.rename(&s("w"), &s("d"), &s("x"), at(1))), ErrorKind::Conflict);
    assert_eq!(kind_of(table.rename(&s("w"), &s("e"), &s("x"), at(1))), ErrorKind::Conflict);
    // Nothing moved.
    assert_eq!(table.get_by_id(&s("w")).unwrap().parent, "root");
    assert_eq!(table.get_by_id(&s("d")).unwrap().parent, "w");
    assert_eq!(table.get_by_id(&s("w")).unwrap().mtime, at(101));
}

#[test]
fn rename_to_the_same_place_touches_the_times() {
    let mut table = sample();
    let moved = table.rename(&s("w"), &s("root"), &s("world"), at(400)).unwrap();
    assert_eq!(moved.parent, "root");
    assert_eq!(moved.name, "world");
    assert_eq!(moved.mtime, at(400));
}

#[test]
fn a_directory_moves_with_what_lies_under_it() {
    let mut table = sample();
    table.create_dir(&s("root"), &s("moon"), s("m"), at(103)).unwrap();
    table.rename(&s("w"), &s("m"), &s("earth"), at(104)).unwrap();
    let names: Vec<String> = table.path_names(&s("h")).unwrap();
    assert_eq!(names, vec![s("moon"), s("earth"), s("hello.txt")]);
    // And back up again, which a move under itself would not allow.
    table.rename(&s("m"), &s("root"), &s("sun"), at(105)).unwrap();
    assert_eq!(table.path_names(&s("h")).unwrap(), vec![s("sun"), s("earth"), s("hello.txt")]);
}

#[test]
fn path_names_walk_down_from_the_root() {
    let table = sample();
    assert_eq!(table.path_names(&s("root")).unwrap(), Vec::<String>::new());
    assert_eq!(table.path_names(&s("w")).unwrap(), vec![s("world")]);
    assert_eq!(table.path_names(&s("h")).unwrap(), vec![s("world"), s("hello.txt")]);
    assert!(table.path_names(&s("zz")).is_none());
}

#[test]
fn children_come_in_the_order_of_their_creation_each_once() {
    let mut table = sample();
    table.create_dir(&s("root"), &s("b"), s("id-b"), at(1)).unwrap();
    table.create_dir(&s("root"), &s("a"), s("id-a"), at(2)).unwrap();
    let children = table.get_children(&s("root"));
    let names: Vec<String> = children.iter().map(|c| c.name.clone()).collect();
    assert_eq!(names, vec![s("world"), s("b"), s("a")]);
    // The root is its own parent and yet no child of itself.
    assert!(children.iter().all(|c| c.ino != 1));
    let of_world = table.get_children(&s("w"));
    assert_eq!(of_world.len(), 1);
    assert_eq!(of_world[0].name, "hello.txt");
    assert_eq!(of_world[0].size, 13);
    assert!(table.get_children(&s("h")).is_empty());
    assert!(table.get_children(&s("zz")).is_empty());
}
