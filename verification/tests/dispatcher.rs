use markfs::action_runner::ActionRunner;
use markfs::actions::CreateFile;
use markfs::file::FileHandle;
use markfs::file::FileOperation;
use markfs::file::Storage;
use markfs::markfs::MarkFS;
use markfs::metadata::Metadata;
use markfs::metadata::Timespec;
use markfs::reply::DirEntry;
use markfs::reply::FileType;
use markfs::reply::GROUP;
use markfs::reply::OWNER;
use markfs::reply::PERMISSIONS;
use markfs::types::action::ActionError;
use markfs::types::action::ErrorKind;

struct MemoryHandle {
    data: Vec<u8>,
    broken: bool,
    greedy: bool,
}

impl FileHandle for MemoryHandle {
    fn read(&mut self, offset: u64, size: u32) -> Result<Vec<u8>, ()> {
        if self.broken {
            return Err(());
        }
        if self.greedy {
            return Ok(self.data.clone());
        }
        let start = (offset as usize).min(self.data.len());
        let end = (start + size as usize).min(self.data.len());
        Ok(self.data[start..end].to_vec())
    }
}

struct MemoryFiles {
    made: Vec<Vec<String>>,
    moved: Vec<(Vec<String>, Vec<String>)>,
    opened: Vec<(Vec<String>, u32)>,
    content: Vec<u8>,
    fail: bool,
    broken_handles: bool,
    greedy_handles: bool,
}

impl MemoryFiles {
    fn new() -> MemoryFiles {
        MemoryFiles {
            made: Vec::new(),
            moved: Vec::new(),
            opened: Vec::new(),
            content: b"Hello, world!".to_vec(),
            fail: false,
            broken_handles: false,
            greedy_handles: false,
        }
    }

    fn failing() -> MemoryFiles {
        let mut files = MemoryFiles::new();
        files.fail = true;
        files
    }
}

impl FileOperation for MemoryFiles {
    type Handle = MemoryHandle;

    fn create_dir(&mut self, path: &Vec<String>) -> Result<(), ()> {
        if self.fail {
            return Err(());
        }
        self.made.push(path.clone());
        Ok(())
    }

    fn rename(&mut self, old_path: &Vec<String>, new_path: &Vec<String>) -> Result<(), ()> {
        if self.fail {
            return Err(());
        }
        self.moved.push((old_path.clone(), new_path.clone()));
        Ok(())
    }

    fn open(&mut self, path: &Vec<String>, flags: u32) -> Result<MemoryHandle, ()> {
        if self.fail {
            return Err(());
        }
        self.opened.push((path.clone(), flags));
        Ok(MemoryHandle {
            data: self.content.clone(),
            broken: self.broken_handles,
            greedy: self.greedy_handles,
        })
    }
}

fn epoch() -> Timespec {
    Timespec { sec: 1_700_000_000, nsec: 5 }
}

fn later() -> Timespec {
    Timespec { sec: 1_700_000_100, nsec: 7 }
}

fn mounted() -> MarkFS<MemoryFiles> {
    MarkFS::with_root("/backing".to_string(), MemoryFiles::new(), "root-id".to_string(), epoch())
}

fn strings(segments: &[&str]) -> Vec<String> {
    segments.iter().map(|s| s.to_string()).collect()
}

fn kind_of<T>(reply: Result<T, ActionError>) -> ErrorKind {
    match reply {
        Ok(_) => panic!("the request was expected to fail"),
        Err(e) => e.get_kind(),
    }
}

#[test]
fn mkdir_then_lookup_then_rename() {
    let mut fs = mounted();
    let made = fs.mkdir_as(1, b"a", "id-a".to_string(), later()).unwrap();
    assert_eq!(made.attr.ino, 2);
    assert_eq!(made.attr.kind, FileType::Directory);
    let found = fs.lookup(1, b"a").unwrap();
    assert_eq!(found, made);
    let id_before = fs.metadata().get_by_ino(found.attr.ino).unwrap().id;
    assert_eq!(id_before, "id-a");

    fs.rename_at(1, b"a", 1, b"b", later()).unwrap();
    assert_eq!(kind_of(fs.lookup(1, b"a")), ErrorKind::NoEntry);
    let moved = fs.lookup(1, b"b").unwrap();
    assert_eq!(moved.attr.ino, made.attr.ino);
    let id_after = fs.metadata().get_by_ino(moved.attr.ino).unwrap().id;
    assert_eq!(id_after, id_before);
    assert_eq!(
        fs.files().moved,
        vec![(strings(&["/backing", "a"]), strings(&["/backing", "b"]))]
    );
}

#[test]
fn mkdir_twice_fails_with_file_exists() {
    let mut fs = mounted();
    fs.mkdir_as(1, b"x", "id-1".to_string(), later()).unwrap();
    let second = fs.mkdir_as(1, b"x", "id-2".to_string(), later());
    assert_eq!(kind_of(second), ErrorKind::FileExists);
    assert_eq!(fs.metadata().inodes().len(), 2);
    assert_eq!(fs.files().made, vec![strings(&["/backing", "x"])]);
}

#[test]
fn mkdir_with_fresh_identity() {
    let mut fs = MarkFS::new("/backing".to_string(), MemoryFiles::new());
    let root = fs.metadata().get_by_ino(1).unwrap();
    assert_eq!(root.id.len(), 36);
    assert_eq!(root.parent, root.id);
    let made = fs.mkdir(1, b"a", 0o755).unwrap();
    let inode = fs.metadata().get_by_ino(made.attr.ino).unwrap();
    assert_eq!(inode.id.len(), 36);
    assert_ne!(inode.id, root.id);
    assert_eq!(inode.parent, root.id);
    for (at, c) in inode.id.chars().enumerate() {
        if at == 8 || at == 13 || at == 18 || at == 23 {
            assert_eq!(c, '-');
        } else {
            assert!(c.is_ascii_digit() || ('a'..='f').contains(&c));
        }
    }
    assert_eq!(inode.id.chars().nth(14), Some('4'));
    assert!(matches!(inode.id.chars().nth(19), Some('8') | Some('9') | Some('a') | Some('b')));
    assert!(inode.ctime.nsec >= 0 && inode.ctime.nsec < 1_000_000_000);
    assert!(inode.ctime.sec > 1_000_000_000);
}

#[test]
fn getattr_reports_fixed_ownership() {
    let fs = mounted();
    let root = fs.getattr(1).unwrap();
    assert_eq!(root.ttl, Timespec { sec: 1, nsec: 0 });
    assert_eq!(root.attr.ino, 1);
    assert_eq!(root.attr.size, 0);
    assert_eq!(root.attr.blocks, 0);
    assert_eq!(root.attr.kind, FileType::Directory);
    assert_eq!(root.attr.perm, 0o775);
    assert_eq!(root.attr.perm, PERMISSIONS);
    assert_eq!(root.attr.uid, 501);
    assert_eq!(root.attr.uid, OWNER);
    assert_eq!(root.attr.gid, 20);
    assert_eq!(root.attr.gid, GROUP);
    assert_eq!(root.attr.nlink, 2);
    assert_eq!(root.attr.rdev, 0);
    assert_eq!(root.attr.flags, 0);
    assert_eq!(root.attr.atime, epoch());
    assert_eq!(root.attr.crtime, epoch());
    assert_eq!(kind_of(fs.getattr(7)), ErrorKind::NoEntry);
}

#[test]
fn mkdir_with_failing_storage_leaves_metadata_ahead() {
    let mut fs = MarkFS::with_root(
        "/backing".to_string(),
        MemoryFiles::failing(),
        "root-id".to_string(),
        epoch(),
    );
    assert_eq!(
        kind_of(fs.mkdir_as(1, b"a", "id-a".to_string(), later())),
        ErrorKind::NotImplemented
    );
    assert!(fs.lookup(1, b"a").is_ok());
}

/// root / world / hello.txt, and root / empty.
fn furnished() -> MarkFS<MemoryFiles> {
    let mut fs = mounted();
    fs.mkdir_as(1, b"world", "w".to_string(), later()).unwrap();
    fs.apply(&CreateFile {
        parent: "w".to_string(),
        name: "hello.txt".to_string(),
        id: "h".to_string(),
        now: later(),
        size: 13,
        hash: "".to_string(),
    })
    .unwrap();
    fs.mkdir_as(1, b"empty", "e".to_string(), later()).unwrap();
    fs
}

fn file_table() -> Metadata {
    let mut table = Metadata::new("r".to_string(), epoch());
    table
        .create_file(
            &"r".to_string(),
            &"f".to_string(),
            "f".to_string(),
            epoch(),
            13,
            "".to_string(),
        )
        .unwrap();
    table
}

fn line(entry: &DirEntry) -> (u64, u64, FileType, String) {
    (entry.ino, entry.offset, entry.kind, entry.name.clone())
}

#[test]
fn readdir_lists_dot_dotdot_and_each_child_once() {
    let fs = furnished();
    let root: Vec<_> = fs.readdir(1, 0, 0).unwrap().iter().map(line).collect();
    assert_eq!(
        root,
        vec![
            (1, 0, FileType::Directory, ".".to_string()),
            (1, 1, FileType::Directory, "..".to_string()),
            (2, 2, FileType::Directory, "world".to_string()),
            (4, 3, FileType::Directory, "empty".to_string()),
        ]
    );
    let world: Vec<_> = fs.readdir(2, 0, 0).unwrap().iter().map(line).collect();
    assert_eq!(
        world,
        vec![
            (2, 0, FileType::Directory, ".".to_string()),
            (1, 1, FileType::Directory, "..".to_string()),
            (3, 2, FileType::RegularFile, "hello.txt".to_string()),
        ]
    );
    let empty: Vec<_> = fs.readdir(4, 0, 0).unwrap().iter().map(line).collect();
    assert_eq!(
        empty,
        vec![
            (4, 0, FileType::Directory, ".".to_string()),
            (1, 1, FileType::Directory, "..".to_string()),
        ]
    );
}

#[test]
fn readdir_past_the_start_lists_nothing() {
    let fs = furnished();
    assert!(fs.readdir(1, 0, 1).unwrap().is_empty());
    assert!(fs.readdir(1, 0, 4).unwrap().is_empty());
    assert!(fs.readdir(1, 0, -1).unwrap().is_empty());
}

#[test]
fn readdir_of_what_is_no_directory_is_refused() {
    let fs = furnished();
    assert_eq!(kind_of(fs.readdir(3, 0, 0)), ErrorKind::NotADirectory);
    assert_eq!(kind_of(fs.readdir(3, 0, 2)), ErrorKind::NotADirectory);
    assert_eq!(kind_of(fs.readdir(9, 0, 0)), ErrorKind::NoEntry);
    assert_eq!(kind_of(fs.readdir(9, 0, 5)), ErrorKind::NoEntry);
}

#[test]
fn readdir_follows_a_rename() {
    let mut fs = furnished();
    fs.rename_at(2, b"hello.txt", 4, b"hi.txt", later()).unwrap();
    let world: Vec<_> = fs.readdir(2, 0, 0).unwrap().iter().map(line).collect();
    assert_eq!(world.len(), 2);
    let empty: Vec<_> = fs.readdir(4, 0, 0).unwrap().iter().map(line).collect();
    assert_eq!(empty[2], (3, 2, FileType::RegularFile, "hi.txt".to_string()));
    assert_eq!(empty.len(), 3);
}

#[test]
fn lookup_is_refused_for_each_reason() {
    let fs = furnished();
    assert_eq!(kind_of(fs.lookup(9, b"world")), ErrorKind::NoEntry);
    assert_eq!(kind_of(fs.lookup(1, b"nothing")), ErrorKind::NoEntry);
    // Bytes that are no text name nothing.
    assert_eq!(kind_of(fs.lookup(1, &[0xff, 0xfe])), ErrorKind::NoEntry);
    assert_eq!(kind_of(fs.lookup(1, &[b'w', 0xc3])), ErrorKind::NoEntry);
    // A regular file has no entries.
    assert_eq!(kind_of(fs.lookup(3, b"x")), ErrorKind::NoEntry);
    assert_eq!(fs.lookup(2, b"hello.txt").unwrap().attr.ino, 3);
}

#[test]
fn names_are_read_as_utf8() {
    let mut fs = mounted();
    let name = "gr\u{fc}\u{df}e \u{4e16}\u{754c}";
    let made = fs.mkdir_as(1, name.as_bytes(), "g".to_string(), later()).unwrap();
    assert_eq!(fs.metadata().get_by_ino(made.attr.ino).unwrap().name, name);
    assert_eq!(fs.lookup(1, name.as_bytes()).unwrap().attr.ino, made.attr.ino);
    assert_eq!(fs.files().made, vec![strings(&["/backing", name])]);
}

#[test]
fn lookup_reports_the_entry_with_its_time_to_live() {
    let fs = furnished();
    let hello = fs.lookup(2, b"hello.txt").unwrap();
    assert_eq!(hello.ttl, Timespec { sec: 1, nsec: 0 });
    assert_eq!(hello.generation, 0);
    assert_eq!(hello.attr.ino, 3);
    assert_eq!(hello.attr.size, 13);
    assert_eq!(hello.attr.kind, FileType::RegularFile);
    assert_eq!(hello.attr.nlink, 1);
    assert_eq!(hello.attr.perm, 0o775);
    assert_eq!(hello.attr.mtime, later());
    assert_eq!(fs.getattr(3).unwrap().attr, hello.attr);
}

#[test]
fn getattr_reads_the_size_from_the_current_version() {
    let mut fs = furnished();
    assert_eq!(fs.getattr(3).unwrap().attr.size, 13);
    assert_eq!(fs.getattr(2).unwrap().attr.size, 0);
    let mut table = file_table();
    let v = table.append_version(&"f".to_string(), 99, "".to_string(), 1).unwrap();
    assert_eq!(v, 2);
    table.set_current_version(&"f".to_string(), v, later()).unwrap();
    let other =
        MarkFS::from_parts("/b".to_string(), MemoryFiles::new(), table, ActionRunner::new(false))
            .unwrap();
    assert_eq!(other.getattr(2).unwrap().attr.size, 99);
    assert_eq!(kind_of(fs.getattr(0)), ErrorKind::NoEntry);
    fs.mkdir_as(1, b"n", "n".to_string(), later()).unwrap();
    assert_eq!(fs.getattr(5).unwrap().attr.size, 0);
}

#[test]
fn from_parts_takes_no_runner_of_replays() {
    let table = Metadata::new("r".to_string(), epoch());
    assert!(MarkFS::from_parts(
        "/b".to_string(),
        MemoryFiles::new(),
        table,
        ActionRunner::new(true)
    )
    .is_none());
}

#[test]
fn mkdir_is_refused_for_each_reason() {
    let mut fs = furnished();
    assert_eq!(kind_of(fs.mkdir_as(9, b"a", "a".to_string(), later())), ErrorKind::NoEntry);
    assert_eq!(kind_of(fs.mkdir_as(1, &[0xff], "a".to_string(), later())), ErrorKind::NoEntry);
    assert_eq!(
        kind_of(fs.mkdir_as(3, b"a", "a".to_string(), later())),
        ErrorKind::NotADirectory
    );
    assert_eq!(
        kind_of(fs.mkdir_as(1, b"world", "a".to_string(), later())),
        ErrorKind::FileExists
    );
    assert_eq!(kind_of(fs.mkdir_as(1, b"a", "w".to_string(), later())), ErrorKind::Conflict);
    assert_eq!(fs.metadata().inodes().len(), 4);
    // Backing storage was asked for the two directories that exist, no more.
    assert_eq!(fs.files().made.len(), 2);
}

#[test]
fn mkdir_below_a_directory_makes_the_nested_path() {
    let mut fs = furnished();
    let made = fs.mkdir_as(2, b"deep", "d".to_string(), later()).unwrap();
    assert_eq!(made.attr.ino, 5);
    assert_eq!(fs.files().made.last().unwrap(), &strings(&["/backing", "world", "deep"]));
    let inode = fs.metadata().get_by_ino(5).unwrap();
    assert_eq!(fs.get_path(&inode).unwrap(), strings(&["/backing", "world", "deep"]));
    assert_eq!(fs.resolve_path(&inode).unwrap(), strings(&["/backing", "world", "deep"]));
}

#[test]
fn paths_of_files_end_in_the_current_version() {
    let fs = furnished();
    let hello = fs.metadata().get_by_ino(3).unwrap();
    assert_eq!(fs.get_path(&hello).unwrap(), strings(&["/backing", "world", "hello.txt"]));
    assert_eq!(
        fs.resolve_path(&hello).unwrap(),
        strings(&["/backing", "world", "hello.txt", "1"])
    );
    let root = fs.metadata().get_by_ino(1).unwrap();
    assert_eq!(fs.get_path(&root).unwrap(), strings(&["/backing"]));
    assert_eq!(fs.resolve_path(&root).unwrap(), strings(&["/backing"]));
    let mut stranger = hello.clone();
    stranger.id = "nobody".to_string();
    assert!(fs.get_path(&stranger).is_none());
    assert!(fs.resolve_path(&stranger).is_none());
}

#[test]
fn rename_request_is_refused_for_each_reason() {
    let mut fs = furnished();
    assert_eq!(kind_of(fs.rename_at(9, b"world", 1, b"x", later())), ErrorKind::NoEntry);
    assert_eq!(kind_of(fs.rename_at(1, b"world", 9, b"x", later())), ErrorKind::NoEntry);
    assert_eq!(kind_of(fs.rename_at(1, &[0xff], 1, b"x", later())), ErrorKind::NoEntry);
    assert_eq!(
        kind_of(fs.rename_at(1, b"world", 1, &[0xff], later())),
        ErrorKind::NotImplemented
    );
    assert_eq!(kind_of(fs.rename_at(1, b"nothing", 1, b"x", later())), ErrorKind::NoEntry);
    assert_eq!(
        kind_of(fs.rename_at(1, b"world", 3, b"x", later())),
        ErrorKind::NotADirectory
    );
    assert_eq!(
        kind_of(fs.rename_at(1, b"world", 1, b"empty", later())),
        ErrorKind::FileExists
    );
    assert_eq!(kind_of(fs.rename_at(1, b"world", 2, b"x", later())), ErrorKind::Conflict);
    // The root answers to the empty name under itself, and does not move.
    assert_eq!(kind_of(fs.rename_at(1, b"", 4, b"x", later())), ErrorKind::NotImplemented);
    assert!(fs.files().moved.is_empty());
    assert_eq!(fs.lookup(1, b"world").unwrap().attr.ino, 2);
}

#[test]
fn rename_moves_the_object_in_backing_storage() {
    let mut fs = furnished();
    fs.rename_at(2, b"hello.txt", 4, b"hi.txt", later()).unwrap();
    fs.rename_at(1, b"empty", 2, b"full", later()).unwrap();
    assert_eq!(
        fs.files().moved,
        vec![
            (
                strings(&["/backing", "world", "hello.txt"]),
                strings(&["/backing", "empty", "hi.txt"])
            ),
            (strings(&["/backing", "empty"]), strings(&["/backing", "world", "full"])),
        ]
    );
    assert_eq!(fs.lookup(4, b"hi.txt").unwrap().attr.ino, 3);
    assert_eq!(kind_of(fs.lookup(2, b"hello.txt")), ErrorKind::NoEntry);
    let hello = fs.metadata().get_by_ino(3).unwrap();
    assert_eq!(
        fs.resolve_path(&hello).unwrap(),
        strings(&["/backing", "world", "full", "hi.txt", "1"])
    );
}

#[test]
fn rename_with_failing_storage_leaves_metadata_ahead() {
    let mut fs = MarkFS::with_root(
        "/backing".to_string(),
        MemoryFiles::failing(),
        "root-id".to_string(),
        epoch(),
    );
    let _ = fs.mkdir_as(1, b"a", "a".to_string(), later());
    assert_eq!(kind_of(fs.rename_at(1, b"a", 1, b"b", later())), ErrorKind::NotImplemented);
    assert!(fs.lookup(1, b"b").is_ok());
}

#[test]
fn rename_at_the_time_of_day() {
    let mut fs = furnished();
    fs.rename(1, b"empty", 2, b"full").unwrap();
    let moved = fs.metadata().get_by_id(&"e".to_string()).unwrap();
    assert_eq!(moved.parent, "w");
    assert_eq!(moved.name, "full");
    assert!(moved.mtime.sec > later().sec);
    assert!(moved.mtime.nsec >= 0 && moved.mtime.nsec < 1_000_000_000);
    assert_eq!(moved.ctime, moved.mtime);
    assert_eq!(moved.crtime, later());
}

#[test]
fn open_read_release() {
    let mut fs = furnished();
    let opened = fs.open(3, 0o100).unwrap();
    assert_eq!(opened.fh, 1);
    assert_eq!(opened.flags, 0o100);
    assert_eq!(
        fs.files().opened,
        vec![(strings(&["/backing", "world", "hello.txt", "1"]), 0o100)]
    );
    assert_eq!(fs.read(3, 1, 0, 5).unwrap(), b"Hello".to_vec());
    assert_eq!(fs.read(3, 1, 7, 5).unwrap(), b"world".to_vec());
    // A read past the end is a short read, and no error.
    assert_eq!(fs.read(3, 1, 7, 100).unwrap(), b"world!".to_vec());
    assert_eq!(fs.read(3, 1, 13, 10).unwrap(), Vec::<u8>::new());
    assert_eq!(fs.read(3, 1, 500, 10).unwrap(), Vec::<u8>::new());
    assert!(fs.release(3, 1, 0, 0, false).is_ok());
    assert_eq!(fs.open_files().len(), 0);
}

#[test]
fn handles_are_not_reused_after_release() {
    let mut fs = furnished();
    assert_eq!(fs.open(3, 0).unwrap().fh, 1);
    assert_eq!(fs.open(3, 0).unwrap().fh, 2);
    fs.release(3, 1, 0, 0, false).unwrap();
    assert_eq!(kind_of(fs.read(3, 1, 0, 5)), ErrorKind::NotImplemented);
    assert_eq!(fs.open(3, 0).unwrap().fh, 3);
    assert_eq!(kind_of(fs.read(3, 1, 0, 5)), ErrorKind::NotImplemented);
    assert_eq!(fs.read(3, 2, 0, 5).unwrap(), b"Hello".to_vec());
    fs.release(3, 2, 0, 0, false).unwrap();
    fs.release(3, 3, 0, 0, false).unwrap();
    assert_eq!(fs.open(3, 0).unwrap().fh, 4);
    assert_eq!(fs.open_files().len(), 1);
    assert!(fs.open_files().is_open(4));
    assert_eq!(fs.open_files().last_fh(), 4);
}

#[test]
fn release_of_a_handle_that_is_not_open_is_no_entry() {
    let mut fs = furnished();
    assert_eq!(kind_of(fs.release(3, 1, 0, 0, false)), ErrorKind::NoEntry);
    fs.open(3, 0).unwrap();
    assert_eq!(kind_of(fs.release(3, 2, 0, 0, false)), ErrorKind::NoEntry);
    assert!(fs.release(3, 1, 0, 0, true).is_ok());
    assert_eq!(kind_of(fs.release(3, 1, 0, 0, false)), ErrorKind::NoEntry);
}

#[test]
fn open_is_refused_for_each_reason() {
    let mut fs = furnished();
    assert_eq!(kind_of(fs.open(9, 0)), ErrorKind::NoEntry);
    assert_eq!(kind_of(fs.open(2, 0)), ErrorKind::NotImplemented);
    assert_eq!(kind_of(fs.open(1, 0)), ErrorKind::NotImplemented);
    assert!(fs.files().opened.is_empty());
    assert_eq!(fs.open_files().len(), 0);

    let mut failing = MarkFS::from_parts(
        "/b".to_string(),
        MemoryFiles::failing(),
        file_table(),
        ActionRunner::new(false),
    )
    .unwrap();
    assert_eq!(kind_of(failing.open(2, 0)), ErrorKind::NotImplemented);
    assert_eq!(failing.open_files().last_fh(), 0);
}

#[test]
fn read_is_refused_for_each_reason() {
    let mut fs = furnished();
    assert_eq!(kind_of(fs.read(3, 1, 0, 5)), ErrorKind::NotImplemented);
    fs.open(3, 0).unwrap();
    assert_eq!(kind_of(fs.read(3, 1, -1, 5)), ErrorKind::NotImplemented);
    assert_eq!(kind_of(fs.read(3, 2, 0, 5)), ErrorKind::NotImplemented);

    let mut files = MemoryFiles::new();
    files.broken_handles = true;
    let mut broken =
        MarkFS::from_parts("/b".to_string(), files, file_table(), ActionRunner::new(false))
            .unwrap();
    let fh = broken.open(2, 0).unwrap().fh;
    assert_eq!(kind_of(broken.read(2, fh, 0, 5)), ErrorKind::NotImplemented);
    assert!(broken.open_files().is_open(fh));
}

#[test]
fn read_never_answers_more_than_was_asked_for() {
    let mut files = MemoryFiles::new();
    files.greedy_handles = true;
    let mut fs =
        MarkFS::from_parts("/b".to_string(), files, file_table(), ActionRunner::new(false))
            .unwrap();
    let fh = fs.open(2, 0).unwrap().fh;
    assert_eq!(fs.read(2, fh, 0, 4).unwrap(), b"Hell".to_vec());
    assert_eq!(fs.read(2, fh, 0, 0).unwrap(), Vec::<u8>::new());
    assert_eq!(fs.read(2, fh, 0, 13).unwrap(), b"Hello, world!".to_vec());
}

#[test]
fn mutations_enter_the_journal() {
    let mut fs = mounted();
    fs.mkdir_as(1, b"a", "a".to_string(), later()).unwrap();
    let _ = fs.mkdir_as(1, b"a", "b".to_string(), later());
    fs.rename_at(1, b"a", 1, b"c", later()).unwrap();
    let _ = fs.mkdir_as(9, b"a", "d".to_string(), later());
    let _ = fs.lookup(1, b"c");
    let journal = fs.runner().journal();
    let seen: Vec<(String, bool)> =
        journal.iter().map(|entry| (entry.name.clone(), entry.complete)).collect();
    assert_eq!(
        seen,
        vec![
            ("mkdir".to_string(), true),
            ("mkdir".to_string(), false),
            ("rename".to_string(), true),
        ]
    );
    assert!(journal.iter().all(|entry| !entry.payload.is_empty()));
    assert!(!fs.runner().is_replay());
}

#[test]
fn open_reply_takes_what_storage_answered() {
    let mut fs = furnished();
    let handle = MemoryHandle { data: b"abc".to_vec(), broken: false, greedy: false };
    let opened = fs.open_reply(Ok(handle), 7).unwrap();
    assert_eq!((opened.fh, opened.flags), (1, 7));
    assert_eq!(kind_of(fs.open_reply(Err(()), 7)), ErrorKind::NotImplemented);
    assert_eq!(fs.open_files().len(), 1);
    assert!(fs.open_files().is_open(1));
    assert_eq!(fs.read(3, 1, 1, 10).unwrap(), b"bc".to_vec());
    let handle = MemoryHandle { data: Vec::new(), broken: false, greedy: false };
    assert_eq!(fs.open_reply(Ok(handle), 0).unwrap().fh, 2);
}

#[test]
fn replies_follow_what_storage_answered() {
    let fs = furnished();
    let world = fs.metadata().get_by_ino(2).unwrap();
    let entry = fs.mkdir_reply(world.clone(), Ok(())).unwrap();
    assert_eq!(entry, fs.lookup(1, b"world").unwrap());
    assert_eq!(kind_of(fs.mkdir_reply(world, Err(()))), ErrorKind::NotImplemented);
    assert!(fs.rename_reply(Ok(())).is_ok());
    assert_eq!(kind_of(fs.rename_reply(Err(()))), ErrorKind::NotImplemented);
    let attr = fs.inode_to_fileattr(fs.metadata().get_by_ino(3).unwrap());
    assert_eq!(attr, fs.getattr(3).unwrap().attr);
    assert_eq!(
        fs.inode_kind_to_file_type(&markfs::metadata::INodeKind::Directory),
        FileType::Directory
    );
    assert_eq!(
        fs.inode_kind_to_file_type(&markfs::metadata::INodeKind::RegularFile),
        FileType::RegularFile
    );
}

#[test]
fn the_journal_is_truncated_to_what_is_open() {
    let mut fs = mounted();
    fs.mkdir_as(1, b"a", "a".to_string(), later()).unwrap();
    let _ = fs.mkdir_as(1, b"a", "b".to_string(), later());
    fs.truncate_journal();
    let journal = fs.runner().journal();
    assert_eq!(journal.len(), 1);
    assert!(!journal[0].complete);
    assert_eq!(fs.metadata().inodes().len(), 2);
}

#[test]
fn storage_is_reached_by_successful_requests_alone() {
    let mut files = MemoryFiles::new();
    files.content = b"marked".to_vec();
    let mut fs = MarkFS::with_root("/backing".to_string(), files, "root-id".to_string(), epoch());
    // What was handed over is what is held.
    assert_eq!(fs.files().content, b"marked".to_vec());
    let _ = fs.mkdir_as(9, b"a", "a".to_string(), later());
    let _ = fs.mkdir_as(1, &[0xff], "a".to_string(), later());
    let _ = fs.rename_at(1, b"nothing", 1, b"x", later());
    let _ = fs.open(1, 0);
    let _ = fs.open(9, 0);
    let _ = fs.read(1, 1, 0, 4);
    let _ = fs.release(1, 1, 0, 0, false);
    let _ = fs.open_reply(Err(()), 0);
    fs.truncate_journal();
    assert!(fs.files().made.is_empty());
    assert!(fs.files().moved.is_empty());
    assert!(fs.files().opened.is_empty());
    assert_eq!(fs.files().content, b"marked".to_vec());
    fs.mkdir_as(1, b"a", "a".to_string(), later()).unwrap();
    assert_eq!(fs.files().made.len(), 1);
}

#[test]
fn a_creation_is_written_down_before_it_is_applied() {
    let mut fs = mounted();
    let logged = fs.mkdir_log(1, b"a", "a".to_string(), later()).unwrap();
    assert_eq!(logged.at, 0);
    assert_eq!(logged.action.name, "a");
    assert_eq!(logged.action.parent, "root-id");
    assert_eq!(logged.action.id, "a");
    assert_eq!(logged.action.now, later());
    // Written down, and nothing applied: this is what a crash would find.
    let journal = fs.runner().journal();
    assert_eq!(journal.len(), 1);
    assert_eq!(journal[0].name, "mkdir");
    assert!(!journal[0].complete);
    assert_eq!(fs.metadata().inodes().len(), 1);
    assert!(fs.files().made.is_empty());

    let entry = fs.mkdir_apply(&logged).unwrap();
    assert_eq!(entry.attr.ino, 2);
    assert!(fs.runner().journal()[0].complete);
    assert_eq!(fs.files().made, vec![strings(&["/backing", "a"])]);
    assert_eq!(fs.lookup(1, b"a").unwrap(), entry);

    // Refused when written down, and refused when applied.
    assert_eq!(kind_of(fs.mkdir_log(9, b"b", "b".to_string(), later())), ErrorKind::NoEntry);
    assert_eq!(kind_of(fs.mkdir_log(1, &[0xff], "b".to_string(), later())), ErrorKind::NoEntry);
    assert_eq!(fs.runner().journal().len(), 1);
    let twice = fs.mkdir_log(1, b"a", "b".to_string(), later()).unwrap();
    assert_eq!(twice.at, 1);
    assert_eq!(kind_of(fs.mkdir_apply(&twice)), ErrorKind::FileExists);
    assert!(!fs.runner().journal()[1].complete);
    assert_eq!(fs.files().made.len(), 1);
    let nowhere = markfs::markfs::Logged { action: twice.action, at: 7 };
    assert_eq!(kind_of(fs.mkdir_apply(&nowhere)), ErrorKind::NoEntry);
}

#[test]
fn a_move_is_written_down_before_it_is_applied() {
    let mut fs = furnished();
    fs.truncate_journal();
    let logged = fs.rename_log(2, b"hello.txt", 4, b"hi.txt", later()).unwrap();
    assert_eq!(logged.at, 0);
    assert_eq!(logged.action.id, "h");
    assert_eq!(logged.action.new_parent, "e");
    assert_eq!(logged.action.new_name, "hi.txt");
    assert!(!fs.runner().journal()[0].complete);
    assert_eq!(fs.lookup(2, b"hello.txt").unwrap().attr.ino, 3);
    assert!(fs.files().moved.is_empty());

    fs.rename_apply(&logged).unwrap();
    assert!(fs.runner().journal()[0].complete);
    assert_eq!(fs.lookup(4, b"hi.txt").unwrap().attr.ino, 3);
    assert_eq!(
        fs.files().moved,
        vec![(
            strings(&["/backing", "world", "hello.txt"]),
            strings(&["/backing", "empty", "hi.txt"])
        )]
    );

    assert_eq!(
        kind_of(fs.rename_log(2, b"hello.txt", 4, b"x", later())),
        ErrorKind::NoEntry
    );
    assert_eq!(
        kind_of(fs.rename_log(4, b"hi.txt", 4, &[0xff], later())),
        ErrorKind::NotImplemented
    );
    let under = fs.rename_log(1, b"world", 2, b"x", later()).unwrap();
    assert_eq!(kind_of(fs.rename_apply(&under)), ErrorKind::Conflict);
    assert_eq!(fs.files().moved.len(), 1);
    let nowhere = markfs::markfs::Logged { action: under.action, at: 9 };
    assert_eq!(kind_of(fs.rename_apply(&nowhere)), ErrorKind::NoEntry);
}

#[test]
fn a_move_under_another_directory_moves_the_backing_object() {
    let mut fs = mounted();
    let a = fs.mkdir_as(1, b"a", "id-a".to_string(), later()).unwrap().attr.ino;
    let d = fs.mkdir_as(1, b"d", "id-d".to_string(), later()).unwrap().attr.ino;
    fs.rename_at(1, b"a", d, b"b", later()).unwrap();
    assert_eq!(fs.lookup(d, b"b").unwrap().attr.ino, a);
    assert_eq!(kind_of(fs.lookup(1, b"b")), ErrorKind::NoEntry);
    assert_eq!(kind_of(fs.lookup(1, b"a")), ErrorKind::NoEntry);
    assert_eq!(
        fs.files().moved,
        vec![(strings(&["/backing", "a"]), strings(&["/backing", "d", "b"]))]
    );
}

#[test]
fn storage_hands_requests_on_as_they_come() {
    let mut storage = Storage::new(MemoryFiles::new());
    assert!(storage.create_dir(&strings(&["/b", "x"])).is_ok());
    assert!(storage.rename(&strings(&["/b", "x"]), &strings(&["/b", "y"])).is_ok());
    let mut handle = storage.open(&strings(&["/b", "y", "1"]), 5).unwrap();
    assert_eq!(handle.read(0, 5).unwrap(), b"Hello".to_vec());
    assert_eq!(storage.files().made, vec![strings(&["/b", "x"])]);
    assert_eq!(storage.files().moved, vec![(strings(&["/b", "x"]), strings(&["/b", "y"]))]);
    assert_eq!(storage.files().opened, vec![(strings(&["/b", "y", "1"]), 5)]);
    let mut failing = Storage::new(MemoryFiles::failing());
    assert!(failing.create_dir(&strings(&["/b", "x"])).is_err());
    assert!(failing.rename(&strings(&["/b"]), &strings(&["/c"])).is_err());
    assert!(failing.open(&strings(&["/b"]), 0).is_err());
}

#[test]
fn a_request_that_was_written_down_can_be_taken_back() {
    let mut fs = mounted();
    let logged = fs.mkdir_log(1, b"a", "a".to_string(), later()).unwrap();
    assert!(!fs.withdraw(logged.at + 1));
    assert!(fs.withdraw(logged.at));
    assert!(fs.runner().journal().is_empty());
    assert_eq!(fs.metadata().inodes().len(), 1);
    // The place is free again, and what was taken back cannot be applied.
    assert_eq!(kind_of(fs.mkdir_apply(&logged)), ErrorKind::NoEntry);
    let again = fs.mkdir_log(1, b"a", "b".to_string(), later()).unwrap();
    assert_eq!(again.at, 0);
    fs.mkdir_apply(&again).unwrap();
    assert!(!fs.withdraw(again.at));
    assert_eq!(fs.runner().journal().len(), 1);
}

#[test]
fn what_a_filesystem_leaves_is_taken_up_again() {
    let mut fs = furnished();
    fs.rename_at(1, b"empty", 2, b"full", later()).unwrap();
    fs.rename_at(2, b"hello.txt", 4, b"hi.txt", later()).unwrap();
    let table = Metadata::load(fs.metadata().inodes(), fs.metadata().versions()).unwrap();
    assert_eq!(table.inodes().len(), 4);
    assert_eq!(
        table.path_names(&"h".to_string()).unwrap(),
        strings(&["world", "full", "hi.txt"])
    );
    let again = MarkFS::from_parts(
        "/backing".to_string(),
        MemoryFiles::new(),
        table,
        ActionRunner::new(false),
    )
    .unwrap();
    assert_eq!(again.lookup(4, b"hi.txt").unwrap(), fs.lookup(4, b"hi.txt").unwrap());
    assert_eq!(again.getattr(3).unwrap(), fs.getattr(3).unwrap());
}
