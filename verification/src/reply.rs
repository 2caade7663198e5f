//! What the dispatcher answers: attributes, entries, listings.

use vstd::prelude::*;
use crate::metadata::INodeKind;
use crate::metadata::INodeView;
use crate::metadata::Timespec;
use crate::types::action::ActionError;
use crate::types::action::ErrorKind;

verus! {

/// For how many seconds a client may keep an answer.
pub const TTL_SECONDS: i64 = 1;

/// The permission bits that every entry reports.
pub const PERMISSIONS: u16 = 0o775;

/// The owner that every entry reports.
pub const OWNER: u32 = 501;

/// The group that every entry reports.
pub const GROUP: u32 = 20;

/// The type of an entry on the protocol side.
#[derive(Debug, Clone, Copy, PartialEq, Eq, Structural)]
pub enum FileType {
    Directory,
    RegularFile,
}

/// The attributes of an entry on the protocol side.
#[derive(Debug, Clone, Copy, PartialEq, Eq, Structural)]
pub struct FileAttr {
    pub ino: u64,
    pub size: u64,
    pub blocks: u64,
    pub atime: Timespec,
    pub mtime: Timespec,
    pub ctime: Timespec,
    pub crtime: Timespec,
    pub kind: FileType,
    pub perm: u16,
    pub nlink: u32,
    pub uid: u32,
    pub gid: u32,
    pub rdev: u32,
    pub flags: u32,
}

/// The answer to a request for attributes.
#[derive(Debug, Clone, Copy, PartialEq, Eq, Structural)]
pub struct Attr {
    pub ttl: Timespec,
    pub attr: FileAttr,
}

/// The answer that names an entry.
#[derive(Debug, Clone, Copy, PartialEq, Eq, Structural)]
pub struct Entry {
    pub ttl: Timespec,
    pub attr: FileAttr,
    pub generation: u64,
}

/// The answer to an open.
#[derive(Debug, Clone, Copy, PartialEq, Eq, Structural)]
pub struct Opened {
    pub fh: u64,
    pub flags: u32,
}

/// One line of a directory listing.
#[derive(Debug)]
pub struct DirEntry {
    pub ino: u64,
    pub offset: u64,
    pub kind: FileType,
    pub name: String,
}

/// A `DirEntry` as a mathematical value.
pub struct DirEntryView {
    pub ino: u64,
    pub offset: u64,
    pub kind: FileType,
    pub name: Seq<char>,
}

impl View for DirEntry {
    type V = DirEntryView;

    open spec fn view(&self) -> DirEntryView {
        DirEntryView { ino: self.ino, offset: self.offset, kind: self.kind, name: self.name@ }
    }
}

/// What a listing says.
pub open spec fn listed(entries: Seq<DirEntry>) -> Seq<DirEntryView> {
    entries.map_values(|entry: DirEntry| entry@)
}

/// An answer with its error reduced to its kind.
pub open spec fn answered<T>(answer: Result<T, ActionError>) -> Result<T, ErrorKind> {
    match answer {
        Ok(value) => Ok(value),
        Err(e) => Err(e.kind()),
    }
}

pub open spec fn ttl() -> Timespec {
    Timespec { sec: TTL_SECONDS, nsec: 0 }
}

pub open spec fn type_of(kind: INodeKind) -> FileType {
    match kind {
        INodeKind::Directory => FileType::Directory,
        INodeKind::RegularFile => FileType::RegularFile,
    }
}

/// The attributes that an inode reports: what its row holds, the size of
/// its current version, and fixed ownership and permissions.
pub open spec fn attr_of(inode: INodeView) -> FileAttr {
    FileAttr {
        ino: inode.row.ino,
        size: inode.size,
        blocks: 0,
        atime: inode.row.atime,
        mtime: inode.row.mtime,
        ctime: inode.row.ctime,
        crtime: inode.row.crtime,
        kind: type_of(inode.row.kind),
        perm: PERMISSIONS,
        nlink: inode.row.nlink,
        uid: OWNER,
        gid: GROUP,
        rdev: 0,
        flags: 0,
    }
}

pub open spec fn entry_of(inode: INodeView) -> Entry {
    Entry { ttl: ttl(), attr: attr_of(inode), generation: 0 }
}

} // verus!
