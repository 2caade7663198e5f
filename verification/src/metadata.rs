//! The inode table and the version store.
//!
//! The table is a sequence of inode rows, the store a sequence of immutable
//! content versions. What an inode reports as its size is never kept on its
//! row: it is read from the version that the row names as current.

pub mod load;
pub mod model;
pub mod tree;
pub mod versions;

use vstd::prelude::*;
use crate::metadata::model::TableView;
use crate::metadata::versions::latest_in;
use crate::types::action::ActionError;

verus! {

/// What an inode stands for.
#[derive(Debug, Clone, Copy, PartialEq, Eq, Structural)]
pub enum INodeKind {
    Directory,
    RegularFile,
}

impl INodeKind {
    /// The number under which a kind is persisted.
    pub open spec fn code(self) -> int {
        match self {
            INodeKind::Directory => 0,
            INodeKind::RegularFile => 1,
        }
    }

    /// Reads a persisted kind back; any number but 0 and 1 is no kind.
    pub fn from_i32(i: i32) -> (kind: Option<INodeKind>)
        ensures
            i == 0 ==> kind == Some(INodeKind::Directory),
            i == 1 ==> kind == Some(INodeKind::RegularFile),
            i != 0 && i != 1 ==> kind is None,
    {
        match i {
            0 => Some(INodeKind::Directory),
            1 => Some(INodeKind::RegularFile),
            _ => None,
        }
    }

    /// The number under which this kind is persisted.
    pub fn to_i32(&self) -> (i: i32)
        ensures
            i == self.code(),
    {
        match self {
            INodeKind::Directory => 0,
            INodeKind::RegularFile => 1,
        }
    }

    pub fn is_directory(&self) -> (b: bool)
        ensures
            b == (*self == INodeKind::Directory),
    {
        *self == INodeKind::Directory
    }

    pub fn is_regular_file(&self) -> (b: bool)
        ensures
            b == (*self == INodeKind::RegularFile),
    {
        *self == INodeKind::RegularFile
    }
}

/// A moment: seconds since the epoch and the nanoseconds within the second.
#[derive(Debug, Clone, Copy, PartialEq, Eq, Structural)]
pub struct Timespec {
    pub sec: i64,
    pub nsec: i32,
}

/// The number of a content version; 0 stands for "no version".
pub const NO_VERSION: u64 = 0;

/// One row of the inode table, as a mathematical value.
pub struct RowView {
    pub ino: u64,
    pub id: Seq<char>,
    pub parent: Seq<char>,
    pub name: Seq<char>,
    pub kind: INodeKind,
    pub atime: Timespec,
    pub mtime: Timespec,
    pub ctime: Timespec,
    pub crtime: Timespec,
    pub nlink: u32,
    pub current_version: u64,
}

/// An inode as queries hand it out: its row, and the size of its current
/// version.
pub struct INodeView {
    pub row: RowView,
    pub size: u64,
}

/// A filesystem entry, as the table's queries return it.
#[derive(Debug)]
pub struct INode {
    pub ino: u64,
    pub id: String,
    pub parent: String,
    pub name: String,
    pub kind: INodeKind,
    pub size: u64,
    pub atime: Timespec,
    pub mtime: Timespec,
    pub ctime: Timespec,
    pub crtime: Timespec,
    pub nlink: u32,
    pub current_version: u64,
}

impl View for INode {
    type V = INodeView;

    open spec fn view(&self) -> INodeView {
        INodeView {
            row: RowView {
                ino: self.ino,
                id: self.id@,
                parent: self.parent@,
                name: self.name@,
                kind: self.kind,
                atime: self.atime,
                mtime: self.mtime,
                ctime: self.ctime,
                crtime: self.crtime,
                nlink: self.nlink,
                current_version: self.current_version,
            },
            size: self.size,
        }
    }
}

impl Clone for INode {
    fn clone(&self) -> (copy: INode)
        ensures
            copy@ == self@,
    {
        INode {
            ino: self.ino,
            id: self.id.clone(),
            parent: self.parent.clone(),
            name: self.name.clone(),
            kind: self.kind,
            size: self.size,
            atime: self.atime,
            mtime: self.mtime,
            ctime: self.ctime,
            crtime: self.crtime,
            nlink: self.nlink,
            current_version: self.current_version,
        }
    }
}

/// One immutable content version, as a mathematical value.
pub struct VersionView {
    pub id: Seq<char>,
    pub version: u64,
    pub source_version: u64,
    pub size: u64,
    pub hash: Seq<char>,
}

/// One immutable content version of a regular file, keyed by the owning
/// inode's `id` and its own number.
#[derive(Debug)]
pub struct FileVersion {
    pub id: String,
    pub version: u64,
    /// The version this one was derived from; `NO_VERSION` for the first.
    pub source_version: u64,
    pub size: u64,
    pub hash: String,
}

impl View for FileVersion {
    type V = VersionView;

    open spec fn view(&self) -> VersionView {
        VersionView {
            id: self.id@,
            version: self.version,
            source_version: self.source_version,
            size: self.size,
            hash: self.hash@,
        }
    }
}

impl Clone for FileVersion {
    fn clone(&self) -> (copy: FileVersion)
        ensures
            copy@ == self@,
    {
        FileVersion {
            id: self.id.clone(),
            version: self.version,
            source_version: self.source_version,
            size: self.size,
            hash: self.hash.clone(),
        }
    }
}

/// One row of the inode table as it is kept: an inode without its size.
struct INodeRow {
    ino: u64,
    id: String,
    parent: String,
    name: String,
    kind: INodeKind,
    atime: Timespec,
    mtime: Timespec,
    ctime: Timespec,
    crtime: Timespec,
    nlink: u32,
    current_version: u64,
}

impl View for INodeRow {
    type V = RowView;

    closed spec fn view(&self) -> RowView {
        RowView {
            ino: self.ino,
            id: self.id@,
            parent: self.parent@,
            name: self.name@,
            kind: self.kind,
            atime: self.atime,
            mtime: self.mtime,
            ctime: self.ctime,
            crtime: self.crtime,
            nlink: self.nlink,
            current_version: self.current_version,
        }
    }
}

impl INodeRow {
    /// The row as an inode that reports `size`.
    fn with_size(&self, size: u64) -> (inode: INode)
        ensures
            inode@ == (INodeView { row: self@, size }),
    {
        INode {
            ino: self.ino,
            id: self.id.clone(),
            parent: self.parent.clone(),
            name: self.name.clone(),
            kind: self.kind,
            size,
            atime: self.atime,
            mtime: self.mtime,
            ctime: self.ctime,
            crtime: self.crtime,
            nlink: self.nlink,
            current_version: self.current_version,
        }
    }
}

/// The inode table together with the version store.
pub struct Metadata {
    rows: Vec<INodeRow>,
    versions: Vec<FileVersion>,
    next_ino: u64,
}

impl View for Metadata {
    type V = TableView;

    closed spec fn view(&self) -> TableView {
        TableView {
            rows: self.rows@.map_values(|row: INodeRow| row@),
            versions: self.versions@.map_values(|version: FileVersion| version@),
            next_ino: self.next_ino,
        }
    }
}

/// What a query found, as a mathematical value.
pub open spec fn found(inode: Option<INode>) -> Option<INodeView> {
    match inode {
        Some(inode) => Some(inode@),
        None => None,
    }
}

/// What a list of strings says.
pub open spec fn texts(strings: Seq<String>) -> Seq<Seq<char>> {
    strings.map_values(|s: String| s@)
}

/// The views of a list of inodes.
pub open spec fn views(inodes: Seq<INode>) -> Seq<INodeView> {
    inodes.map_values(|inode: INode| inode@)
}

impl Metadata {
    /// The invariants of the data model hold of this table.
    pub open spec fn wf(&self) -> bool {
        self@.wf()
    }

    /// The table of an empty tree: the root alone, created at `now` under
    /// the identity `root_id`.
    pub fn new(root_id: String, now: Timespec) -> (table: Metadata)
        ensures
            table.wf(),
            table@ == TableView::initial(root_id@, now),
    {
        let parent = root_id.clone();
        let root = INodeRow {
            ino: 1,
            id: root_id,
            parent,
            name: String::new(),
            kind: INodeKind::Directory,
            atime: now,
            mtime: now,
            ctime: now,
            crtime: now,
            nlink: 2,
            current_version: NO_VERSION,
        };
        let mut rows: Vec<INodeRow> = Vec::new();
        rows.push(root);
        let table = Metadata { rows, versions: Vec::new(), next_ino: 2 };
        proof {
            TableView::lemma_initial_wf(root_id@, now);
            assert(table@.rows =~= TableView::initial(root_id@, now).rows);
            assert(table@.versions =~= TableView::initial(root_id@, now).versions);
        }
        table
    }

    /// The index of the row numbered `ino`.
    fn find_ino(&self, ino: u64) -> (at: Option<usize>)
        ensures
            match at {
                Some(i) => self@.ino_at(ino, i as int),
                None => !self@.has_ino(ino),
            },
    {
        let mut i: usize = 0;
        while i < self.rows.len()
            invariant
                i <= self.rows.len(),
                forall|k: int| 0 <= k < i ==> !self@.ino_at(ino, k),
            decreases self.rows.len() - i,
        {
            if self.rows[i].ino == ino {
                return Some(i);
            }
            i += 1;
        }
        None
    }

    /// The index of the row with the identity `id`.
    fn find_id(&self, id: &String) -> (at: Option<usize>)
        ensures
            match at {
                Some(i) => self@.id_at(id@, i as int),
                None => !self@.has_id(id@),
            },
    {
        let mut i: usize = 0;
        while i < self.rows.len()
            invariant
                i <= self.rows.len(),
                forall|k: int| 0 <= k < i ==> !self@.id_at(id@, k),
            decreases self.rows.len() - i,
        {
            if self.rows[i].id == *id {
                return Some(i);
            }
            i += 1;
        }
        None
    }

    /// The index of the row that is the entry `name` of `parent`.
    fn find_entry(&self, parent: &String, name: &String) -> (at: Option<usize>)
        ensures
            match at {
                Some(i) => self@.entry_at(parent@, name@, i as int),
                None => !self@.has_entry(parent@, name@),
            },
    {
        let mut i: usize = 0;
        while i < self.rows.len()
            invariant
                i <= self.rows.len(),
                forall|k: int| 0 <= k < i ==> !self@.entry_at(parent@, name@, k),
            decreases self.rows.len() - i,
        {
            if self.rows[i].parent == *parent && self.rows[i].name == *name {
                return Some(i);
            }
            i += 1;
        }
        None
    }

    /// The index of version `version` of the inode `id`.
    fn find_version(&self, id: &String, version: u64) -> (at: Option<usize>)
        ensures
            match at {
                Some(j) => self@.version_at(id@, version, j as int),
                None => !self@.has_version(id@, version),
            },
    {
        let mut j: usize = 0;
        while j < self.versions.len()
            invariant
                j <= self.versions.len(),
                forall|k: int| 0 <= k < j ==> !self@.version_at(id@, version, k),
            decreases self.versions.len() - j,
        {
            if self.versions[j].version == version && self.versions[j].id == *id {
                return Some(j);
            }
            j += 1;
        }
        None
    }

    /// The size of version `version` of the inode `id`; 0 where the store
    /// holds no such version.
    fn size_of_version(&self, id: &String, version: u64) -> (size: u64)
        requires
            self.wf(),
        ensures
            size == match self@.resolve(id@, version) {
                Some(v) => v.size,
                None => 0,
            },
    {
        proof {
            reveal(TableView::wf);
        }
        match self.find_version(id, version) {
            Some(j) => {
                proof {
                    self@.lemma_version_index(id@, version, j as int);
                }
                self.versions[j].size
            },
            None => 0,
        }
    }

    /// Row `i` joined with the size of its current version.
    fn join(&self, i: usize) -> (inode: INode)
        requires
            self.wf(),
            i < self@.rows.len(),
        ensures
            inode@ == self@.inode_at(i as int),
    {
        let row = &self.rows[i];
        let size = self.size_of_version(&row.id, row.current_version);
        row.with_size(size)
    }

    /// Whether the table holds an inode with the identity `id`.
    pub fn contains_id(&self, id: &String) -> (held: bool)
        ensures
            held == self@.has_id(id@),
    {
        self.find_id(id).is_some()
    }

    /// The inode numbered `ino`.
    pub fn get_by_ino(&self, ino: u64) -> (inode: Option<INode>)
        requires
            self.wf(),
        ensures
            found(inode) == self@.by_ino(ino),
    {
        proof {
            reveal(TableView::wf);
        }
        match self.find_ino(ino) {
            Some(i) => {
                proof {
                    self@.lemma_ino_index(ino, i as int);
                }
                Some(self.join(i))
            },
            None => None,
        }
    }

    /// The inode with the identity `id`.
    pub fn get_by_id(&self, id: &String) -> (inode: Option<INode>)
        requires
            self.wf(),
        ensures
            found(inode) == self@.by_id(id@),
    {
        proof {
            reveal(TableView::wf);
        }
        match self.find_id(id) {
            Some(i) => {
                proof {
                    self@.lemma_id_index(id@, i as int);
                }
                Some(self.join(i))
            },
            None => None,
        }
    }

    /// The entry `name` of the directory with the identity `parent`.
    pub fn lookup(&self, parent: &String, name: &String) -> (inode: Option<INode>)
        requires
            self.wf(),
        ensures
            found(inode) == self@.lookup(parent@, name@),
    {
        proof {
            reveal(TableView::wf);
        }
        match self.find_entry(parent, name) {
            Some(i) => {
                proof {
                    self@.lemma_entry_index(parent@, name@, i as int);
                }
                Some(self.join(i))
            },
            None => None,
        }
    }

    /// Version `version` of the inode `id`.
    pub fn resolve(&self, id: &String, version: u64) -> (found: Option<FileVersion>)
        requires
            self.wf(),
        ensures
            match found {
                Some(v) => self@.resolve(id@, version) == Some(v@),
                None => self@.resolve(id@, version) is None,
            },
    {
        proof {
            reveal(TableView::wf);
        }
        match self.find_version(id, version) {
            Some(j) => {
                proof {
                    self@.lemma_version_index(id@, version, j as int);
                }
                Some(self.versions[j].clone())
            },
            None => None,
        }
    }

    /// The size that `inode` has now: that of the version which it names as
    /// current, read from the store; 0 where the store holds none.
    pub fn current_size(&self, inode: &INode) -> (size: u64)
        requires
            self.wf(),
        ensures
            size == self@.size_of(inode@.row),
    {
        self.size_of_version(&inode.id, inode.current_version)
    }

    /// The children of the directory with the identity `parent`: every row
    /// that names it as its parent, but for the root's own row, each once
    /// and in the order of the rows.
    pub fn get_children(&self, parent: &String) -> (children: Vec<INode>)
        requires
            self.wf(),
        ensures
            views(children@) == self@.children(parent@),
    {
        let mut children: Vec<INode> = Vec::new();
        let ghost pick = TableView::child_of(parent@);
        let ghost join = self@.joined();
        let mut i: usize = 0;
        proof {
            reveal(Seq::filter);
            assert(self@.rows.take(0) =~= Seq::<RowView>::empty());
            assert(views(children@) =~= self@.rows.take(0).filter(pick).map_values(join));
        }
        while i < self.rows.len()
            invariant
                i <= self.rows.len(),
                self.wf(),
                pick == TableView::child_of(parent@),
                join == self@.joined(),
                views(children@) == self@.rows.take(i as int).filter(pick).map_values(join),
            decreases self.rows.len() - i,
        {
            let row = &self.rows[i];
            let ghost before = self@.rows.take(i as int);
            let ghost after = self@.rows.take(i + 1);
            let ghost listed = children@;
            proof {
                reveal(Seq::filter);
                assert(after.drop_last() =~= before);
                assert(after.last() == self@.rows[i as int]);
            }
            if row.parent == *parent && row.id != *parent {
                let child = self.join(i);
                children.push(child);
                proof {
                    assert(after.filter(pick) == before.filter(pick).push(self@.rows[i as int]));
                    assert(views(children@) =~= views(listed).push(child@));
                    assert(after.filter(pick).map_values(join) =~= before.filter(pick).map_values(
                        join,
                    ).push(join(self@.rows[i as int])));
                }
            } else {
                proof {
                    assert(after.filter(pick) == before.filter(pick));
                }
            }
            i += 1;
        }
        proof {
            assert(self@.rows.take(i as int) =~= self@.rows);
        }
        children
    }

    /// Every inode of the table, in the order of the rows.
    pub fn inodes(&self) -> (all: Vec<INode>)
        requires
            self.wf(),
        ensures
            views(all@) == self@.inodes(),
    {
        let mut all: Vec<INode> = Vec::new();
        let mut i: usize = 0;
        while i < self.rows.len()
            invariant
                i <= self.rows.len(),
                self.wf(),
                all@.len() == i,
                forall|k: int| 0 <= k < i ==> (#[trigger] all@[k])@ == self@.inode_at(k),
            decreases self.rows.len() - i,
        {
            let inode = self.join(i);
            all.push(inode);
            i += 1;
        }
        proof {
            assert(views(all@) =~= self@.inodes());
        }
        all
    }

    /// Every version of the store, in the order in which they were appended.
    pub fn versions(&self) -> (all: Vec<FileVersion>)
        ensures
            all@.map_values(|v: FileVersion| v@) == self@.versions,
    {
        let mut all: Vec<FileVersion> = Vec::new();
        let mut j: usize = 0;
        while j < self.versions.len()
            invariant
                j <= self.versions.len(),
                all@.len() == j,
                forall|k: int| 0 <= k < j ==> (#[trigger] all@[k])@ == self@.versions[k],
            decreases self.versions.len() - j,
        {
            all.push(self.versions[j].clone());
            j += 1;
        }
        proof {
            assert(all@.map_values(|v: FileVersion| v@) =~= self@.versions);
        }
        all
    }

    /// Tests whether an entry `name` with the identity `id` can be created
    /// under `parent`.
    fn check_insert(&self, parent: &String, name: &String, id: &String) -> (checked: Result<
        (),
        ActionError,
    >)
        requires
            self.wf(),
        ensures
            match checked {
                Ok(()) => self@.insert_error(parent@, name@, id@) is None,
                Err(e) => self@.insert_error(parent@, name@, id@) == Some(e.kind()),
            },
    {
        proof {
            reveal(TableView::wf);
        }
        let at = match self.find_id(parent) {
            Some(at) => at,
            None => {
                return Err(ActionError::NoEntry);
            },
        };
        proof {
            self@.lemma_id_index(parent@, at as int);
        }
        if !self.rows[at].kind.is_directory() {
            return Err(ActionError::NotADirectory);
        }
        if self.find_entry(parent, name).is_some() {
            return Err(ActionError::FileExists);
        }
        if self.find_id(id).is_some() {
            return Err(ActionError::Conflict("the identity is already in use".to_owned()));
        }
        if self.next_ino == u64::MAX {
            return Err(ActionError::NoSpaceLeftOnDevice);
        }
        Ok(())
    }

    /// Creates the directory `name` under the directory with the identity
    /// `parent`, under the new identity `id`, at the time `now`.
    ///
    /// It is refused with `NoEntry` where `parent` does not exist, with
    /// `NotADirectory` where it is no directory, with `FileExists` where it
    /// has an entry `name` already, with `Conflict` where `id` is in use, and
    /// with `NoSpaceLeftOnDevice` where the inode numbers are used up. A
    /// refusal leaves the table as it was.
    pub fn create_dir(
        &mut self,
        parent: &String,
        name: &String,
        id: String,
        now: Timespec,
    ) -> (created: Result<INode, ActionError>)
        requires
            old(self).wf(),
        ensures
            final(self).wf(),
            match created {
                Ok(inode) => {
                    &&& old(self)@.insert_error(parent@, name@, id@) is None
                    &&& final(self)@ == old(self)@.with_dir(parent@, name@, id@, now)
                    &&& inode@ == (INodeView {
                        row: old(self)@.dir_row(parent@, name@, id@, now),
                        size: 0,
                    })
                },
                Err(e) => {
                    &&& old(self)@.insert_error(parent@, name@, id@) == Some(e.kind())
                    &&& final(self)@ == old(self)@
                },
            },
    {
        match self.check_insert(parent, name, &id) {
            Ok(()) => {},
            Err(e) => {
                return Err(e);
            },
        }
        let row = INodeRow {
            ino: self.next_ino,
            id,
            parent: parent.clone(),
            name: name.clone(),
            kind: INodeKind::Directory,
            atime: now,
            mtime: now,
            ctime: now,
            crtime: now,
            nlink: 1,
            current_version: NO_VERSION,
        };
        let inode = row.with_size(0);
        self.rows.push(row);
        self.next_ino = self.next_ino + 1;
        proof {
            let before = old(self)@;
            before.lemma_with_dir_wf(parent@, name@, id@, now);
            assert(self@.rows =~= before.with_dir(parent@, name@, id@, now).rows);
        }
        Ok(inode)
    }

    /// Creates the regular file `name` under the directory with the identity
    /// `parent`, under the new identity `id`, at the time `now`, with a
    /// first version of the given size and content hash, which becomes its
    /// current one.
    ///
    /// It is refused on the same grounds as the creation of a directory, and
    /// a refusal leaves the table and the store as they were.
    pub fn create_file(
        &mut self,
        parent: &String,
        name: &String,
        id: String,
        now: Timespec,
        size: u64,
        hash: String,
    ) -> (created: Result<INode, ActionError>)
        requires
            old(self).wf(),
        ensures
            final(self).wf(),
            match created {
                Ok(inode) => {
                    &&& old(self)@.insert_error(parent@, name@, id@) is None
                    &&& final(self)@ == old(self)@.with_file(
                        parent@,
                        name@,
                        id@,
                        now,
                        size,
                        hash@,
                    )
                    &&& inode@ == (INodeView {
                        row: old(self)@.file_row(parent@, name@, id@, now),
                        size,
                    })
                },
                Err(e) => {
                    &&& old(self)@.insert_error(parent@, name@, id@) == Some(e.kind())
                    &&& final(self)@ == old(self)@
                },
            },
    {
        match self.check_insert(parent, name, &id) {
            Ok(()) => {},
            Err(e) => {
                return Err(e);
            },
        }
        let version = FileVersion {
            id: id.clone(),
            version: 1,
            source_version: NO_VERSION,
            size,
            hash,
        };
        let row = INodeRow {
            ino: self.next_ino,
            id,
            parent: parent.clone(),
            name: name.clone(),
            kind: INodeKind::RegularFile,
            atime: now,
            mtime: now,
            ctime: now,
            crtime: now,
            nlink: 1,
            current_version: 1,
        };
        let inode = row.with_size(size);
        self.rows.push(row);
        self.versions.push(version);
        self.next_ino = self.next_ino + 1;
        proof {
            let before = old(self)@;
            before.lemma_with_file_wf(parent@, name@, id@, now, size, hash@);
            assert(self@.rows =~= before.with_file(parent@, name@, id@, now, size, hash@).rows);
            assert(self@.versions =~= before.with_file(
                parent@,
                name@,
                id@,
                now,
                size,
                hash@,
            ).versions);
        }
        Ok(inode)
    }

    /// The index of the row that row `at` names as its parent.
    fn parent_index(&self, at: usize) -> (parent: usize)
        requires
            self.wf(),
            1 <= at < self@.rows.len(),
        ensures
            self@.id_at(self@.rows[at as int].parent, parent as int),
            self@.rows[parent as int].kind == INodeKind::Directory,
    {
        proof {
            reveal(TableView::wf);
        }
        proof {
            assert(self@.is_directory(self@.rows[at as int].parent));
            let p = choose|p: int| #[trigger]
                self@.id_at(self@.rows[at as int].parent, p) && self@.rows[p].kind
                    == INodeKind::Directory;
            self@.lemma_id_index(self@.rows[at as int].parent, p);
        }
        match self.find_id(&self.rows[at].parent) {
            Some(parent) => {
                proof {
                    self@.lemma_id_index(self@.rows[at as int].parent, parent as int);
                }
                parent
            },
            None => vstd::pervasive::unreached(),
        }
    }

    /// Whether row `top` is row `start` or one of its ancestors.
    fn row_is_under(&self, start: usize, top: usize) -> (under: bool)
        requires
            self.wf(),
            start < self@.rows.len(),
            top < self@.rows.len(),
        ensures
            under == self@.is_under(self@.rows[start as int].id, self@.rows[top as int].id),
    {
        proof {
            reveal(TableView::wf);
        }
        let ghost from = self@.rows[start as int].id;
        let ghost goal = self@.rows[top as int].id;
        let ghost rank = choose|rank: spec_fn(Seq<char>) -> nat| self@.ranked(rank);
        let ghost mut steps: nat = 0;
        let mut at = start;
        loop
            invariant
                self.wf(),
                self@.ranked(rank),
                at < self@.rows.len(),
                top < self@.rows.len(),
                from == self@.rows[start as int].id,
                goal == self@.rows[top as int].id,
                self@.ancestor(from, steps) == self@.rows[at as int].id,
                forall|k: nat| k < steps ==> #[trigger] self@.ancestor(from, k) != goal,
            decreases rank(self@.rows[at as int].id),
        {
            proof {
                reveal(TableView::wf);
            }
            if at == top {
                return true;
            }
            if at == 0 {
                proof {
                    assert forall|k: nat| #[trigger] self@.ancestor(from, k) != goal by {
                        if k >= steps {
                            self@.lemma_ancestor_past_root(from, steps, k);
                        }
                    }
                }
                return false;
            }
            let parent = self.parent_index(at);
            proof {
                self@.lemma_ancestor_step(from, steps);
                self@.lemma_parent_of(at as int);
                steps = steps + 1;
            }
            at = parent;
        }
    }

    /// Moves the inode `id` to the entry `new_name` of the directory with
    /// the identity `new_parent`, at the time `now`. Only the moved row
    /// changes: its parent, its name, and its times of modification and
    /// change.
    ///
    /// The move is refused with `NoEntry` where the inode or the new parent
    /// does not exist, with `NotADirectory` where the new parent is no
    /// directory, with `NotImplemented` for the root, with `FileExists`
    /// where another inode holds the new place, and with `Conflict` where
    /// the new parent is the inode itself or lies under it. A refusal leaves
    /// the table as it was.
    pub fn rename(
        &mut self,
        id: &String,
        new_parent: &String,
        new_name: &String,
        now: Timespec,
    ) -> (moved: Result<INode, ActionError>)
        requires
            old(self).wf(),
        ensures
            final(self).wf(),
            match moved {
                Ok(inode) => {
                    &&& old(self)@.rename_error(id@, new_parent@, new_name@) is None
                    &&& final(self)@ == old(self)@.renamed(id@, new_parent@, new_name@, now)
                    &&& Some(inode@) == final(self)@.by_id(id@)
                },
                Err(e) => {
                    &&& old(self)@.rename_error(id@, new_parent@, new_name@) == Some(e.kind())
                    &&& final(self)@ == old(self)@
                },
            },
    {
        proof {
            reveal(TableView::wf);
        }
        let at = match self.find_id(id) {
            Some(at) => at,
            None => {
                return Err(ActionError::NoEntry);
            },
        };
        let to = match self.find_id(new_parent) {
            Some(to) => to,
            None => {
                return Err(ActionError::NoEntry);
            },
        };
        proof {
            self@.lemma_id_index(id@, at as int);
            self@.lemma_id_index(new_parent@, to as int);
            self@.lemma_id_index(self@.root_id(), 0);
        }
        if !self.rows[to].kind.is_directory() {
            return Err(ActionError::NotADirectory);
        }
        if at == 0 {
            return Err(ActionError::NotImplemented);
        }
        match self.find_entry(new_parent, new_name) {
            Some(held) => {
                proof {
                    self@.lemma_entry_index(new_parent@, new_name@, held as int);
                }
                if held != at {
                    return Err(ActionError::FileExists);
                }
            },
            None => {},
        }
        if self.row_is_under(to, at) {
            return Err(
                ActionError::Conflict("the new parent lies under the moved entry".to_owned()),
            );
        }
        let row = &self.rows[at];
        let moved = INodeRow {
            ino: row.ino,
            id: row.id.clone(),
            parent: new_parent.clone(),
            name: new_name.clone(),
            kind: row.kind,
            atime: row.atime,
            mtime: now,
            ctime: now,
            crtime: row.crtime,
            nlink: row.nlink,
            current_version: row.current_version,
        };
        self.rows.set(at, moved);
        proof {
            let before = old(self)@;
            before.lemma_renamed_wf(id@, new_parent@, new_name@, now);
            assert(self@.rows =~= before.renamed(id@, new_parent@, new_name@, now).rows);
            assert(self@.id_at(id@, at as int));
            self@.lemma_id_index(id@, at as int);
        }
        Ok(self.join(at))
    }

    /// The names on the way from the root down to row `at`, added to
    /// `names`.
    fn push_names(
        &self,
        at: usize,
        names: &mut Vec<String>,
        Ghost(rank): Ghost<spec_fn(Seq<char>) -> nat>,
    )
        requires
            self.wf(),
            self@.ranked(rank),
            at < self@.rows.len(),
        ensures
            texts(final(names)@) == texts(old(names)@) + self@.path_names(
                self@.rows[at as int].id,
            ),
        decreases rank(self@.rows[at as int].id),
    {
        proof {
            self@.lemma_path_names(at as int);
        }
        if at != 0 {
            let parent = self.parent_index(at);
            self.push_names(parent, names, Ghost(rank));
            let ghost listed = names@;
            names.push(self.rows[at].name.clone());
            proof {
                assert(texts(names@) =~= texts(listed).push(self@.rows[at as int].name));
                assert(texts(names@) =~= texts(old(names)@) + self@.path_names(
                    self@.rows[at as int].id,
                ));
            }
        } else {
            proof {
                assert(texts(names@) =~= texts(old(names)@) + self@.path_names(
                    self@.rows[at as int].id,
                ));
            }
        }
    }

    /// The logical path of the inode with the identity `id`: the names from
    /// the root's child down to the inode itself, none for the root. `None`
    /// where the table holds no such inode.
    pub fn path_names(&self, id: &String) -> (path: Option<Vec<String>>)
        requires
            self.wf(),
        ensures
            match path {
                Some(names) => self@.has_id(id@) && texts(names@) == self@.path_names(id@),
                None => !self@.has_id(id@),
            },
    {
        proof {
            reveal(TableView::wf);
        }
        match self.find_id(id) {
            Some(at) => {
                let mut names: Vec<String> = Vec::new();
                let ghost rank = choose|rank: spec_fn(Seq<char>) -> nat| self@.ranked(rank);
                self.push_names(at, &mut names, Ghost(rank));
                proof {
                    assert(texts(names@) =~= self@.path_names(id@));
                }
                Some(names)
            },
            None => None,
        }
    }

    /// The highest version number of the inode `id`; 0 where it has none.
    pub fn latest_version(&self, id: &String) -> (latest: u64)
        ensures
            latest == self@.latest_version(id@),
    {
        let mut latest: u64 = 0;
        let mut j: usize = 0;
        proof {
            assert(self@.versions.take(0) =~= Seq::<VersionView>::empty());
        }
        while j < self.versions.len()
            invariant
                j <= self.versions.len(),
                latest == latest_in(self@.versions.take(j as int), id@),
            decreases self.versions.len() - j,
        {
            proof {
                assert(self@.versions.take(j + 1).drop_last() =~= self@.versions.take(j as int));
            }
            if self.versions[j].id == *id && self.versions[j].version > latest {
                latest = self.versions[j].version;
            }
            j += 1;
        }
        proof {
            assert(self@.versions.take(j as int) =~= self@.versions);
        }
        latest
    }

    /// Tests whether a version derived from `source_version` can be appended
    /// to the inode `id`, and finds the latest version that it has.
    fn check_append(&self, id: &String, source_version: u64) -> (checked: Result<u64, ActionError>)
        requires
            self.wf(),
        ensures
            match checked {
                Ok(latest) => self@.append_error(id@, source_version) is None && latest
                    == self@.latest_version(id@),
                Err(e) => self@.append_error(id@, source_version) == Some(e.kind()),
            },
    {
        proof {
            reveal(TableView::wf);
        }
        let at = match self.find_id(id) {
            Some(at) => at,
            None => {
                return Err(ActionError::NoEntry);
            },
        };
        proof {
            self@.lemma_id_index(id@, at as int);
        }
        if !self.rows[at].kind.is_regular_file() {
            return Err(ActionError::IsADirectory);
        }
        if source_version != NO_VERSION && self.find_version(id, source_version).is_none() {
            return Err(ActionError::NoEntry);
        }
        let latest = self.latest_version(id);
        if latest == u64::MAX {
            return Err(ActionError::NoSpaceLeftOnDevice);
        }
        Ok(latest)
    }

    /// Appends a version of the given size and content hash to the regular
    /// file with the identity `id`, derived from `source_version`
    /// (`NO_VERSION` for none), and returns its number: the next after the
    /// file's latest. No row and no earlier version changes; which version is
    /// current stays as it was.
    ///
    /// It is refused with `NoEntry` where the inode does not exist or has no
    /// version `source_version`, with `IsADirectory` where it is no regular
    /// file, and with `NoSpaceLeftOnDevice` where the numbers are used up.
    pub fn append_version(
        &mut self,
        id: &String,
        size: u64,
        hash: String,
        source_version: u64,
    ) -> (appended: Result<u64, ActionError>)
        requires
            old(self).wf(),
        ensures
            final(self).wf(),
            match appended {
                Ok(version) => {
                    &&& old(self)@.append_error(id@, source_version) is None
                    &&& final(self)@ == old(self)@.with_version(id@, size, hash@, source_version)
                    &&& version == old(self)@.latest_version(id@) + 1
                },
                Err(e) => {
                    &&& old(self)@.append_error(id@, source_version) == Some(e.kind())
                    &&& final(self)@ == old(self)@
                },
            },
    {
        let latest = match self.check_append(id, source_version) {
            Ok(latest) => latest,
            Err(e) => {
                return Err(e);
            },
        };
        let version = latest + 1;
        let added = FileVersion { id: id.clone(), version, source_version, size, hash };
        proof {
            assert(added@ == old(self)@.next_version(id@, size, hash@, source_version));
        }
        self.versions.push(added);
        proof {
            let before = old(self)@;
            let after = before.with_version(id@, size, hash@, source_version);
            assert(self@.versions =~= after.versions);
            assert(self@ == after);
            before.lemma_with_version_wf(id@, size, hash@, source_version);
        }
        Ok(version)
    }

    /// Makes version `version` the current one of the regular file with the
    /// identity `id`, at the time `now`: a step of its own, to be taken once
    /// the version is in the store.
    ///
    /// It is refused with `NoEntry` where the inode does not exist or has no
    /// such version, and with `IsADirectory` where it is no regular file.
    pub fn set_current_version(
        &mut self,
        id: &String,
        version: u64,
        now: Timespec,
    ) -> (switched: Result<(), ActionError>)
        requires
            old(self).wf(),
        ensures
            final(self).wf(),
            match switched {
                Ok(()) => {
                    &&& old(self)@.switch_error(id@, version) is None
                    &&& final(self)@ == old(self)@.switched(id@, version, now)
                },
                Err(e) => {
                    &&& old(self)@.switch_error(id@, version) == Some(e.kind())
                    &&& final(self)@ == old(self)@
                },
            },
    {
        proof {
            reveal(TableView::wf);
        }
        let at = match self.find_id(id) {
            Some(at) => at,
            None => {
                return Err(ActionError::NoEntry);
            },
        };
        proof {
            self@.lemma_id_index(id@, at as int);
        }
        if !self.rows[at].kind.is_regular_file() {
            return Err(ActionError::IsADirectory);
        }
        if self.find_version(id, version).is_none() {
            return Err(ActionError::NoEntry);
        }
        let row = &self.rows[at];
        let switched = INodeRow {
            ino: row.ino,
            id: row.id.clone(),
            parent: row.parent.clone(),
            name: row.name.clone(),
            kind: row.kind,
            atime: row.atime,
            mtime: now,
            ctime: now,
            crtime: row.crtime,
            nlink: row.nlink,
            current_version: version,
        };
        self.rows.set(at, switched);
        proof {
            let before = old(self)@;
            before.lemma_switched_wf(id@, version, now);
            assert(self@.rows =~= before.switched(id@, version, now).rows);
            assert(self@.versions =~= before.versions);
        }
        Ok(())
    }
}

} // verus!
