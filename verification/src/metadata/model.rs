//! The inode table and the version store as mathematical values, and what
//! it means for them to be well-formed.

use vstd::prelude::*;
use crate::metadata::INodeKind;
use crate::metadata::INodeView;
use crate::metadata::RowView;
use crate::metadata::Timespec;
use crate::metadata::VersionView;
use crate::types::action::ErrorKind;

verus! {

/// The state of the metadata engine: the rows of the inode table in the
/// order of their creation, the content versions in the order in which they
/// were appended, and the number the next inode will get.
pub struct TableView {
    pub rows: Seq<RowView>,
    pub versions: Seq<VersionView>,
    pub next_ino: u64,
}

impl TableView {
    /// Row `i` carries the number `ino`.
    pub open spec fn ino_at(self, ino: u64, i: int) -> bool {
        0 <= i < self.rows.len() && self.rows[i].ino == ino
    }

    pub open spec fn has_ino(self, ino: u64) -> bool {
        exists|i: int| #[trigger] self.ino_at(ino, i)
    }

    pub open spec fn index_of_ino(self, ino: u64) -> int {
        choose|i: int| #[trigger] self.ino_at(ino, i)
    }

    /// Row `i` carries the identity `id`.
    pub open spec fn id_at(self, id: Seq<char>, i: int) -> bool {
        0 <= i < self.rows.len() && self.rows[i].id == id
    }

    pub open spec fn has_id(self, id: Seq<char>) -> bool {
        exists|i: int| #[trigger] self.id_at(id, i)
    }

    pub open spec fn index_of_id(self, id: Seq<char>) -> int {
        choose|i: int| #[trigger] self.id_at(id, i)
    }

    /// Row `i` is the entry `name` of the directory `parent`.
    pub open spec fn entry_at(self, parent: Seq<char>, name: Seq<char>, i: int) -> bool {
        0 <= i < self.rows.len() && self.rows[i].parent == parent && self.rows[i].name == name
    }

    pub open spec fn has_entry(self, parent: Seq<char>, name: Seq<char>) -> bool {
        exists|i: int| #[trigger] self.entry_at(parent, name, i)
    }

    pub open spec fn index_of_entry(self, parent: Seq<char>, name: Seq<char>) -> int {
        choose|i: int| #[trigger] self.entry_at(parent, name, i)
    }

    /// Version `j` of the store is version `version` of the inode `id`.
    pub open spec fn version_at(self, id: Seq<char>, version: u64, j: int) -> bool {
        0 <= j < self.versions.len() && self.versions[j].id == id && self.versions[j].version
            == version
    }

    pub open spec fn has_version(self, id: Seq<char>, version: u64) -> bool {
        exists|j: int| #[trigger] self.version_at(id, version, j)
    }

    pub open spec fn index_of_version(self, id: Seq<char>, version: u64) -> int {
        choose|j: int| #[trigger] self.version_at(id, version, j)
    }

    /// The version `version` of the inode `id`, if the store holds it.
    pub open spec fn resolve(self, id: Seq<char>, version: u64) -> Option<VersionView> {
        if self.has_version(id, version) {
            Some(self.versions[self.index_of_version(id, version)])
        } else {
            None
        }
    }

    /// The size that a row reports: that of its current version, and 0 where
    /// it names none or one that the store does not hold.
    pub open spec fn size_of(self, row: RowView) -> u64 {
        match self.resolve(row.id, row.current_version) {
            Some(v) => v.size,
            None => 0,
        }
    }

    /// Row `i` joined with the size of its current version.
    pub open spec fn inode_at(self, i: int) -> INodeView {
        INodeView { row: self.rows[i], size: self.size_of(self.rows[i]) }
    }

    pub open spec fn by_ino(self, ino: u64) -> Option<INodeView> {
        if self.has_ino(ino) {
            Some(self.inode_at(self.index_of_ino(ino)))
        } else {
            None
        }
    }

    pub open spec fn by_id(self, id: Seq<char>) -> Option<INodeView> {
        if self.has_id(id) {
            Some(self.inode_at(self.index_of_id(id)))
        } else {
            None
        }
    }

    pub open spec fn lookup(self, parent: Seq<char>, name: Seq<char>) -> Option<INodeView> {
        if self.has_entry(parent, name) {
            Some(self.inode_at(self.index_of_entry(parent, name)))
        } else {
            None
        }
    }

    /// Whether a row is a child of `parent`: the root, which is its own
    /// parent, is no child of itself.
    pub open spec fn is_child_of(row: RowView, parent: Seq<char>) -> bool {
        row.parent == parent && row.id != parent
    }

    /// The test that picks the children of `parent` among the rows.
    pub open spec fn child_of(parent: Seq<char>) -> spec_fn(RowView) -> bool {
        |row: RowView| Self::is_child_of(row, parent)
    }

    /// The join of a row with the size of its current version.
    pub open spec fn joined(self) -> spec_fn(RowView) -> INodeView {
        |row: RowView| INodeView { row, size: self.size_of(row) }
    }

    /// The children of `parent`, in the order of their rows.
    pub open spec fn children(self, parent: Seq<char>) -> Seq<INodeView> {
        self.rows.filter(Self::child_of(parent)).map_values(self.joined())
    }

    /// Every inode of the table, in the order of the rows.
    pub open spec fn inodes(self) -> Seq<INodeView> {
        self.rows.map_values(self.joined())
    }

    pub open spec fn is_directory(self, id: Seq<char>) -> bool {
        exists|i: int| #[trigger] self.id_at(id, i) && self.rows[i].kind == INodeKind::Directory
    }

    pub open spec fn is_regular_file(self, id: Seq<char>) -> bool {
        exists|i: int| #[trigger]
            self.id_at(id, i) && self.rows[i].kind == INodeKind::RegularFile
    }

    /// Row 0 is the root: number 1, its own parent, no name, a directory.
    pub open spec fn root_ok(self) -> bool {
        &&& self.rows.len() >= 1
        &&& self.rows[0].ino == 1
        &&& self.rows[0].parent == self.rows[0].id
        &&& self.rows[0].name == Seq::<char>::empty()
        &&& self.rows[0].kind == INodeKind::Directory
    }

    pub open spec fn root_id(self) -> Seq<char> {
        self.rows[0].id
    }

    /// Every number was handed out before `next_ino`, and there are no more
    /// rows than numbers handed out.
    pub open spec fn inos_ok(self) -> bool {
        &&& self.rows.len() < self.next_ino
        &&& forall|i: int|
            0 <= i < self.rows.len() ==> 1 <= (#[trigger] self.rows[i]).ino < self.next_ino
    }

    pub open spec fn inos_distinct(self) -> bool {
        forall|i: int, j: int|
            0 <= i < self.rows.len() && 0 <= j < self.rows.len() && i != j ==> (
            #[trigger] self.rows[i]).ino != (#[trigger] self.rows[j]).ino
    }

    pub open spec fn ids_distinct(self) -> bool {
        forall|i: int, j: int|
            0 <= i < self.rows.len() && 0 <= j < self.rows.len() && i != j ==> (
            #[trigger] self.rows[i]).id != (#[trigger] self.rows[j]).id
    }

    /// No two rows share both parent and name.
    pub open spec fn entries_distinct(self) -> bool {
        forall|i: int, j: int|
            0 <= i < self.rows.len() && 0 <= j < self.rows.len() && i != j ==> !((
            #[trigger] self.rows[i]).parent == (#[trigger] self.rows[j]).parent
                && self.rows[i].name == self.rows[j].name)
    }

    /// The parent of every row but the root's is a directory of the table.
    pub open spec fn parents_ok(self) -> bool {
        forall|i: int|
            1 <= i < self.rows.len() ==> self.is_directory((#[trigger] self.rows[i]).parent)
    }

    /// `rank` grows from every parent to its child.
    pub open spec fn ranked(self, rank: spec_fn(Seq<char>) -> nat) -> bool {
        forall|i: int|
            1 <= i < self.rows.len() ==> rank((#[trigger] self.rows[i]).parent) < rank(
                self.rows[i].id,
            )
    }

    /// No chain of parents comes back to where it started.
    pub open spec fn acyclic(self) -> bool {
        exists|rank: spec_fn(Seq<char>) -> nat| #[trigger] self.ranked(rank)
    }

    /// A directory names no version; a regular file names one that the store
    /// holds under the file's `id`.
    pub open spec fn current_ok(self) -> bool {
        forall|i: int|
            0 <= i < self.rows.len() ==> match (#[trigger] self.rows[i]).kind {
                INodeKind::Directory => self.rows[i].current_version == 0,
                INodeKind::RegularFile => self.has_version(
                    self.rows[i].id,
                    self.rows[i].current_version,
                ),
            }
    }

    /// Every version belongs to a regular file, has a number of its own, and
    /// was derived from nothing or from an earlier version of the same file.
    pub open spec fn versions_ok(self) -> bool {
        forall|j: int|
            0 <= j < self.versions.len() ==> {
                let v = #[trigger] self.versions[j];
                &&& v.version >= 1
                &&& v.source_version < v.version
                &&& v.source_version != 0 ==> self.has_version(v.id, v.source_version)
                &&& self.is_regular_file(v.id)
            }
    }

    pub open spec fn versions_distinct(self) -> bool {
        forall|j: int, k: int|
            0 <= j < self.versions.len() && 0 <= k < self.versions.len() && j != k ==> !((
            #[trigger] self.versions[j]).id == (#[trigger] self.versions[k]).id
                && self.versions[j].version == self.versions[k].version)
    }

    /// The invariants of the data model, all of them.
    #[verifier::opaque]
    pub open spec fn wf(self) -> bool {
        &&& self.root_ok()
        &&& self.inos_ok()
        &&& self.inos_distinct()
        &&& self.ids_distinct()
        &&& self.entries_distinct()
        &&& self.parents_ok()
        &&& self.acyclic()
        &&& self.current_ok()
        &&& self.versions_ok()
        &&& self.versions_distinct()
    }

    /// The table of an empty tree: the root alone.
    pub open spec fn initial(root_id: Seq<char>, now: Timespec) -> TableView {
        TableView {
            rows: seq![
                RowView {
                    ino: 1,
                    id: root_id,
                    parent: root_id,
                    name: Seq::empty(),
                    kind: INodeKind::Directory,
                    atime: now,
                    mtime: now,
                    ctime: now,
                    crtime: now,
                    nlink: 2,
                    current_version: 0,
                },
            ],
            versions: Seq::empty(),
            next_ino: 2,
        }
    }

    pub proof fn lemma_initial_wf(root_id: Seq<char>, now: Timespec)
        ensures
            Self::initial(root_id, now).wf(),
    {
        reveal(TableView::wf);
        let t = Self::initial(root_id, now);
        let rank = |id: Seq<char>| 0nat;
        assert(t.ranked(rank));
    }

    /// In a well-formed table a number is found in one row only.
    pub proof fn lemma_ino_index(self, ino: u64, i: int)
        requires
            self.inos_distinct(),
            self.ino_at(ino, i),
        ensures
            self.has_ino(ino),
            self.index_of_ino(ino) == i,
            self.by_ino(ino) == Some(self.inode_at(i)),
    {
    }

    pub proof fn lemma_id_index(self, id: Seq<char>, i: int)
        requires
            self.ids_distinct(),
            self.id_at(id, i),
        ensures
            self.has_id(id),
            self.index_of_id(id) == i,
            self.by_id(id) == Some(self.inode_at(i)),
    {
    }

    pub proof fn lemma_entry_index(self, parent: Seq<char>, name: Seq<char>, i: int)
        requires
            self.entries_distinct(),
            self.entry_at(parent, name, i),
        ensures
            self.has_entry(parent, name),
            self.index_of_entry(parent, name) == i,
            self.lookup(parent, name) == Some(self.inode_at(i)),
    {
    }

    pub proof fn lemma_version_index(self, id: Seq<char>, version: u64, j: int)
        requires
            self.versions_distinct(),
            self.version_at(id, version, j),
        ensures
            self.has_version(id, version),
            self.index_of_version(id, version) == j,
            self.resolve(id, version) == Some(self.versions[j]),
    {
    }

    /// Why no entry `name` with the identity `id` can be created under
    /// `parent`; `None` where it can. The tests are made in this order.
    pub open spec fn insert_error(
        self,
        parent: Seq<char>,
        name: Seq<char>,
        id: Seq<char>,
    ) -> Option<ErrorKind> {
        if !self.has_id(parent) {
            Some(ErrorKind::NoEntry)
        } else if self.rows[self.index_of_id(parent)].kind != INodeKind::Directory {
            Some(ErrorKind::NotADirectory)
        } else if self.has_entry(parent, name) {
            Some(ErrorKind::FileExists)
        } else if self.has_id(id) {
            Some(ErrorKind::Conflict)
        } else if self.next_ino == u64::MAX {
            Some(ErrorKind::NoSpaceLeftOnDevice)
        } else {
            None
        }
    }

    /// The row of a directory created at `now`.
    pub open spec fn dir_row(
        self,
        parent: Seq<char>,
        name: Seq<char>,
        id: Seq<char>,
        now: Timespec,
    ) -> RowView {
        RowView {
            ino: self.next_ino,
            id,
            parent,
            name,
            kind: INodeKind::Directory,
            atime: now,
            mtime: now,
            ctime: now,
            crtime: now,
            nlink: 1,
            current_version: 0,
        }
    }

    /// The table after a directory was created.
    pub open spec fn with_dir(
        self,
        parent: Seq<char>,
        name: Seq<char>,
        id: Seq<char>,
        now: Timespec,
    ) -> TableView {
        TableView {
            rows: self.rows.push(self.dir_row(parent, name, id, now)),
            versions: self.versions,
            next_ino: (self.next_ino + 1) as u64,
        }
    }

    /// The row of a regular file created at `now`, with version 1 current.
    pub open spec fn file_row(
        self,
        parent: Seq<char>,
        name: Seq<char>,
        id: Seq<char>,
        now: Timespec,
    ) -> RowView {
        RowView {
            ino: self.next_ino,
            id,
            parent,
            name,
            kind: INodeKind::RegularFile,
            atime: now,
            mtime: now,
            ctime: now,
            crtime: now,
            nlink: 1,
            current_version: 1,
        }
    }

    /// The first version of a file: number 1, derived from nothing.
    pub open spec fn first_version(id: Seq<char>, size: u64, hash: Seq<char>) -> VersionView {
        VersionView { id, version: 1, source_version: 0, size, hash }
    }

    /// The table after a regular file was created with its first version.
    pub open spec fn with_file(
        self,
        parent: Seq<char>,
        name: Seq<char>,
        id: Seq<char>,
        now: Timespec,
        size: u64,
        hash: Seq<char>,
    ) -> TableView {
        TableView {
            rows: self.rows.push(self.file_row(parent, name, id, now)),
            versions: self.versions.push(Self::first_version(id, size, hash)),
            next_ino: (self.next_ino + 1) as u64,
        }
    }

    /// A table that grew by rows and versions at its end keeps what it knew
    /// of identities and versions.
    pub proof fn lemma_grown(self, after: TableView)
        requires
            self.rows.len() <= after.rows.len(),
            self.versions.len() <= after.versions.len(),
            forall|i: int| 0 <= i < self.rows.len() ==> after.rows[i] == self.rows[i],
            forall|j: int| 0 <= j < self.versions.len() ==> after.versions[j] == self.versions[j],
        ensures
            forall|id: Seq<char>| self.has_id(id) ==> after.has_id(id),
            forall|id: Seq<char>| self.is_directory(id) ==> after.is_directory(id),
            forall|id: Seq<char>| self.is_regular_file(id) ==> after.is_regular_file(id),
            forall|id: Seq<char>, version: u64| #[trigger]
                self.has_version(id, version) ==> after.has_version(id, version),
    {
        assert forall|id: Seq<char>| self.has_id(id) implies after.has_id(id) by {
            let i = choose|i: int| self.id_at(id, i);
            assert(after.id_at(id, i));
        }
        assert forall|id: Seq<char>| self.is_directory(id) implies after.is_directory(id) by {
            let i = choose|i: int| #[trigger]
                self.id_at(id, i) && self.rows[i].kind == INodeKind::Directory;
            assert(after.id_at(id, i));
        }
        assert forall|id: Seq<char>| self.is_regular_file(id) implies after.is_regular_file(
            id,
        ) by {
            let i = choose|i: int| #[trigger]
                self.id_at(id, i) && self.rows[i].kind == INodeKind::RegularFile;
            assert(after.id_at(id, i));
        }
        assert forall|id: Seq<char>, version: u64| #[trigger]
            self.has_version(id, version) implies after.has_version(id, version) by {
            let j = choose|j: int| self.version_at(id, version, j);
            assert(after.version_at(id, version, j));
        }
    }

    /// A rank for the table after a leaf with a new identity was added.
    proof fn lemma_leaf_acyclic(self, after: TableView, leaf: RowView)
        requires
            self.wf(),
            after.rows == self.rows.push(leaf),
            self.has_id(leaf.parent),
            !self.has_id(leaf.id),
        ensures
            after.acyclic(),
    {
        reveal(TableView::wf);
        let rank = choose|rank: spec_fn(Seq<char>) -> nat| self.ranked(rank);
        let grown = |x: Seq<char>|
            if x == leaf.id {
                rank(leaf.parent) + 1
            } else {
                rank(x)
            };
        assert forall|i: int| 1 <= i < after.rows.len() implies grown(
            (#[trigger] after.rows[i]).parent,
        ) < grown(after.rows[i].id) by {
            if i < self.rows.len() {
                assert(after.rows[i] == self.rows[i]);
                assert(self.id_at(self.rows[i].id, i));
                assert(self.is_directory(self.rows[i].parent));
                let p = choose|p: int| #[trigger]
                    self.id_at(self.rows[i].parent, p) && self.rows[p].kind
                        == INodeKind::Directory;
                assert(self.id_at(self.rows[i].parent, p));
            }
        }
        assert(after.ranked(grown));
    }

    /// Creating a directory keeps the table well-formed.
    pub proof fn lemma_with_dir_wf(
        self,
        parent: Seq<char>,
        name: Seq<char>,
        id: Seq<char>,
        now: Timespec,
    )
        requires
            self.wf(),
            self.insert_error(parent, name, id) is None,
        ensures
            self.with_dir(parent, name, id, now).wf(),
    {
        reveal(TableView::wf);
        let after = self.with_dir(parent, name, id, now);
        let row = self.dir_row(parent, name, id, now);
        self.lemma_grown(after);
        self.lemma_leaf_acyclic(after, row);
        self.lemma_pushed_row_wf(after, row);
    }

    /// What the invariants on rows need of a new last row.
    proof fn lemma_pushed_row_wf(self, after: TableView, row: RowView)
        requires
            self.wf(),
            after.rows == self.rows.push(row),
            after.next_ino == self.next_ino + 1,
            row.ino == self.next_ino,
            self.has_id(row.parent),
            self.rows[self.index_of_id(row.parent)].kind == INodeKind::Directory,
            !self.has_entry(row.parent, row.name),
            !self.has_id(row.id),
            forall|id: Seq<char>| self.is_directory(id) ==> after.is_directory(id),
        ensures
            after.root_ok(),
            after.inos_ok(),
            after.inos_distinct(),
            after.ids_distinct(),
            after.entries_distinct(),
            after.parents_ok(),
    {
        reveal(TableView::wf);
        let n = self.rows.len() as int;
        assert forall|i: int, j: int|
            0 <= i < after.rows.len() && 0 <= j < after.rows.len() && i != j implies (
        #[trigger] after.rows[i]).id != (#[trigger] after.rows[j]).id by {
            if i == n {
                assert(self.id_at(self.rows[j].id, j));
            } else if j == n {
                assert(self.id_at(self.rows[i].id, i));
            }
        }
        assert forall|i: int, j: int|
            0 <= i < after.rows.len() && 0 <= j < after.rows.len() && i != j implies !((
        #[trigger] after.rows[i]).parent == (#[trigger] after.rows[j]).parent
            && after.rows[i].name == after.rows[j].name) by {
            if i == n {
                assert(self.entry_at(self.rows[j].parent, self.rows[j].name, j));
            } else if j == n {
                assert(self.entry_at(self.rows[i].parent, self.rows[i].name, i));
            }
        }
        assert forall|i: int| 1 <= i < after.rows.len() implies after.is_directory(
            (#[trigger] after.rows[i]).parent,
        ) by {
            if i == n {
                let p = self.index_of_id(row.parent);
                assert(self.id_at(row.parent, p));
                assert(self.is_directory(row.parent));
            } else {
                assert(after.rows[i] == self.rows[i]);
                assert(self.is_directory(self.rows[i].parent));
            }
        }
    }

    /// Creating a regular file keeps the table well-formed.
    pub proof fn lemma_with_file_wf(
        self,
        parent: Seq<char>,
        name: Seq<char>,
        id: Seq<char>,
        now: Timespec,
        size: u64,
        hash: Seq<char>,
    )
        requires
            self.wf(),
            self.insert_error(parent, name, id) is None,
        ensures
            self.with_file(parent, name, id, now, size, hash).wf(),
    {
        reveal(TableView::wf);
        let after = self.with_file(parent, name, id, now, size, hash);
        let row = self.file_row(parent, name, id, now);
        let n = self.rows.len() as int;
        let m = self.versions.len() as int;
        self.lemma_grown(after);
        self.lemma_leaf_acyclic(after, row);
        self.lemma_pushed_row_wf(after, row);
        assert(after.version_at(id, 1, m));
        assert(after.id_at(id, n));
        assert forall|j: int, k: int|
            0 <= j < after.versions.len() && 0 <= k < after.versions.len() && j != k implies !((
        #[trigger] after.versions[j]).id == (#[trigger] after.versions[k]).id
            && after.versions[j].version == after.versions[k].version) by {
            if j == m {
                assert(self.is_regular_file(self.versions[k].id));
            } else if k == m {
                assert(self.is_regular_file(self.versions[j].id));
            }
        }
        assert forall|i: int| 0 <= i < after.rows.len() implies match (
        #[trigger] after.rows[i]).kind {
            INodeKind::Directory => after.rows[i].current_version == 0,
            INodeKind::RegularFile => after.has_version(
                after.rows[i].id,
                after.rows[i].current_version,
            ),
        } by {
            if i < n {
                assert(after.rows[i] == self.rows[i]);
            }
        }
        assert forall|j: int| 0 <= j < after.versions.len() implies {
            let v = #[trigger] after.versions[j];
            &&& v.version >= 1
            &&& v.source_version < v.version
            &&& v.source_version != 0 ==> after.has_version(v.id, v.source_version)
            &&& after.is_regular_file(v.id)
        } by {
            if j < m {
                assert(after.versions[j] == self.versions[j]);
            }
        }
    }

    /// The parent of every inode is in the table.
    pub proof fn lemma_parent_exists(self, ino: u64)
        requires
            self.wf(),
            self.has_ino(ino),
        ensures
            self.has_id(self.rows[self.index_of_ino(ino)].parent),
    {
        reveal(TableView::wf);
        let i = self.index_of_ino(ino);
        assert(self.ino_at(ino, i));
        if i == 0 {
            assert(self.id_at(self.rows[0].id, 0));
        } else {
            assert(self.is_directory(self.rows[i].parent));
            let p = choose|p: int| #[trigger]
                self.id_at(self.rows[i].parent, p) && self.rows[p].kind == INodeKind::Directory;
            assert(self.id_at(self.rows[i].parent, p));
        }
    }

    /// A directory has fewer children than inode numbers were handed out.
    pub proof fn lemma_children_len(self, parent: Seq<char>)
        requires
            self.wf(),
        ensures
            self.children(parent).len() < self.next_ino,
    {
        reveal(TableView::wf);
        self.rows.lemma_filter_len(Self::child_of(parent));
    }

    /// A directory has no size: it names no version, and no version has the
    /// number 0.
    pub proof fn lemma_directory_size(self, i: int)
        requires
            self.wf(),
            0 <= i < self.rows.len(),
            self.rows[i].kind == INodeKind::Directory,
        ensures
            self.size_of(self.rows[i]) == 0,
    {
        reveal(TableView::wf);
        if self.has_version(self.rows[i].id, 0) {
            let j = self.index_of_version(self.rows[i].id, 0);
            assert(self.version_at(self.rows[i].id, 0, j));
            assert(self.versions[j].version >= 1);
        }
    }

    /// A directory that was just created is found under its identity and
    /// under its name, as the inode that its creation answered.
    pub proof fn lemma_created_dir(
        self,
        parent: Seq<char>,
        name: Seq<char>,
        id: Seq<char>,
        now: Timespec,
    )
        requires
            self.wf(),
            self.insert_error(parent, name, id) is None,
        ensures
            ({
                let after = self.with_dir(parent, name, id, now);
                let created = INodeView { row: self.dir_row(parent, name, id, now), size: 0 };
                &&& after.wf()
                &&& after.by_id(id) == Some(created)
                &&& after.by_ino(self.next_ino) == Some(created)
                &&& after.lookup(parent, name) == Some(created)
            }),
    {
        reveal(TableView::wf);
        let after = self.with_dir(parent, name, id, now);
        let n = self.rows.len() as int;
        self.lemma_with_dir_wf(parent, name, id, now);
        after.lemma_directory_size(n);
        assert(after.id_at(id, n));
        assert(after.ino_at(self.next_ino, n));
        assert(after.entry_at(parent, name, n));
        after.lemma_id_index(id, n);
        after.lemma_ino_index(self.next_ino, n);
        after.lemma_entry_index(parent, name, n);
    }

    /// Rows picked from rows with distinct identities have distinct
    /// identities.
    pub proof fn lemma_picked_distinct(rows: Seq<RowView>, pick: spec_fn(RowView) -> bool)
        requires
            forall|i: int, j: int|
                0 <= i < rows.len() && 0 <= j < rows.len() && i != j ==> (#[trigger] rows[i]).id
                    != (#[trigger] rows[j]).id,
        ensures
            forall|a: int, b: int|
                0 <= a < rows.filter(pick).len() && 0 <= b < rows.filter(pick).len() && a != b
                    ==> (#[trigger] rows.filter(pick)[a]).id != (#[trigger] rows.filter(
                    pick,
                )[b]).id,
        decreases rows.len(),
    {
        reveal(Seq::filter);
        if rows.len() > 0 {
            let earlier = rows.drop_last();
            let picked = earlier.filter(pick);
            Self::lemma_picked_distinct(earlier, pick);
            if pick(rows.last()) {
                assert forall|a: int| 0 <= a < picked.len() implies (#[trigger] picked[a]).id
                    != rows.last().id by {
                    assert(picked.contains(picked[a]));
                    earlier.lemma_filter_contains_rev(pick, picked[a]);
                    let i = choose|i: int| 0 <= i < earlier.len() && earlier[i] == picked[a];
                    assert(rows[i] == picked[a]);
                }
            }
        }
    }

    /// Every child of a directory is a row that names it as its parent, the
    /// root's own row left out.
    pub proof fn lemma_child_is_row(self, parent: Seq<char>, k: int) -> (i: int)
        requires
            0 <= k < self.children(parent).len(),
        ensures
            0 <= i < self.rows.len(),
            Self::is_child_of(self.rows[i], parent),
            self.children(parent)[k] == self.inode_at(i),
    {
        let pick = Self::child_of(parent);
        let picked = self.rows.filter(pick);
        assert(picked.contains(picked[k]));
        self.rows.lemma_filter_contains_rev(pick, picked[k]);
        let i = choose|i: int| 0 <= i < self.rows.len() && self.rows[i] == picked[k];
        i
    }

    /// Every row that names a directory as its parent, the root's own row
    /// left out, is among the children of the directory.
    pub proof fn lemma_row_is_child(self, parent: Seq<char>, i: int) -> (k: int)
        requires
            0 <= i < self.rows.len(),
            Self::is_child_of(self.rows[i], parent),
        ensures
            0 <= k < self.children(parent).len(),
            self.children(parent)[k] == self.inode_at(i),
    {
        let pick = Self::child_of(parent);
        let picked = self.rows.filter(pick);
        self.rows.lemma_filter_contains(pick, i);
        let k = choose|k: int| 0 <= k < picked.len() && picked[k] == self.rows[i];
        k
    }

    /// No child of a directory is listed twice: two places among the
    /// children hold different identities, numbers and names.
    pub proof fn lemma_children_distinct(self, parent: Seq<char>, a: int, b: int)
        requires
            self.ids_distinct(),
            self.inos_distinct(),
            self.entries_distinct(),
            0 <= a < self.children(parent).len(),
            0 <= b < self.children(parent).len(),
            a != b,
        ensures
            self.children(parent)[a].row.id != self.children(parent)[b].row.id,
            self.children(parent)[a].row.ino != self.children(parent)[b].row.ino,
            self.children(parent)[a].row.name != self.children(parent)[b].row.name,
    {
        let pick = Self::child_of(parent);
        let picked = self.rows.filter(pick);
        Self::lemma_picked_distinct(self.rows, pick);
        assert(picked[a].id != picked[b].id);
        let i = self.lemma_child_is_row(parent, a);
        let j = self.lemma_child_is_row(parent, b);
        assert(self.rows[i] == picked[a]);
        assert(self.rows[j] == picked[b]);
        assert(i != j);
    }
}

} // verus!
