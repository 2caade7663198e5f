//! The version store as a mathematical value: how versions are numbered,
//! appended and made current.

use vstd::prelude::*;
use crate::metadata::INodeKind;
use crate::metadata::RowView;
use crate::metadata::Timespec;
use crate::metadata::VersionView;
use crate::metadata::model::TableView;
use crate::types::action::ErrorKind;

verus! {

/// The highest version number that `versions` holds for the inode `id`; 0
/// where they hold none.
pub open spec fn latest_in(versions: Seq<VersionView>, id: Seq<char>) -> u64
    decreases versions.len(),
{
    if versions.len() == 0 {
        0
    } else {
        let earlier = latest_in(versions.drop_last(), id);
        let last = versions.last();
        if last.id == id && last.version > earlier {
            last.version
        } else {
            earlier
        }
    }
}

/// No version of `id` has a number above the latest.
pub proof fn lemma_latest_bounds(versions: Seq<VersionView>, id: Seq<char>, j: int)
    requires
        0 <= j < versions.len(),
        versions[j].id == id,
    ensures
        versions[j].version <= latest_in(versions, id),
    decreases versions.len(),
{
    if j < versions.len() - 1 {
        lemma_latest_bounds(versions.drop_last(), id, j);
    }
}

impl TableView {
    /// The highest version number of the inode `id`; 0 where it has none.
    pub open spec fn latest_version(self, id: Seq<char>) -> u64 {
        latest_in(self.versions, id)
    }

    /// Why no version derived from `source_version` can be appended to the
    /// inode `id`; `None` where it can. The tests are made in this order.
    pub open spec fn append_error(self, id: Seq<char>, source_version: u64) -> Option<ErrorKind> {
        if !self.has_id(id) {
            Some(ErrorKind::NoEntry)
        } else if self.rows[self.index_of_id(id)].kind != INodeKind::RegularFile {
            Some(ErrorKind::IsADirectory)
        } else if source_version != 0 && !self.has_version(id, source_version) {
            Some(ErrorKind::NoEntry)
        } else if self.latest_version(id) == u64::MAX {
            Some(ErrorKind::NoSpaceLeftOnDevice)
        } else {
            None
        }
    }

    /// The version that an append gives the inode `id`: the next number
    /// after its latest.
    pub open spec fn next_version(
        self,
        id: Seq<char>,
        size: u64,
        hash: Seq<char>,
        source_version: u64,
    ) -> VersionView {
        VersionView {
            id,
            version: (self.latest_version(id) + 1) as u64,
            source_version,
            size,
            hash,
        }
    }

    /// The store after a version was appended; no row and no earlier version
    /// changes.
    pub open spec fn with_version(
        self,
        id: Seq<char>,
        size: u64,
        hash: Seq<char>,
        source_version: u64,
    ) -> TableView {
        TableView {
            rows: self.rows,
            versions: self.versions.push(self.next_version(id, size, hash, source_version)),
            next_ino: self.next_ino,
        }
    }

    /// Rows that keep number, identity, parent, name and kind keep what the
    /// invariants say of rows alone.
    proof fn lemma_same_keys(self, after: TableView)
        requires
            self.root_ok(),
            self.inos_ok(),
            self.inos_distinct(),
            self.ids_distinct(),
            self.entries_distinct(),
            self.parents_ok(),
            self.acyclic(),
            after.next_ino == self.next_ino,
            after.rows.len() == self.rows.len(),
            forall|i: int|
                0 <= i < self.rows.len() ==> {
                    &&& (#[trigger] after.rows[i]).ino == self.rows[i].ino
                    &&& after.rows[i].id == self.rows[i].id
                    &&& after.rows[i].parent == self.rows[i].parent
                    &&& after.rows[i].name == self.rows[i].name
                    &&& after.rows[i].kind == self.rows[i].kind
                },
        ensures
            after.root_ok(),
            after.inos_ok(),
            after.inos_distinct(),
            after.ids_distinct(),
            after.entries_distinct(),
            after.parents_ok(),
            after.acyclic(),
    {
        self.lemma_same_ids(after);
        assert forall|i: int| 1 <= i < after.rows.len() implies after.is_directory(
            (#[trigger] after.rows[i]).parent,
        ) by {
            assert(self.is_directory(self.rows[i].parent));
        }
        let rank = choose|rank: spec_fn(Seq<char>) -> nat| self.ranked(rank);
        assert forall|i: int| 1 <= i < after.rows.len() implies rank(
            (#[trigger] after.rows[i]).parent,
        ) < rank(after.rows[i].id) by {
            assert(rank(self.rows[i].parent) < rank(self.rows[i].id));
        }
        assert(after.ranked(rank));
    }

    /// A version with the next number of its file, derived from nothing or
    /// from a version of the same file, keeps the store in order.
    proof fn lemma_appended(self, after: TableView, added: VersionView)
        requires
            self.versions_ok(),
            self.versions_distinct(),
            after.versions == self.versions.push(added),
            added.version == self.latest_version(added.id) + 1,
            added.source_version != 0 ==> self.has_version(added.id, added.source_version),
            after.is_regular_file(added.id),
            forall|id: Seq<char>| self.is_regular_file(id) ==> after.is_regular_file(id),
            forall|id: Seq<char>, version: u64| #[trigger]
                self.has_version(id, version) ==> after.has_version(id, version),
        ensures
            after.versions_ok(),
            after.versions_distinct(),
    {
        let m = self.versions.len() as int;
        assert forall|j: int, k: int|
            0 <= j < after.versions.len() && 0 <= k < after.versions.len() && j != k implies !((
        #[trigger] after.versions[j]).id == (#[trigger] after.versions[k]).id
            && after.versions[j].version == after.versions[k].version) by {
            if j == m && self.versions[k].id == added.id {
                lemma_latest_bounds(self.versions, added.id, k);
            } else if k == m && self.versions[j].id == added.id {
                lemma_latest_bounds(self.versions, added.id, j);
            }
        }
        assert forall|j: int| 0 <= j < after.versions.len() implies {
            let v = #[trigger] after.versions[j];
            &&& v.version >= 1
            &&& v.source_version < v.version
            &&& v.source_version != 0 ==> after.has_version(v.id, v.source_version)
            &&& after.is_regular_file(v.id)
        } by {
            if j < m {
                assert(after.versions[j] == self.versions[j]);
            } else if added.source_version != 0 {
                let k = choose|k: int| self.version_at(added.id, added.source_version, k);
                lemma_latest_bounds(self.versions, added.id, k);
            }
        }
    }

    /// Rows that keep kind and current version, over a store that lost
    /// nothing, name versions that the store holds.
    proof fn lemma_current_kept(self, after: TableView)
        requires
            self.current_ok(),
            after.rows.len() == self.rows.len(),
            forall|i: int|
                0 <= i < self.rows.len() ==> {
                    &&& (#[trigger] after.rows[i]).id == self.rows[i].id
                    &&& after.rows[i].kind == self.rows[i].kind
                    &&& after.rows[i].current_version == self.rows[i].current_version
                },
            forall|id: Seq<char>, version: u64| #[trigger]
                self.has_version(id, version) ==> after.has_version(id, version),
        ensures
            after.current_ok(),
    {
        assert forall|i: int| 0 <= i < after.rows.len() implies match (
        #[trigger] after.rows[i]).kind {
            INodeKind::Directory => after.rows[i].current_version == 0,
            INodeKind::RegularFile => after.has_version(
                after.rows[i].id,
                after.rows[i].current_version,
            ),
        } by {
            let row = self.rows[i];
            if row.kind == INodeKind::RegularFile {
                assert(self.has_version(row.id, row.current_version));
            }
        }
    }

    /// Appending a version keeps the table well-formed.
    pub proof fn lemma_with_version_wf(
        self,
        id: Seq<char>,
        size: u64,
        hash: Seq<char>,
        source_version: u64,
    )
        requires
            self.wf(),
            self.append_error(id, source_version) is None,
        ensures
            self.with_version(id, size, hash, source_version).wf(),
    {
        reveal(TableView::wf);
        let after = self.with_version(id, size, hash, source_version);
        let added = self.next_version(id, size, hash, source_version);
        self.lemma_grown(after);
        let at = self.index_of_id(id);
        assert(self.id_at(id, at));
        assert(self.is_regular_file(id));
        self.lemma_same_keys(after);
        self.lemma_current_kept(after);
        self.lemma_appended(after, added);
    }

    /// Why version `version` cannot become the current one of the inode
    /// `id`; `None` where it can. The tests are made in this order.
    pub open spec fn switch_error(self, id: Seq<char>, version: u64) -> Option<ErrorKind> {
        if !self.has_id(id) {
            Some(ErrorKind::NoEntry)
        } else if self.rows[self.index_of_id(id)].kind != INodeKind::RegularFile {
            Some(ErrorKind::IsADirectory)
        } else if !self.has_version(id, version) {
            Some(ErrorKind::NoEntry)
        } else {
            None
        }
    }

    /// A row after another version became current at `now`.
    pub open spec fn switched_row(row: RowView, version: u64, now: Timespec) -> RowView {
        RowView { current_version: version, mtime: now, ctime: now, ..row }
    }

    /// The table after version `version` became the current one of the
    /// inode `id`.
    pub open spec fn switched(self, id: Seq<char>, version: u64, now: Timespec) -> TableView {
        let i = self.index_of_id(id);
        TableView {
            rows: self.rows.update(i, Self::switched_row(self.rows[i], version, now)),
            versions: self.versions,
            next_ino: self.next_ino,
        }
    }

    /// Making a version current keeps the table well-formed.
    pub proof fn lemma_switched_wf(self, id: Seq<char>, version: u64, now: Timespec)
        requires
            self.wf(),
            self.switch_error(id, version) is None,
        ensures
            self.switched(id, version, now).wf(),
    {
        reveal(TableView::wf);
        let after = self.switched(id, version, now);
        let at = self.index_of_id(id);
        assert(self.id_at(id, at));
        self.lemma_same_keys(after);
        self.lemma_same_ids(after);
        self.lemma_switched_links(after, at, version);
    }

    /// After another version of a regular file became current, rows and
    /// versions are linked as before.
    proof fn lemma_switched_links(self, after: TableView, at: int, version: u64)
        requires
            self.current_ok(),
            self.versions_ok(),
            after.versions == self.versions,
            after.rows.len() == self.rows.len(),
            0 <= at < self.rows.len(),
            self.rows[at].kind == INodeKind::RegularFile,
            self.has_version(self.rows[at].id, version),
            after.rows[at].current_version == version,
            forall|i: int|
                0 <= i < self.rows.len() ==> {
                    &&& (#[trigger] after.rows[i]).id == self.rows[i].id
                    &&& after.rows[i].kind == self.rows[i].kind
                    &&& i != at ==> after.rows[i].current_version == self.rows[i].current_version
                },
            forall|id: Seq<char>| self.is_regular_file(id) ==> after.is_regular_file(id),
        ensures
            after.current_ok(),
            after.versions_ok(),
    {
        assert forall|id: Seq<char>, v: u64| #[trigger]
            self.has_version(id, v) implies after.has_version(id, v) by {
            let j = choose|j: int| self.version_at(id, v, j);
            assert(after.version_at(id, v, j));
        }
        assert forall|i: int| 0 <= i < after.rows.len() implies match (
        #[trigger] after.rows[i]).kind {
            INodeKind::Directory => after.rows[i].current_version == 0,
            INodeKind::RegularFile => after.has_version(
                after.rows[i].id,
                after.rows[i].current_version,
            ),
        } by {
            let row = self.rows[i];
            if i != at && row.kind == INodeKind::RegularFile {
                assert(self.has_version(row.id, row.current_version));
            }
        }
        assert forall|j: int| 0 <= j < after.versions.len() implies {
            let v = #[trigger] after.versions[j];
            &&& v.version >= 1
            &&& v.source_version < v.version
            &&& v.source_version != 0 ==> after.has_version(v.id, v.source_version)
            &&& after.is_regular_file(v.id)
        } by {
            let v = self.versions[j];
            assert(self.is_regular_file(v.id));
        }
    }
}

} // verus!
