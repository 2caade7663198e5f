//! Taking up a table and a store that were kept elsewhere: every invariant
//! is tested before the table is handed out.

use vstd::prelude::*;
use crate::metadata::FileVersion;
use crate::metadata::INode;
use crate::metadata::INodeKind;
use crate::metadata::INodeRow;
use crate::metadata::Metadata;
use crate::metadata::RowView;
use crate::metadata::VersionView;
use crate::metadata::model::TableView;
use crate::metadata::views;

verus! {

/// The highest number among rows; 0 where there is none.
pub open spec fn max_ino(rows: Seq<RowView>) -> u64
    decreases rows.len(),
{
    if rows.len() == 0 {
        0
    } else {
        let earlier = max_ino(rows.drop_last());
        if rows.last().ino > earlier {
            rows.last().ino
        } else {
            earlier
        }
    }
}

/// No row has a number above the highest.
pub proof fn lemma_max_ino_bounds(rows: Seq<RowView>, i: int)
    requires
        0 <= i < rows.len(),
    ensures
        rows[i].ino <= max_ino(rows),
    decreases rows.len(),
{
    if i < rows.len() - 1 {
        lemma_max_ino_bounds(rows.drop_last(), i);
    }
}

/// The highest number is the number of a row, or 0 where there is no row.
proof fn lemma_max_ino_is_held(rows: Seq<RowView>) -> (i: int)
    ensures
        rows.len() == 0 ==> max_ino(rows) == 0,
        rows.len() > 0 ==> 0 <= i < rows.len() && rows[i].ino == max_ino(rows),
    decreases rows.len(),
{
    if rows.len() == 0 {
        0
    } else {
        let earlier = lemma_max_ino_is_held(rows.drop_last());
        if rows.last().ino > max_ino(rows.drop_last()) || rows.len() == 1 {
            rows.len() - 1
        } else {
            earlier
        }
    }
}

/// The rows that inodes stand for: their sizes are left out, since sizes
/// are read from the store.
pub open spec fn rows_of(inodes: Seq<INode>) -> Seq<RowView> {
    inodes.map_values(|inode: INode| inode@.row)
}

/// What a list of versions says.
pub open spec fn versions_of(versions: Seq<FileVersion>) -> Seq<VersionView> {
    versions.map_values(|version: FileVersion| version@)
}

/// The number after the highest in use; 0 where there is none left.
pub open spec fn ino_after(rows: Seq<RowView>) -> u64 {
    if max_ino(rows) < u64::MAX {
        (max_ino(rows) + 1) as u64
    } else {
        0
    }
}

/// The table that inodes and versions make: the next inode gets the number
/// after the highest in use.
pub open spec fn assembled(inodes: Seq<INode>, versions: Seq<FileVersion>) -> TableView {
    TableView {
        rows: rows_of(inodes),
        versions: versions_of(versions),
        next_ino: ino_after(rows_of(inodes)),
    }
}

/// What a well-formed table hands out of itself, its inodes and its
/// versions, `load` takes up again.
pub proof fn lemma_kept_table_loads(
    table: TableView,
    inodes: Seq<INode>,
    versions: Seq<FileVersion>,
)
    requires
        table.wf(),
        views(inodes) == table.inodes(),
        versions_of(versions) == table.versions,
    ensures
        assembled(inodes, versions) == table.reassembled(),
        assembled(inodes, versions).loadable(),
{
    assert(rows_of(inodes) =~= table.rows) by {
        assert(views(inodes).len() == table.rows.len());
        assert forall|i: int| 0 <= i < table.rows.len() implies rows_of(inodes)[i]
            == table.rows[i] by {
            assert(views(inodes)[i] == inodes[i]@);
            assert(table.inodes()[i] == table.joined()(table.rows[i]));
            assert(rows_of(inodes)[i] == inodes[i]@.row);
        }
    }
    table.lemma_reassembled_loadable();
}

impl TableView {
    /// The number of parent links from `id` up to the root, counted along a
    /// walk of at most `fuel` links.
    pub open spec fn distance(self, id: Seq<char>, fuel: nat) -> nat
        decreases fuel,
    {
        if fuel == 0 || id == self.root_id() {
            0
        } else {
            1 + self.distance(self.parent_of(id), (fuel - 1) as nat)
        }
    }

    /// Every inode reaches the root within `fuel` parent links.
    pub open spec fn rooted_within(self, fuel: nat) -> bool {
        forall|i: int|
            0 <= i < self.rows.len() ==> self.ancestor((#[trigger] self.rows[i]).id, fuel)
                == self.root_id()
    }

    /// What is asked of a table that is taken up: the invariants of the data
    /// model, with every inode at most as many parent links from the root as
    /// the table has rows.
    pub open spec fn loadable(self) -> bool {
        &&& self.root_ok()
        &&& self.inos_ok()
        &&& self.inos_distinct()
        &&& self.ids_distinct()
        &&& self.entries_distinct()
        &&& self.parents_ok()
        &&& self.rooted_within(self.rows.len())
        &&& self.current_ok()
        &&& self.versions_ok()
        &&& self.versions_distinct()
    }

    /// The distance does not depend on the fuel, once it reaches the root.
    proof fn lemma_distance_any_fuel(self, id: Seq<char>, a: nat, b: nat)
        requires
            self.ancestor(id, a) == self.root_id(),
            self.ancestor(id, b) == self.root_id(),
        ensures
            self.distance(id, a) == self.distance(id, b),
        decreases a,
    {
        if id != self.root_id() {
            self.lemma_distance_any_fuel(self.parent_of(id), (a - 1) as nat, (b - 1) as nat);
        }
    }

    /// A table in which every inode reaches the root has no cycle: the
    /// distance from the root grows from every parent to its child.
    proof fn lemma_rooted_acyclic(self, fuel: nat)
        requires
            self.root_ok(),
            self.ids_distinct(),
            self.parents_ok(),
            self.rooted_within(fuel),
        ensures
            self.acyclic(),
    {
        let rank = |id: Seq<char>| self.distance(id, fuel);
        assert forall|i: int| 1 <= i < self.rows.len() implies rank(
            (#[trigger] self.rows[i]).parent,
        ) < rank(self.rows[i].id) by {
            let id = self.rows[i].id;
            let parent = self.rows[i].parent;
            self.lemma_parent_of(i);
            assert(id != self.root_id());
            assert(self.is_directory(parent));
            let p = choose|p: int| #[trigger]
                self.id_at(parent, p) && self.rows[p].kind == INodeKind::Directory;
            assert(self.ancestor(self.rows[p].id, fuel) == self.root_id());
            assert(self.ancestor(id, fuel) == self.root_id());
            assert(fuel > 0);
            assert(self.ancestor(parent, (fuel - 1) as nat) == self.root_id());
            self.lemma_distance_any_fuel(parent, (fuel - 1) as nat, fuel);
        }
        assert(self.ranked(rank));
    }

    /// A well-formed table can be taken up: what the engine leaves is
    /// accepted again.
    pub proof fn lemma_wf_loadable(self)
        requires
            self.wf(),
        ensures
            self.loadable(),
    {
        assert forall|i: int| 0 <= i < self.rows.len() implies self.ancestor(
            (#[trigger] self.rows[i]).id,
            self.rows.len(),
        ) == self.root_id() by {
            self.lemma_reaches_root_in_time(i);
        }
        reveal(TableView::wf);
    }

    /// The table as `load` assembles it from its rows and versions: the next
    /// inode gets the number after the highest in use.
    pub open spec fn reassembled(self) -> TableView {
        TableView { rows: self.rows, versions: self.versions, next_ino: ino_after(self.rows) }
    }

    /// Rows with different numbers, none of them 0, are no more than their
    /// highest number.
    proof fn lemma_rows_are_counted(self)
        requires
            self.wf(),
        ensures
            self.rows.len() <= max_ino(self.rows),
    {
        broadcast use vstd::seq_lib::seq_to_set_is_finite;

        reveal(TableView::wf);
        let rows = self.rows;
        let highest = max_ino(rows) as int;
        let numbers = rows.map_values(|row: RowView| row.ino as int);
        assert forall|a: int, b: int|
            0 <= a < numbers.len() && 0 <= b < numbers.len() && a != b implies numbers[a]
            != numbers[b] by {
            assert(rows[a].ino != rows[b].ino);
        }
        numbers.unique_seq_to_set();
        vstd::set_lib::lemma_int_range(1, highest + 1);
        let range = vstd::set_lib::set_int_range(1, highest + 1);
        assert forall|x: int| numbers.to_set().contains(x) implies range.contains(x) by {
            let i = choose|i: int| 0 <= i < numbers.len() && numbers[i] == x;
            lemma_max_ino_bounds(rows, i);
            assert(1 <= rows[i].ino);
        }
        vstd::set_lib::lemma_len_subset(numbers.to_set(), range);
    }

    /// Tables with the same rows and versions agree on everything that the
    /// invariants say of rows and versions alone.
    proof fn lemma_same_content(self, other: TableView)
        requires
            other.rows == self.rows,
            other.versions == self.versions,
            self.parents_ok(),
            self.current_ok(),
            self.versions_ok(),
        ensures
            other.parents_ok(),
            other.current_ok(),
            other.versions_ok(),
    {
        assert forall|id: Seq<char>| self.is_directory(id) implies other.is_directory(id) by {
            let p = choose|p: int| #[trigger]
                self.id_at(id, p) && self.rows[p].kind == INodeKind::Directory;
            assert(other.id_at(id, p));
        }
        assert forall|id: Seq<char>| self.is_regular_file(id) implies other.is_regular_file(
            id,
        ) by {
            let p = choose|p: int| #[trigger]
                self.id_at(id, p) && self.rows[p].kind == INodeKind::RegularFile;
            assert(other.id_at(id, p));
        }
        assert forall|id: Seq<char>, version: u64| #[trigger]
            self.has_version(id, version) implies other.has_version(id, version) by {
            let j = choose|j: int| self.version_at(id, version, j);
            assert(other.version_at(id, version, j));
        }
        assert forall|i: int| 1 <= i < other.rows.len() implies other.is_directory(
            (#[trigger] other.rows[i]).parent,
        ) by {
            assert(self.is_directory(self.rows[i].parent));
        }
        assert forall|i: int| 0 <= i < other.rows.len() implies match (
        #[trigger] other.rows[i]).kind {
            INodeKind::Directory => other.rows[i].current_version == 0,
            INodeKind::RegularFile => other.has_version(
                other.rows[i].id,
                other.rows[i].current_version,
            ),
        } by {
            let row = self.rows[i];
            if row.kind == INodeKind::RegularFile {
                assert(self.has_version(row.id, row.current_version));
            }
        }
        assert forall|j: int| 0 <= j < other.versions.len() implies {
            let v = #[trigger] other.versions[j];
            &&& v.version >= 1
            &&& v.source_version < v.version
            &&& v.source_version != 0 ==> other.has_version(v.id, v.source_version)
            &&& other.is_regular_file(v.id)
        } by {
            let v = self.versions[j];
            assert(self.is_regular_file(v.id));
        }
    }

    /// The numbers of a well-formed table fit the table as `load` assembles
    /// it.
    proof fn lemma_reassembled_inos(self)
        requires
            self.wf(),
        ensures
            self.reassembled().inos_ok(),
    {
        let again = self.reassembled();
        self.lemma_rows_are_counted();
        let held = lemma_max_ino_is_held(self.rows);
        assert(self.inos_ok() && self.root_ok()) by {
            reveal(TableView::wf);
        }
        assert(max_ino(self.rows) < self.next_ino);
        assert forall|i: int| 0 <= i < again.rows.len() implies 1 <= (
        #[trigger] again.rows[i]).ino < again.next_ino by {
            lemma_max_ino_bounds(self.rows, i);
        }
    }

    /// What the engine leaves is accepted again: the rows and versions of a
    /// well-formed table, assembled as `load` assembles them, can be taken
    /// up.
    pub proof fn lemma_reassembled_loadable(self)
        requires
            self.wf(),
        ensures
            self.reassembled().loadable(),
    {
        let again = self.reassembled();
        self.lemma_wf_loadable();
        self.lemma_reassembled_inos();
        self.lemma_same_content(again);
        assert forall|i: int| 0 <= i < again.rows.len() implies again.ancestor(
            (#[trigger] again.rows[i]).id,
            again.rows.len(),
        ) == again.root_id() by {
            self.lemma_same_ancestors(again, self.rows[i].id, self.rows.len());
        }
    }

    /// Tables with the same rows have the same ancestors.
    proof fn lemma_same_ancestors(self, other: TableView, id: Seq<char>, steps: nat)
        requires
            other.rows == self.rows,
            self.ids_distinct(),
        ensures
            other.ancestor(id, steps) == self.ancestor(id, steps),
        decreases steps,
    {
        if steps > 0 {
            assert(other.has_id(id) == self.has_id(id)) by {
                if self.has_id(id) {
                    let i = choose|i: int| self.id_at(id, i);
                    assert(other.id_at(id, i));
                }
                if other.has_id(id) {
                    let i = choose|i: int| other.id_at(id, i);
                    assert(self.id_at(id, i));
                }
            }
            if self.has_id(id) {
                let a = other.index_of_id(id);
                let b = self.index_of_id(id);
                assert(other.id_at(id, a));
                assert(self.id_at(id, b));
                assert(a == b);
            }
            self.lemma_same_ancestors(other, self.parent_of(id), (steps - 1) as nat);
        }
    }

    /// A table that can be taken up is well-formed.
    pub proof fn lemma_loadable_wf(self)
        requires
            self.loadable(),
        ensures
            self.wf(),
    {
        reveal(TableView::wf);
        self.lemma_rooted_acyclic(self.rows.len());
    }
}

impl Metadata {
    /// The highest number among the rows.
    fn highest_ino(&self) -> (highest: u64)
        ensures
            highest == max_ino(self@.rows),
    {
        let mut highest: u64 = 0;
        let mut i: usize = 0;
        proof {
            assert(self@.rows.take(0) =~= Seq::<RowView>::empty());
        }
        while i < self.rows.len()
            invariant
                i <= self.rows.len(),
                highest == max_ino(self@.rows.take(i as int)),
            decreases self.rows.len() - i,
        {
            proof {
                assert(self@.rows.take(i + 1).drop_last() =~= self@.rows.take(i as int));
            }
            if self.rows[i].ino > highest {
                highest = self.rows[i].ino;
            }
            i += 1;
        }
        proof {
            assert(self@.rows.take(i as int) =~= self@.rows);
        }
        highest
    }

    fn check_root(&self) -> (ok: bool)
        ensures
            ok == self@.root_ok(),
    {
        if self.rows.len() == 0 {
            return false;
        }
        let root = &self.rows[0];
        let nameless = root.name == String::new();
        proof {
            assert(nameless == (self@.rows[0].name =~= Seq::<char>::empty()));
        }
        root.ino == 1 && root.parent == root.id && nameless && root.kind.is_directory()
    }

    fn check_inos(&self) -> (ok: bool)
        ensures
            ok == self@.inos_ok(),
    {
        if self.rows.len() as u64 >= self.next_ino {
            return false;
        }
        let mut i: usize = 0;
        while i < self.rows.len()
            invariant
                i <= self.rows.len(),
                forall|k: int| 0 <= k < i ==> 1 <= (#[trigger] self@.rows[k]).ino < self.next_ino,
            decreases self.rows.len() - i,
        {
            if self.rows[i].ino < 1 || self.rows[i].ino >= self.next_ino {
                proof {
                    assert(!(1 <= self@.rows[i as int].ino < self.next_ino));
                }
                return false;
            }
            i += 1;
        }
        true
    }

    /// Whether row `i` differs from every earlier row in number, in
    /// identity, and in parent and name.
    fn check_row_distinct(&self, i: usize) -> (ok: bool)
        requires
            i < self@.rows.len(),
        ensures
            ok == (forall|j: int|
                0 <= j < i ==> {
                    &&& (#[trigger] self@.rows[j]).ino != self@.rows[i as int].ino
                    &&& self@.rows[j].id != self@.rows[i as int].id
                    &&& !(self@.rows[j].parent == self@.rows[i as int].parent
                        && self@.rows[j].name == self@.rows[i as int].name)
                }),
    {
        let mut j: usize = 0;
        while j < i
            invariant
                j <= i,
                i < self@.rows.len(),
                forall|k: int|
                    0 <= k < j ==> {
                        &&& (#[trigger] self@.rows[k]).ino != self@.rows[i as int].ino
                        &&& self@.rows[k].id != self@.rows[i as int].id
                        &&& !(self@.rows[k].parent == self@.rows[i as int].parent
                            && self@.rows[k].name == self@.rows[i as int].name)
                    },
            decreases i - j,
        {
            let a = &self.rows[j];
            let b = &self.rows[i];
            if a.ino == b.ino || a.id == b.id || (a.parent == b.parent && a.name == b.name) {
                proof {
                    assert(self@.rows[j as int] == a@);
                }
                return false;
            }
            j += 1;
        }
        true
    }

    fn check_distinct(&self) -> (ok: bool)
        ensures
            ok == (self@.inos_distinct() && self@.ids_distinct() && self@.entries_distinct()),
    {
        let mut i: usize = 0;
        while i < self.rows.len()
            invariant
                i <= self.rows.len(),
                forall|a: int, b: int|
                    0 <= b < a < i ==> {
                        &&& (#[trigger] self@.rows[b]).ino != (#[trigger] self@.rows[a]).ino
                        &&& self@.rows[b].id != self@.rows[a].id
                        &&& !(self@.rows[b].parent == self@.rows[a].parent && self@.rows[b].name
                            == self@.rows[a].name)
                    },
            decreases self.rows.len() - i,
        {
            if !self.check_row_distinct(i) {
                return false;
            }
            i += 1;
        }
        proof {
            let rows = self@.rows;
            assert forall|a: int, b: int|
                0 <= a < rows.len() && 0 <= b < rows.len() && a != b implies {
                &&& (#[trigger] rows[a]).ino != (#[trigger] rows[b]).ino
                &&& rows[a].id != rows[b].id
                &&& !(rows[a].parent == rows[b].parent && rows[a].name == rows[b].name)
            } by {
                if a < b {
                    assert(rows[a].ino != rows[b].ino);
                } else {
                    assert(rows[b].ino != rows[a].ino);
                }
            }
        }
        true
    }

    fn check_parents(&self) -> (ok: bool)
        requires
            self@.ids_distinct(),
        ensures
            ok == self@.parents_ok(),
    {
        let mut i: usize = 1;
        while i < self.rows.len()
            invariant
                1 <= i,
                self@.ids_distinct(),
                forall|k: int| 1 <= k < i ==> self@.is_directory((#[trigger] self@.rows[k]).parent),
            decreases self.rows.len() - i,
        {
            match self.find_id(&self.rows[i].parent) {
                Some(p) => {
                    if !self.rows[p].kind.is_directory() {
                        proof {
                            let parent = self@.rows[i as int].parent;
                            assert forall|q: int| #[trigger] self@.id_at(parent, q) implies q
                                == p by {}
                        }
                        return false;
                    }
                },
                None => {
                    return false;
                },
            }
            i += 1;
        }
        true
    }

    /// Whether row `start` reaches the root within as many parent links as
    /// there are rows.
    fn check_row_rooted(&self, start: usize) -> (ok: bool)
        requires
            self@.root_ok(),
            self@.ids_distinct(),
            self@.parents_ok(),
            start < self@.rows.len(),
        ensures
            ok == (self@.ancestor(self@.rows[start as int].id, self@.rows.len())
                == self@.root_id()),
    {
        let ghost from = self@.rows[start as int].id;
        let mut at = start;
        let mut steps: usize = 0;
        while steps < self.rows.len() && at != 0
            invariant
                self@.root_ok(),
                self@.ids_distinct(),
                self@.parents_ok(),
                steps <= self.rows.len(),
                at < self@.rows.len(),
                from == self@.rows[start as int].id,
                self@.ancestor(from, steps as nat) == self@.rows[at as int].id,
            decreases self.rows.len() - steps,
        {
            proof {
                assert(self@.is_directory(self@.rows[at as int].parent));
                let p = choose|p: int| #[trigger]
                    self@.id_at(self@.rows[at as int].parent, p) && self@.rows[p].kind
                        == INodeKind::Directory;
                assert(self@.id_at(self@.rows[at as int].parent, p));
                self@.lemma_ancestor_step(from, steps as nat);
                self@.lemma_parent_of(at as int);
            }
            at = match self.find_id(&self.rows[at].parent) {
                Some(parent) => parent,
                None => vstd::pervasive::unreached(),
            };
            steps += 1;
        }
        proof {
            if at == 0 {
                self@.lemma_ancestor_past_root(from, steps as nat, self@.rows.len());
            }
        }
        at == 0
    }

    fn check_rooted(&self) -> (ok: bool)
        requires
            self@.root_ok(),
            self@.ids_distinct(),
            self@.parents_ok(),
        ensures
            ok == self@.rooted_within(self@.rows.len()),
    {
        let mut i: usize = 0;
        while i < self.rows.len()
            invariant
                self@.root_ok(),
                self@.ids_distinct(),
                self@.parents_ok(),
                forall|k: int|
                    0 <= k < i ==> self@.ancestor(
                        (#[trigger] self@.rows[k]).id,
                        self@.rows.len(),
                    ) == self@.root_id(),
            decreases self.rows.len() - i,
        {
            if !self.check_row_rooted(i) {
                return false;
            }
            i += 1;
        }
        true
    }

    fn check_current(&self) -> (ok: bool)
        ensures
            ok == self@.current_ok(),
    {
        let mut i: usize = 0;
        while i < self.rows.len()
            invariant
                forall|k: int|
                    0 <= k < i ==> match (#[trigger] self@.rows[k]).kind {
                        INodeKind::Directory => self@.rows[k].current_version == 0,
                        INodeKind::RegularFile => self@.has_version(
                            self@.rows[k].id,
                            self@.rows[k].current_version,
                        ),
                    },
            decreases self.rows.len() - i,
        {
            let row = &self.rows[i];
            let ok = match row.kind {
                INodeKind::Directory => row.current_version == 0,
                INodeKind::RegularFile => self.find_version(&row.id, row.current_version).is_some(),
            };
            if !ok {
                proof {
                    assert(self@.rows[i as int] == row@);
                }
                return false;
            }
            i += 1;
        }
        true
    }

    /// Whether version `j` differs from every earlier version in owner or
    /// in number.
    fn check_version_distinct(&self, j: usize) -> (ok: bool)
        requires
            j < self@.versions.len(),
        ensures
            ok == (forall|k: int|
                0 <= k < j ==> !((#[trigger] self@.versions[k]).id == self@.versions[j as int].id
                    && self@.versions[k].version == self@.versions[j as int].version)),
    {
        let mut k: usize = 0;
        while k < j
            invariant
                k <= j,
                j < self@.versions.len(),
                forall|e: int|
                    0 <= e < k ==> !((#[trigger] self@.versions[e]).id
                        == self@.versions[j as int].id && self@.versions[e].version
                        == self@.versions[j as int].version),
            decreases j - k,
        {
            if self.versions[k].version == self.versions[j].version && self.versions[k].id
                == self.versions[j].id {
                proof {
                    assert(self@.versions[k as int] == self.versions[k as int]@);
                }
                return false;
            }
            k += 1;
        }
        true
    }

    /// Whether version `j` has a number, a source before it, and a regular
    /// file to belong to.
    fn check_version(&self, j: usize) -> (ok: bool)
        requires
            self@.ids_distinct(),
            j < self@.versions.len(),
        ensures
            ok == ({
                let v = self@.versions[j as int];
                &&& v.version >= 1
                &&& v.source_version < v.version
                &&& v.source_version != 0 ==> self@.has_version(v.id, v.source_version)
                &&& self@.is_regular_file(v.id)
            }),
    {
        let v = &self.versions[j];
        if v.version < 1 || v.source_version >= v.version {
            return false;
        }
        if v.source_version != 0 && self.find_version(&v.id, v.source_version).is_none() {
            return false;
        }
        match self.find_id(&v.id) {
            Some(owner) => {
                proof {
                    assert forall|q: int| #[trigger] self@.id_at(v.id@, q) implies q == owner by {}
                }
                self.rows[owner].kind.is_regular_file()
            },
            None => false,
        }
    }

    fn check_versions(&self) -> (ok: bool)
        requires
            self@.ids_distinct(),
        ensures
            ok == (self@.versions_ok() && self@.versions_distinct()),
    {
        let mut j: usize = 0;
        while j < self.versions.len()
            invariant
                self@.ids_distinct(),
                j <= self.versions.len(),
                forall|e: int|
                    0 <= e < j ==> {
                        let v = #[trigger] self@.versions[e];
                        &&& v.version >= 1
                        &&& v.source_version < v.version
                        &&& v.source_version != 0 ==> self@.has_version(v.id, v.source_version)
                        &&& self@.is_regular_file(v.id)
                    },
                forall|a: int, b: int|
                    0 <= b < a < j ==> !((#[trigger] self@.versions[b]).id == (
                    #[trigger] self@.versions[a]).id && self@.versions[b].version
                        == self@.versions[a].version),
            decreases self.versions.len() - j,
        {
            if !self.check_version(j) {
                return false;
            }
            if !self.check_version_distinct(j) {
                return false;
            }
            j += 1;
        }
        proof {
            let versions = self@.versions;
            assert forall|a: int, b: int|
                0 <= a < versions.len() && 0 <= b < versions.len() && a != b implies !((
            #[trigger] versions[a]).id == (#[trigger] versions[b]).id && versions[a].version
                == versions[b].version) by {
                if a < b {
                    assert(!(versions[a].id == versions[b].id && versions[a].version
                        == versions[b].version));
                } else {
                    assert(!(versions[b].id == versions[a].id && versions[b].version
                        == versions[a].version));
                }
            }
        }
        true
    }

    /// Whether the table can be taken up.
    fn check_loadable(&self) -> (ok: bool)
        ensures
            ok == self@.loadable(),
    {
        if !self.check_root() || !self.check_inos() || !self.check_distinct() {
            return false;
        }
        if !self.check_parents() {
            return false;
        }
        self.check_rooted() && self.check_current() && self.check_versions()
    }

    /// Takes up inodes and versions that were kept elsewhere, in their
    /// order; the sizes that the inodes report are not trusted, since sizes
    /// are read from the store. The next inode gets the number after the
    /// highest in use.
    ///
    /// The table is handed out if and only if it holds what the data model
    /// asks: the root in the first place, numbers and identities in use once,
    /// names in use once in a directory, every parent a directory, every
    /// inode within reach of the root, and versions that fit the files.
    pub fn load(inodes: Vec<INode>, versions: Vec<FileVersion>) -> (table: Option<Metadata>)
        ensures
            match table {
                Some(t) => {
                    &&& assembled(inodes@, versions@).loadable()
                    &&& t.wf()
                    &&& t@ == assembled(inodes@, versions@)
                },
                None => !assembled(inodes@, versions@).loadable(),
            },
    {
        let mut rows: Vec<INodeRow> = Vec::new();
        let mut i: usize = 0;
        while i < inodes.len()
            invariant
                i <= inodes.len(),
                rows@.len() == i,
                forall|k: int| 0 <= k < i ==> (#[trigger] rows@[k])@ == inodes@[k]@.row,
            decreases inodes.len() - i,
        {
            let inode = &inodes[i];
            rows.push(
                INodeRow {
                    ino: inode.ino,
                    id: inode.id.clone(),
                    parent: inode.parent.clone(),
                    name: inode.name.clone(),
                    kind: inode.kind,
                    atime: inode.atime,
                    mtime: inode.mtime,
                    ctime: inode.ctime,
                    crtime: inode.crtime,
                    nlink: inode.nlink,
                    current_version: inode.current_version,
                },
            );
            i += 1;
        }
        let mut table = Metadata { rows, versions, next_ino: 0 };
        proof {
            assert(table@.rows =~= rows_of(inodes@));
            assert(table@.versions =~= versions_of(versions@));
        }
        let highest = table.highest_ino();
        if highest == u64::MAX {
            return None;
        }
        table.next_ino = highest + 1;
        proof {
            assert(table@.rows =~= rows_of(inodes@));
            assert(table@.versions =~= versions_of(versions@));
            assert(table@ == assembled(inodes@, versions@));
        }
        if !table.check_loadable() {
            return None;
        }
        proof {
            table@.lemma_loadable_wf();
        }
        Some(table)
    }
}

} // verus!
