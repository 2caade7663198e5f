//! The tree that the parent links form: ancestors, logical paths, and the
//! move of an entry to another place.

use vstd::prelude::*;
use crate::metadata::INodeKind;
use crate::metadata::RowView;
use crate::metadata::Timespec;
use crate::metadata::model::TableView;
use crate::types::action::ErrorKind;

verus! {

impl TableView {
    /// The parent of the inode `id`; `id` itself where the table holds no
    /// such inode.
    pub open spec fn parent_of(self, id: Seq<char>) -> Seq<char> {
        if self.has_id(id) {
            self.rows[self.index_of_id(id)].parent
        } else {
            id
        }
    }

    /// The name of the inode `id`.
    pub open spec fn name_of(self, id: Seq<char>) -> Seq<char> {
        self.rows[self.index_of_id(id)].name
    }

    /// The inode reached from `id` by `steps` parent links.
    pub open spec fn ancestor(self, id: Seq<char>, steps: nat) -> Seq<char>
        decreases steps,
    {
        if steps == 0 {
            id
        } else {
            self.ancestor(self.parent_of(id), (steps - 1) as nat)
        }
    }

    /// `top` is `id` or one of its ancestors.
    pub open spec fn is_under(self, id: Seq<char>, top: Seq<char>) -> bool {
        exists|steps: nat| #[trigger] self.ancestor(id, steps) == top
    }

    /// The names on the way from the root down to `id`, found by walking up
    /// at most `fuel` parent links.
    pub open spec fn names_within(self, id: Seq<char>, fuel: nat) -> Seq<Seq<char>>
        decreases fuel,
    {
        if fuel == 0 || id == self.root_id() {
            Seq::empty()
        } else {
            self.names_within(self.parent_of(id), (fuel - 1) as nat).push(self.name_of(id))
        }
    }

    /// A number of parent links that leads from `id` to the root.
    pub open spec fn depth(self, id: Seq<char>) -> nat {
        choose|steps: nat| #[trigger] self.ancestor(id, steps) == self.root_id()
    }

    /// The logical path of `id`: the names from the root's child down to
    /// `id` itself; empty for the root.
    pub open spec fn path_names(self, id: Seq<char>) -> Seq<Seq<char>> {
        self.names_within(id, self.depth(id))
    }

    pub proof fn lemma_parent_of(self, i: int)
        requires
            self.ids_distinct(),
            0 <= i < self.rows.len(),
        ensures
            self.parent_of(self.rows[i].id) == self.rows[i].parent,
            self.name_of(self.rows[i].id) == self.rows[i].name,
    {
        self.lemma_id_index(self.rows[i].id, i);
    }

    /// One more link at the far end of a chain of ancestors.
    pub proof fn lemma_ancestor_step(self, id: Seq<char>, steps: nat)
        ensures
            self.ancestor(id, steps + 1) == self.parent_of(self.ancestor(id, steps)),
        decreases steps,
    {
        assert(self.ancestor(id, steps + 1) == self.ancestor(self.parent_of(id), steps));
        if steps > 0 {
            self.lemma_ancestor_step(self.parent_of(id), (steps - 1) as nat);
        } else {
            assert(self.ancestor(self.parent_of(id), 0) == self.parent_of(id));
        }
    }

    /// A chain that has reached the root stays there.
    pub proof fn lemma_ancestor_past_root(self, id: Seq<char>, reached: nat, steps: nat)
        requires
            self.root_ok(),
            self.ids_distinct(),
            self.ancestor(id, reached) == self.root_id(),
            reached <= steps,
        ensures
            self.ancestor(id, steps) == self.root_id(),
        decreases steps - reached,
    {
        if reached < steps {
            self.lemma_ancestor_step(id, reached);
            self.lemma_parent_of(0);
            self.lemma_ancestor_past_root(id, reached + 1, steps);
        }
    }

    /// In a well-formed table every inode reaches the root.
    pub proof fn lemma_reaches_root(self, rank: spec_fn(Seq<char>) -> nat, i: int)
        requires
            self.wf(),
            self.ranked(rank),
            0 <= i < self.rows.len(),
        ensures
            self.is_under(self.rows[i].id, self.root_id()),
            self.ancestor(self.rows[i].id, self.depth(self.rows[i].id)) == self.root_id(),
        decreases rank(self.rows[i].id),
    {
        reveal(TableView::wf);
        let id = self.rows[i].id;
        if i == 0 {
            assert(self.ancestor(id, 0) == self.root_id());
        } else {
            let parent = self.rows[i].parent;
            assert(self.is_directory(parent));
            let p = choose|p: int| #[trigger]
                self.id_at(parent, p) && self.rows[p].kind == INodeKind::Directory;
            self.lemma_reaches_root(rank, p);
            let steps = choose|steps: nat| #[trigger]
                self.ancestor(parent, steps) == self.root_id();
            self.lemma_parent_of(i);
            assert(self.ancestor(id, steps + 1) == self.root_id());
        }
    }

    /// The names found do not depend on the fuel, once it reaches the root.
    pub proof fn lemma_names_any_fuel(self, id: Seq<char>, a: nat, b: nat)
        requires
            self.ancestor(id, a) == self.root_id(),
            self.ancestor(id, b) == self.root_id(),
        ensures
            self.names_within(id, a) == self.names_within(id, b),
        decreases a,
    {
        if id != self.root_id() {
            self.lemma_names_any_fuel(self.parent_of(id), (a - 1) as nat, (b - 1) as nat);
        }
    }

    /// The logical path of the root is empty; that of any other inode is its
    /// parent's path and then its own name.
    pub proof fn lemma_path_names(self, i: int)
        requires
            self.wf(),
            0 <= i < self.rows.len(),
        ensures
            i == 0 ==> self.path_names(self.rows[i].id) == Seq::<Seq<char>>::empty(),
            i != 0 ==> self.path_names(self.rows[i].id) == self.path_names(
                self.rows[i].parent,
            ).push(self.rows[i].name),
    {
        reveal(TableView::wf);
        let id = self.rows[i].id;
        let rank = choose|rank: spec_fn(Seq<char>) -> nat| self.ranked(rank);
        self.lemma_reaches_root(rank, i);
        if i != 0 {
            let parent = self.rows[i].parent;
            assert(self.id_at(id, i));
            assert(self.id_at(self.root_id(), 0));
            assert(id != self.root_id());
            assert(self.is_directory(parent));
            let p = choose|p: int| #[trigger]
                self.id_at(parent, p) && self.rows[p].kind == INodeKind::Directory;
            self.lemma_reaches_root(rank, p);
            self.lemma_parent_of(i);
            let d = self.depth(id);
            assert(d > 0);
            self.lemma_names_any_fuel(parent, (d - 1) as nat, self.depth(parent));
        }
    }

    /// Why the inode `id` cannot become the entry `new_name` of
    /// `new_parent`; `None` where it can. The tests are made in this order.
    pub open spec fn rename_error(
        self,
        id: Seq<char>,
        new_parent: Seq<char>,
        new_name: Seq<char>,
    ) -> Option<ErrorKind> {
        if !self.has_id(id) || !self.has_id(new_parent) {
            Some(ErrorKind::NoEntry)
        } else if self.rows[self.index_of_id(new_parent)].kind != INodeKind::Directory {
            Some(ErrorKind::NotADirectory)
        } else if id == self.root_id() {
            Some(ErrorKind::NotImplemented)
        } else if self.has_entry(new_parent, new_name) && self.index_of_entry(
            new_parent,
            new_name,
        ) != self.index_of_id(id) {
            Some(ErrorKind::FileExists)
        } else if self.is_under(new_parent, id) {
            Some(ErrorKind::Conflict)
        } else {
            None
        }
    }

    /// A row after its move at `now`: another parent and name, and the time
    /// of the change; everything else is kept.
    pub open spec fn moved_row(
        row: RowView,
        new_parent: Seq<char>,
        new_name: Seq<char>,
        now: Timespec,
    ) -> RowView {
        RowView { parent: new_parent, name: new_name, mtime: now, ctime: now, ..row }
    }

    /// The table after the inode `id` was moved.
    pub open spec fn renamed(
        self,
        id: Seq<char>,
        new_parent: Seq<char>,
        new_name: Seq<char>,
        now: Timespec,
    ) -> TableView {
        let i = self.index_of_id(id);
        TableView {
            rows: self.rows.update(i, Self::moved_row(self.rows[i], new_parent, new_name, now)),
            versions: self.versions,
            next_ino: self.next_ino,
        }
    }

    /// Two tables whose rows agree on identity and kind know the same
    /// identities, directories and regular files.
    pub proof fn lemma_same_ids(self, after: TableView)
        requires
            self.rows.len() == after.rows.len(),
            forall|i: int|
                0 <= i < self.rows.len() ==> (#[trigger] after.rows[i]).id == self.rows[i].id
                    && after.rows[i].kind == self.rows[i].kind,
        ensures
            forall|id: Seq<char>| self.has_id(id) ==> after.has_id(id),
            forall|id: Seq<char>| self.is_directory(id) ==> after.is_directory(id),
            forall|id: Seq<char>| self.is_regular_file(id) ==> after.is_regular_file(id),
    {
        assert forall|id: Seq<char>| self.has_id(id) implies after.has_id(id) by {
            let i = choose|i: int| self.id_at(id, i);
            assert(after.id_at(id, i));
        }
        assert forall|id: Seq<char>| self.is_directory(id) implies after.is_directory(id) by {
            let i = choose|i: int| #[trigger]
                self.id_at(id, i) && self.rows[i].kind == INodeKind::Directory;
            assert(after.id_at(id, i));
        }
        assert forall|id: Seq<char>| self.is_regular_file(id) implies after.is_regular_file(
            id,
        ) by {
            let i = choose|i: int| #[trigger]
                self.id_at(id, i) && self.rows[i].kind == INodeKind::RegularFile;
            assert(after.id_at(id, i));
        }
    }

    /// An inode other than `top` is under `top` exactly when its parent is.
    proof fn lemma_under_parent(self, i: int, top: Seq<char>)
        requires
            self.ids_distinct(),
            0 <= i < self.rows.len(),
            self.rows[i].id != top,
        ensures
            self.is_under(self.rows[i].id, top) == self.is_under(self.rows[i].parent, top),
    {
        let id = self.rows[i].id;
        let parent = self.rows[i].parent;
        self.lemma_parent_of(i);
        if self.is_under(id, top) {
            let steps = choose|steps: nat| #[trigger] self.ancestor(id, steps) == top;
            assert(steps > 0);
            assert(self.ancestor(parent, (steps - 1) as nat) == top);
        }
        if self.is_under(parent, top) {
            let steps = choose|steps: nat| #[trigger] self.ancestor(parent, steps) == top;
            assert(self.ancestor(id, steps + 1) == top);
        }
    }

    /// After a move no two rows share both parent and name.
    proof fn lemma_moved_entries(self, after: TableView, at: int, moved: RowView)
        requires
            self.entries_distinct(),
            0 <= at < self.rows.len(),
            after.rows == self.rows.update(at, moved),
            forall|j: int| self.entry_at(moved.parent, moved.name, j) ==> j == at,
        ensures
            after.entries_distinct(),
    {
        assert forall|i: int, j: int|
            0 <= i < after.rows.len() && 0 <= j < after.rows.len() && i != j implies !((
        #[trigger] after.rows[i]).parent == (#[trigger] after.rows[j]).parent
            && after.rows[i].name == after.rows[j].name) by {
            if i == at {
                assert(after.rows[j] == self.rows[j]);
                if self.rows[j].parent == moved.parent && self.rows[j].name == moved.name {
                    assert(self.entry_at(moved.parent, moved.name, j));
                }
            } else if j == at {
                assert(after.rows[i] == self.rows[i]);
                if self.rows[i].parent == moved.parent && self.rows[i].name == moved.name {
                    assert(self.entry_at(moved.parent, moved.name, i));
                }
            } else {
                assert(after.rows[i] == self.rows[i]);
                assert(after.rows[j] == self.rows[j]);
            }
        }
    }

    /// After a move into a directory every parent is a directory still.
    proof fn lemma_moved_parents(self, after: TableView, at: int, moved: RowView)
        requires
            self.parents_ok(),
            0 <= at < self.rows.len(),
            after.rows == self.rows.update(at, moved),
            self.is_directory(moved.parent),
            forall|id: Seq<char>| self.is_directory(id) ==> after.is_directory(id),
        ensures
            after.parents_ok(),
    {
        assert forall|i: int| 1 <= i < after.rows.len() implies after.is_directory(
            (#[trigger] after.rows[i]).parent,
        ) by {
            if i != at {
                assert(after.rows[i] == self.rows[i]);
                assert(self.is_directory(self.rows[i].parent));
            }
        }
    }

    /// After a move to a place that is not under the moved inode, no chain
    /// of parents comes back to where it started.
    proof fn lemma_moved_acyclic(self, after: TableView, at: int, moved: RowView)
        requires
            self.ids_distinct(),
            self.acyclic(),
            1 <= at < self.rows.len(),
            after.rows == self.rows.update(at, moved),
            moved.id == self.rows[at].id,
            !self.is_under(moved.parent, moved.id),
        ensures
            after.acyclic(),
    {
        let id = moved.id;
        let rank = choose|rank: spec_fn(Seq<char>) -> nat| self.ranked(rank);
        let lift = rank(moved.parent) + 1;
        let lifted = |x: Seq<char>|
            if self.is_under(x, id) {
                rank(x) + lift
            } else {
                rank(x)
            };
        assert forall|i: int| 1 <= i < after.rows.len() implies lifted(
            (#[trigger] after.rows[i]).parent,
        ) < lifted(after.rows[i].id) by {
            if i == at {
                assert(self.ancestor(id, 0) == id);
                assert(self.is_under(id, id));
            } else {
                assert(after.rows[i] == self.rows[i]);
                self.lemma_under_parent(i, id);
                assert(rank(self.rows[i].parent) < rank(self.rows[i].id));
            }
        }
        assert(after.ranked(lifted));
    }

    /// A change of rows that keeps identity, kind and current version keeps
    /// the links between rows and versions.
    proof fn lemma_same_links(self, after: TableView)
        requires
            self.current_ok(),
            self.versions_ok(),
            after.versions == self.versions,
            self.rows.len() == after.rows.len(),
            forall|i: int|
                0 <= i < self.rows.len() ==> (#[trigger] after.rows[i]).id == self.rows[i].id
                    && after.rows[i].kind == self.rows[i].kind && after.rows[i].current_version
                    == self.rows[i].current_version,
            forall|id: Seq<char>| self.is_regular_file(id) ==> after.is_regular_file(id),
        ensures
            after.current_ok(),
            after.versions_ok(),
    {
        assert forall|i: int| 0 <= i < after.rows.len() implies match (
        #[trigger] after.rows[i]).kind {
            INodeKind::Directory => after.rows[i].current_version == 0,
            INodeKind::RegularFile => after.has_version(
                after.rows[i].id,
                after.rows[i].current_version,
            ),
        } by {
            let row = self.rows[i];
            if row.kind == INodeKind::RegularFile {
                let j = choose|j: int| self.version_at(row.id, row.current_version, j);
                assert(after.version_at(row.id, row.current_version, j));
            }
        }
        assert forall|j: int| 0 <= j < after.versions.len() implies {
            let v = #[trigger] after.versions[j];
            &&& v.version >= 1
            &&& v.source_version < v.version
            &&& v.source_version != 0 ==> after.has_version(v.id, v.source_version)
            &&& after.is_regular_file(v.id)
        } by {
            let v = self.versions[j];
            assert(self.is_regular_file(v.id));
            if v.source_version != 0 {
                let k = choose|k: int| self.version_at(v.id, v.source_version, k);
                assert(after.version_at(v.id, v.source_version, k));
            }
        }
    }

    /// A move keeps the table well-formed.
    pub proof fn lemma_renamed_wf(
        self,
        id: Seq<char>,
        new_parent: Seq<char>,
        new_name: Seq<char>,
        now: Timespec,
    )
        requires
            self.wf(),
            self.rename_error(id, new_parent, new_name) is None,
        ensures
            self.renamed(id, new_parent, new_name, now).wf(),
    {
        reveal(TableView::wf);
        let after = self.renamed(id, new_parent, new_name, now);
        let at = self.index_of_id(id);
        let moved = Self::moved_row(self.rows[at], new_parent, new_name, now);
        assert(self.id_at(id, at));
        assert(self.id_at(self.root_id(), 0));
        assert(at != 0);
        self.lemma_same_ids(after);
        assert forall|j: int| self.entry_at(new_parent, new_name, j) implies j == at by {
            self.lemma_entry_index(new_parent, new_name, j);
        }
        self.lemma_moved_entries(after, at, moved);
        let p = self.index_of_id(new_parent);
        assert(self.id_at(new_parent, p));
        assert(self.is_directory(new_parent));
        self.lemma_moved_parents(after, at, moved);
        self.lemma_moved_acyclic(after, at, moved);
        self.lemma_same_links(after);
        assert(after.root_ok());
        assert(after.inos_ok());
        assert(after.inos_distinct());
        assert(after.ids_distinct());
    }

    /// The row that row `i` names as its parent.
    proof fn lemma_parent_row(self, i: int) -> (p: int)
        requires
            self.wf(),
            1 <= i < self.rows.len(),
        ensures
            0 <= p < self.rows.len(),
            self.rows[p].id == self.rows[i].parent,
            p != i,
            forall|rank: spec_fn(Seq<char>) -> nat| #[trigger]
                self.ranked(rank) ==> rank(self.rows[p].id) < rank(self.rows[i].id),
    {
        reveal(TableView::wf);
        assert(self.is_directory(self.rows[i].parent));
        let p = choose|p: int| #[trigger]
            self.id_at(self.rows[i].parent, p) && self.rows[p].kind == INodeKind::Directory;
        assert(self.id_at(self.rows[i].parent, p));
        let rank = choose|rank: spec_fn(Seq<char>) -> nat| self.ranked(rank);
        assert(rank(self.rows[i].parent) < rank(self.rows[i].id));
        p
    }

    /// Two inodes have two logical paths.
    pub proof fn lemma_paths_differ(self, i: int, j: int)
        requires
            self.wf(),
            0 <= i < self.rows.len(),
            0 <= j < self.rows.len(),
            i != j,
        ensures
            self.path_names(self.rows[i].id) != self.path_names(self.rows[j].id),
        decreases self.rank_of(self.rows[i].id),
    {
        self.lemma_path_names(i);
        self.lemma_path_names(j);
        if i != 0 && j != 0 {
            let pi = self.lemma_parent_row(i);
            let pj = self.lemma_parent_row(j);
            let left = self.path_names(self.rows[i].parent);
            let right = self.path_names(self.rows[j].parent);
            if left.push(self.rows[i].name) == right.push(self.rows[j].name) {
                assert(left.push(self.rows[i].name).drop_last() =~= left);
                assert(right.push(self.rows[j].name).drop_last() =~= right);
                assert(left.push(self.rows[i].name).last() == self.rows[i].name);
                assert(right.push(self.rows[j].name).last() == self.rows[j].name);
                if pi != pj {
                    self.lemma_rank_of();
                    self.lemma_paths_differ(pi, pj);
                } else {
                    reveal(TableView::wf);
                }
            }
        } else if i != 0 {
            assert(self.path_names(self.rows[i].parent).push(self.rows[i].name).len() > 0);
        } else {
            assert(self.path_names(self.rows[j].parent).push(self.rows[j].name).len() > 0);
        }
    }

    /// A rank of the table: it grows from every parent to its child.
    pub closed spec fn rank_of(self, id: Seq<char>) -> nat {
        (choose|rank: spec_fn(Seq<char>) -> nat| self.ranked(rank))(id)
    }

    proof fn lemma_rank_of(self)
        requires
            self.wf(),
        ensures
            self.ranked(|id: Seq<char>| self.rank_of(id)),
    {
        reveal(TableView::wf);
        let rank = choose|rank: spec_fn(Seq<char>) -> nat| self.ranked(rank);
        assert forall|i: int| 1 <= i < self.rows.len() implies self.rank_of(
            (#[trigger] self.rows[i]).parent,
        ) < self.rank_of(self.rows[i].id) by {
            assert(rank(self.rows[i].parent) < rank(self.rows[i].id));
        }
    }

    /// A move leaves the logical path of every inode that does not lie
    /// under the moved one.
    pub proof fn lemma_moved_keeps_paths(
        self,
        id: Seq<char>,
        new_parent: Seq<char>,
        new_name: Seq<char>,
        now: Timespec,
        j: int,
    )
        requires
            self.wf(),
            self.rename_error(id, new_parent, new_name) is None,
            0 <= j < self.rows.len(),
            !self.is_under(self.rows[j].id, id),
        ensures
            self.renamed(id, new_parent, new_name, now).path_names(self.rows[j].id)
                == self.path_names(self.rows[j].id),
        decreases self.rank_of(self.rows[j].id),
    {
        let after = self.renamed(id, new_parent, new_name, now);
        self.lemma_renamed_wf(id, new_parent, new_name, now);
        let at = self.index_of_id(id);
        assert(self.id_at(id, at));
        assert(self.ancestor(self.rows[j].id, 0) == self.rows[j].id);
        assert(j != at);
        assert(after.rows[j] == self.rows[j]);
        self.lemma_path_names(j);
        after.lemma_path_names(j);
        if j != 0 {
            let p = self.lemma_parent_row(j);
            self.lemma_rank_of();
            assert(self.ids_distinct()) by {
                reveal(TableView::wf);
            }
            self.lemma_under_parent(j, id);
            self.lemma_moved_keeps_paths(id, new_parent, new_name, now, p);
        }
    }

    /// A move to another place changes the logical path of the moved inode:
    /// where the parent or the name is another one afterwards, so is the
    /// path.
    pub proof fn lemma_moved_changes_path(
        self,
        id: Seq<char>,
        new_parent: Seq<char>,
        new_name: Seq<char>,
        now: Timespec,
    )
        requires
            self.wf(),
            self.rename_error(id, new_parent, new_name) is None,
            !(self.rows[self.index_of_id(id)].parent == new_parent && self.rows[self.index_of_id(
                id,
            )].name == new_name),
        ensures
            self.renamed(id, new_parent, new_name, now).path_names(id) != self.path_names(id),
    {
        let after = self.renamed(id, new_parent, new_name, now);
        self.lemma_renamed_wf(id, new_parent, new_name, now);
        let at = self.index_of_id(id);
        assert(self.id_at(id, at));
        assert(self.id_at(self.root_id(), 0)) by {
            reveal(TableView::wf);
        }
        assert(at != 0);
        let from = self.lemma_parent_row(at);
        let to = self.index_of_id(new_parent);
        assert(self.id_at(new_parent, to));
        self.lemma_path_names(at);
        after.lemma_path_names(at);
        let before_path = self.path_names(self.rows[at].parent).push(self.rows[at].name);
        let after_path = after.path_names(new_parent).push(new_name);
        if before_path == after_path {
            assert(before_path.last() == self.rows[at].name);
            assert(after_path.last() == new_name);
            assert(before_path.drop_last() =~= self.path_names(self.rows[at].parent));
            assert(after_path.drop_last() =~= after.path_names(new_parent));
            self.lemma_moved_keeps_paths(id, new_parent, new_name, now, to);
            assert(from != to);
            self.lemma_paths_differ(from, to);
        }
    }

    /// The row that holds the ancestor of row `i` that is `steps` parent
    /// links away.
    proof fn lemma_ancestor_row(self, i: int, steps: nat) -> (p: int)
        requires
            self.wf(),
            0 <= i < self.rows.len(),
        ensures
            0 <= p < self.rows.len(),
            self.rows[p].id == self.ancestor(self.rows[i].id, steps),
        decreases steps,
    {
        if steps == 0 {
            i
        } else {
            let q = self.lemma_ancestor_row(i, (steps - 1) as nat);
            self.lemma_ancestor_step(self.rows[i].id, (steps - 1) as nat);
            assert(self.ids_distinct() && self.root_ok()) by {
                reveal(TableView::wf);
            }
            self.lemma_parent_of(q);
            if q == 0 {
                0
            } else {
                self.lemma_parent_row(q)
            }
        }
    }

    /// Along a chain of ancestors that has not reached the root, the rank
    /// falls with every link.
    proof fn lemma_rank_falls(self, i: int, near: nat, far: nat)
        requires
            self.wf(),
            0 <= i < self.rows.len(),
            near < far,
            forall|j: nat|
                j < far ==> #[trigger] self.ancestor(self.rows[i].id, j) != self.root_id(),
        ensures
            self.rank_of(self.ancestor(self.rows[i].id, far)) < self.rank_of(
                self.ancestor(self.rows[i].id, near),
            ),
        decreases far - near,
    {
        let id = self.rows[i].id;
        let before = (far - 1) as nat;
        let q = self.lemma_ancestor_row(i, before);
        assert(self.ancestor(id, before) != self.root_id());
        assert(q != 0);
        self.lemma_ancestor_step(id, before);
        assert(self.ids_distinct()) by {
            reveal(TableView::wf);
        }
        self.lemma_parent_of(q);
        self.lemma_rank_of();
        let rank = |x: Seq<char>| self.rank_of(x);
        assert(rank(self.rows[q].parent) < rank(self.rows[q].id));
        if near < before {
            self.lemma_rank_falls(i, near, before);
        }
    }

    /// A chain of ancestors that has not reached the root is no longer than
    /// the table has rows: its inodes are all different, and all of the
    /// table.
    proof fn lemma_chain_is_short(self, i: int, length: nat)
        requires
            self.wf(),
            0 <= i < self.rows.len(),
            forall|j: nat|
                j < length ==> #[trigger] self.ancestor(self.rows[i].id, j) != self.root_id(),
        ensures
            length <= self.rows.len(),
    {
        broadcast use vstd::seq_lib::seq_to_set_is_finite;

        let id = self.rows[i].id;
        let chain = Seq::new(length, |j: int| self.ancestor(id, j as nat));
        assert forall|a: int, b: int|
            0 <= a < chain.len() && 0 <= b < chain.len() && a != b implies chain[a]
            != chain[b] by {
            if a < b {
                self.lemma_rank_falls(i, a as nat, b as nat);
            } else {
                self.lemma_rank_falls(i, b as nat, a as nat);
            }
        }
        chain.unique_seq_to_set();
        let ids = self.rows.map_values(|row: RowView| row.id);
        ids.lemma_cardinality_of_set();
        assert forall|x: Seq<char>| chain.to_set().contains(x) implies ids.to_set().contains(
            x,
        ) by {
            let j = choose|j: int| 0 <= j < chain.len() && chain[j] == x;
            let p = self.lemma_ancestor_row(i, j as nat);
            assert(ids[p] == x);
        }
        vstd::set_lib::lemma_len_subset(chain.to_set(), ids.to_set());
    }

    /// In a well-formed table every inode reaches the root within as many
    /// parent links as the table has rows.
    pub proof fn lemma_reaches_root_in_time(self, i: int)
        requires
            self.wf(),
            0 <= i < self.rows.len(),
        ensures
            self.ancestor(self.rows[i].id, self.rows.len()) == self.root_id(),
    {
        let id = self.rows[i].id;
        let n = self.rows.len();
        if self.ancestor(id, n) != self.root_id() {
            assert(self.ids_distinct() && self.root_ok()) by {
                reveal(TableView::wf);
            }
            assert forall|j: nat| j < n + 1 implies #[trigger] self.ancestor(id, j)
                != self.root_id() by {
                if self.ancestor(id, j) == self.root_id() {
                    self.lemma_ancestor_past_root(id, j, n);
                }
            }
            self.lemma_chain_is_short(i, n + 1);
        }
    }
}

} // verus!
