//! What holds of the engine as a whole: statements that tie several
//! operations together, each proved from the contracts and the model.

use vstd::prelude::*;
use crate::action_runner::EntryView;
use crate::action_runner::entry_error;
use crate::action_runner::entry_replayed;
use crate::actions::CreateDir;
use crate::actions::CreateFile;
use crate::actions::Rename;
use crate::actions::moment_in;
use crate::codec::decoding;
use crate::file::StorageCall;
use crate::file_handle::HandlesView;
use crate::markfs::MarkFSView;
use crate::markfs::backing_path;
use crate::markfs::child_entry;
use crate::markfs::getattr_reply;
use crate::markfs::listing;
use crate::markfs::lookup_reply;
use crate::markfs::made_reply;
use crate::markfs::mkdir_plan;
use crate::markfs::readdir_reply;
use crate::markfs::rename_plan;
use crate::metadata::INodeKind;
use crate::metadata::INodeView;
use crate::metadata::Timespec;
use crate::metadata::model::TableView;
use crate::reply::DirEntryView;
use crate::reply::Entry;
use crate::reply::FileType;
use crate::reply::entry_of;
use crate::types::action::Action;
use crate::types::action::ErrorKind;

verus! {

/// The directory that a listing is about.
pub open spec fn listed_dir(table: TableView, ino: u64) -> INodeView {
    table.inode_at(table.index_of_ino(ino))
}

/// Whether the inode numbered `ino` is a directory of the table.
pub open spec fn lists(table: TableView, ino: u64) -> bool {
    table.has_ino(ino) && table.rows[table.index_of_ino(ino)].kind == INodeKind::Directory
}

/// A listing of a directory is what `readdir` answers at offset 0. It starts
/// with the directory itself as "." and its parent as "..", and has one more
/// line for each child.
pub proof fn theorem_listing_head(table: TableView, ino: u64)
    requires
        table.wf(),
        lists(table, ino),
    ensures
        ({
            let dir = listed_dir(table, ino);
            let lines = listing(table, dir);
            &&& readdir_reply(table, ino, 0) == Ok::<Seq<DirEntryView>, ErrorKind>(lines)
            &&& lines.len() == table.children(dir.row.id).len() + 2
            &&& lines[0] == (DirEntryView {
                ino,
                offset: 0,
                kind: FileType::Directory,
                name: "."@,
            })
            &&& table.by_id(dir.row.parent) matches Some(parent) && lines[1] == (DirEntryView {
                ino: parent.row.ino,
                offset: 1,
                kind: FileType::Directory,
                name: ".."@,
            })
        }),
{
    reveal(TableView::wf);
    let at = table.index_of_ino(ino);
    assert(table.ino_at(ino, at));
    table.lemma_parent_exists(ino);
    let p = table.index_of_id(table.rows[at].parent);
    assert(table.id_at(table.rows[at].parent, p));
}

/// Every line of a listing after the second stands for a child of the
/// directory: a row that names the directory as its parent.
pub proof fn theorem_listing_line_is_child(table: TableView, ino: u64, k: int) -> (i: int)
    requires
        table.wf(),
        lists(table, ino),
        2 <= k < listing(table, listed_dir(table, ino)).len(),
    ensures
        0 <= i < table.rows.len(),
        TableView::is_child_of(table.rows[i], listed_dir(table, ino).row.id),
        listing(table, listed_dir(table, ino))[k] == child_entry(table.inode_at(i), k - 2),
{
    let dir = listed_dir(table, ino);
    table.lemma_child_is_row(dir.row.id, k - 2)
}

/// Every child of a directory has a line in its listing.
pub proof fn theorem_listing_child_has_line(table: TableView, ino: u64, i: int) -> (k: int)
    requires
        table.wf(),
        lists(table, ino),
        0 <= i < table.rows.len(),
        TableView::is_child_of(table.rows[i], listed_dir(table, ino).row.id),
    ensures
        2 <= k < listing(table, listed_dir(table, ino)).len(),
        listing(table, listed_dir(table, ino))[k] == child_entry(table.inode_at(i), k - 2),
{
    let dir = listed_dir(table, ino);
    let c = table.lemma_row_is_child(dir.row.id, i);
    c + 2
}

/// No child is listed twice: two lines after the second differ in number
/// and in name.
pub proof fn theorem_listing_lines_differ(table: TableView, ino: u64, a: int, b: int)
    requires
        table.wf(),
        lists(table, ino),
        2 <= a < listing(table, listed_dir(table, ino)).len(),
        2 <= b < listing(table, listed_dir(table, ino)).len(),
        a != b,
    ensures
        listing(table, listed_dir(table, ino))[a].ino != listing(
            table,
            listed_dir(table, ino),
        )[b].ino,
        listing(table, listed_dir(table, ino))[a].name != listing(
            table,
            listed_dir(table, ino),
        )[b].name,
{
    reveal(TableView::wf);
    let dir = listed_dir(table, ino);
    table.lemma_children_distinct(dir.row.id, a - 2, b - 2);
}

/// A request for the attributes of a number that no inode has is answered
/// with `NoEntry`. An inode that exists reports the size of its current
/// version, as the version store holds it, and a directory reports 0.
pub proof fn theorem_getattr_size(table: TableView, ino: u64)
    requires
        table.wf(),
    ensures
        !table.has_ino(ino) ==> getattr_reply(table, ino) == Err::<crate::reply::Attr, ErrorKind>(
            ErrorKind::NoEntry,
        ),
        table.has_ino(ino) ==> {
            let row = table.rows[table.index_of_ino(ino)];
            &&& getattr_reply(table, ino) is Ok
            &&& getattr_reply(table, ino)->Ok_0.attr.ino == ino
            &&& getattr_reply(table, ino)->Ok_0.attr.size == table.size_of(row)
            &&& match row.kind {
                INodeKind::Directory => table.size_of(row) == 0,
                INodeKind::RegularFile => table.resolve(row.id, row.current_version) matches Some(
                    version,
                ) && table.size_of(row) == version.size,
            }
        },
{
    reveal(TableView::wf);
    if table.has_ino(ino) {
        let at = table.index_of_ino(ino);
        assert(table.ino_at(ino, at));
        if table.rows[at].kind == INodeKind::Directory {
            table.lemma_directory_size(at);
        }
    }
}

/// A move keeps identity and number: after it the new place resolves to the
/// inode that the old place resolved to before, and the old place, where it
/// is another one, resolves to nothing.
pub proof fn theorem_rename_keeps_identity(
    table: TableView,
    id: Seq<char>,
    new_parent: Seq<char>,
    new_name: Seq<char>,
    now: Timespec,
)
    requires
        table.wf(),
        table.rename_error(id, new_parent, new_name) is None,
    ensures
        ({
            let before = table.rows[table.index_of_id(id)];
            let after = table.renamed(id, new_parent, new_name, now);
            &&& after.wf()
            &&& table.lookup(before.parent, before.name) matches Some(found) && found.row.id == id
            &&& after.lookup(new_parent, new_name) matches Some(found) && found.row.id == id
                && found.row.ino == before.ino && found.size == table.size_of(before)
            &&& after.by_id(id) == after.lookup(new_parent, new_name)
            &&& !(before.parent == new_parent && before.name == new_name) ==> after.lookup(
                before.parent,
                before.name,
            ) is None
        }),
{
    reveal(TableView::wf);
    let at = table.index_of_id(id);
    assert(table.id_at(id, at));
    let before = table.rows[at];
    let after = table.renamed(id, new_parent, new_name, now);
    table.lemma_renamed_wf(id, new_parent, new_name, now);
    assert(table.entry_at(before.parent, before.name, at));
    table.lemma_entry_index(before.parent, before.name, at);
    assert(after.entry_at(new_parent, new_name, at));
    after.lemma_entry_index(new_parent, new_name, at);
    assert(after.id_at(id, at));
    after.lemma_id_index(id, at);
    assert(after.size_of(after.rows[at]) == table.size_of(before));
    if !(before.parent == new_parent && before.name == new_name) {
        if after.has_entry(before.parent, before.name) {
            let j = after.index_of_entry(before.parent, before.name);
            assert(after.entry_at(before.parent, before.name, j));
            assert(j != at);
            assert(table.entry_at(before.parent, before.name, j));
        }
    }
}

/// A move to another place moves the backing object: the path that backing
/// storage is given as the old one, which is the path of the inode before
/// the change, and the path that it is given as the new one, which is the
/// path of the inode after it, differ wherever the parent or the name is
/// another one afterwards.
pub proof fn theorem_rename_paths_differ(
    local_path: Seq<char>,
    table: TableView,
    id: Seq<char>,
    new_parent: Seq<char>,
    new_name: Seq<char>,
    now: Timespec,
)
    requires
        table.wf(),
        table.rename_error(id, new_parent, new_name) is None,
        !(table.rows[table.index_of_id(id)].parent == new_parent && table.rows[table.index_of_id(
            id,
        )].name == new_name),
    ensures
        backing_path(local_path, table, id) != backing_path(
            local_path,
            table.renamed(id, new_parent, new_name, now),
            id,
        ),
{
    let after = table.renamed(id, new_parent, new_name, now);
    table.lemma_moved_changes_path(id, new_parent, new_name, now);
    let old_path = backing_path(local_path, table, id);
    let new_path = backing_path(local_path, after, id);
    assert(old_path.subrange(1, old_path.len() as int) =~= table.path_names(id));
    assert(new_path.subrange(1, new_path.len() as int) =~= after.path_names(id));
}

/// The same, as the dispatcher's clients see it: where the entry `name` of
/// the directory numbered `parent` can be moved to the entry `new_name` of
/// the directory numbered `new_parent`, a lookup of the new place finds
/// afterwards the number that a lookup of the old place found before, and a
/// lookup of the old place, where it is another one, finds nothing.
pub proof fn theorem_rename_then_lookup(
    table: TableView,
    parent: u64,
    name: Seq<u8>,
    new_parent: u64,
    new_name: Seq<u8>,
    now: Timespec,
)
    requires
        table.wf(),
        rename_plan(table, parent, name, new_parent, new_name) is Ok,
        ({
            let plan = rename_plan(table, parent, name, new_parent, new_name)->Ok_0;
            table.rename_error(plan.0, plan.1, plan.2) is None
        }),
    ensures
        ({
            let plan = rename_plan(table, parent, name, new_parent, new_name)->Ok_0;
            let after = table.renamed(plan.0, plan.1, plan.2, now);
            &&& lookup_reply(table, parent, name) is Ok
            &&& lookup_reply(after, new_parent, new_name) is Ok
            &&& lookup_reply(after, new_parent, new_name)->Ok_0.attr.ino == lookup_reply(
                table,
                parent,
                name,
            )->Ok_0.attr.ino
            &&& after.by_ino(lookup_reply(table, parent, name)->Ok_0.attr.ino) matches Some(found)
                && found.row.id == plan.0
            &&& !(parent == new_parent && vstd::utf8::decode_utf8(name)
                == vstd::utf8::decode_utf8(new_name)) ==> lookup_reply(after, parent, name)
                == Err::<Entry, ErrorKind>(ErrorKind::NoEntry)
        }),
{
    reveal(TableView::wf);
    let plan = rename_plan(table, parent, name, new_parent, new_name)->Ok_0;
    let after = table.renamed(plan.0, plan.1, plan.2, now);
    let from = table.index_of_ino(parent);
    let to = table.index_of_ino(new_parent);
    assert(table.ino_at(parent, from));
    assert(table.ino_at(new_parent, to));
    let at = table.index_of_id(plan.0);
    let found = table.index_of_entry(table.rows[from].id, vstd::utf8::decode_utf8(name));
    assert(table.entry_at(table.rows[from].id, vstd::utf8::decode_utf8(name), found));
    assert(table.id_at(plan.0, found));
    table.lemma_id_index(plan.0, found);
    theorem_rename_keeps_identity(table, plan.0, plan.1, plan.2, now);
    assert(after.ino_at(parent, from));
    assert(after.ino_at(new_parent, to));
    after.lemma_ino_index(parent, from);
    after.lemma_ino_index(new_parent, to);
    assert(after.rows[from].id == table.rows[from].id);
    assert(after.rows[to].id == table.rows[to].id);
    assert(after.ino_at(table.rows[at].ino, at));
    after.lemma_ino_index(table.rows[at].ino, at);
    if parent == new_parent {
        assert(from == to);
    } else {
        assert(from != to);
        assert(table.rows[from].id != table.rows[to].id);
    }
}

/// A directory that was created is found by a lookup of its name, as the
/// entry that its creation answered with, and under a number that no inode
/// had before.
pub proof fn theorem_mkdir_then_lookup(
    table: TableView,
    parent: u64,
    name: Seq<u8>,
    id: Seq<char>,
    now: Timespec,
)
    requires
        table.wf(),
        mkdir_plan(table, parent, name) is Ok,
        ({
            let plan = mkdir_plan(table, parent, name)->Ok_0;
            table.insert_error(plan.0, plan.1, id) is None
        }),
    ensures
        ({
            let plan = mkdir_plan(table, parent, name)->Ok_0;
            let after = table.with_dir(plan.0, plan.1, id, now);
            let created = INodeView { row: table.dir_row(plan.0, plan.1, id, now), size: 0 };
            &&& after.wf()
            &&& !table.has_ino(created.row.ino)
            &&& lookup_reply(table, parent, name) == Err::<Entry, ErrorKind>(ErrorKind::NoEntry)
            &&& lookup_reply(after, parent, name) == Ok::<Entry, ErrorKind>(entry_of(created))
        }),
{
    reveal(TableView::wf);
    let plan = mkdir_plan(table, parent, name)->Ok_0;
    let after = table.with_dir(plan.0, plan.1, id, now);
    table.lemma_created_dir(plan.0, plan.1, id, now);
    let from = table.index_of_ino(parent);
    assert(table.ino_at(parent, from));
    assert(after.ino_at(parent, from));
    after.lemma_ino_index(parent, from);
    if table.has_ino(table.next_ino) {
        let i = table.index_of_ino(table.next_ino);
        assert(table.ino_at(table.next_ino, i));
    }
}

/// A creation that was answered with success is whole: backing storage was
/// asked to make a directory at the path of the new inode and answered that
/// it had, before the answer to the creation was given; and the inode table
/// holds the directory, so that every lookup from then on finds what the
/// creation answered. A creation that was refused before storage was asked
/// left the inode table as it was and asked nothing of storage.
pub proof fn theorem_mkdir_is_whole<H>(
    before: MarkFSView<H>,
    after: MarkFSView<H>,
    parent: u64,
    name: Seq<u8>,
    id: Seq<char>,
    now: Timespec,
    reply: Result<Entry, ErrorKind>,
)
    requires
        before.wf(),
        before.mkdir_done(after, parent, name, id, now, reply),
    ensures
        reply is Ok ==> {
            let plan = mkdir_plan(before.table, parent, name)->Ok_0;
            let created = INodeView {
                row: before.table.dir_row(plan.0, plan.1, id, now),
                size: 0,
            };
            &&& mkdir_plan(before.table, parent, name) is Ok
            &&& reply == made_reply(created, Ok(()))
            &&& after.calls == before.calls.push(
                StorageCall::CreateDir {
                    path: backing_path(before.local_path, after.table, id),
                    made: Ok(()),
                },
            )
            &&& lookup_reply(after.table, parent, name) == reply
        },
        reply is Err ==> (after.table == before.table && after.calls == before.calls) || reply
            == Err::<Entry, ErrorKind>(ErrorKind::NotImplemented),
{
    if reply is Ok {
        let plan = mkdir_plan(before.table, parent, name)->Ok_0;
        let created = INodeView { row: before.table.dir_row(plan.0, plan.1, id, now), size: 0 };
        assert(mkdir_plan(before.table, parent, name) is Ok);
        assert(before.table.insert_error(plan.0, plan.1, id) is None);
        theorem_mkdir_then_lookup(before.table, parent, name, id, now);
        let made = choose|made: Result<(), ()>|
            {
                &&& reply == #[trigger] made_reply(created, made)
                &&& after.calls == before.calls.push(
                    StorageCall::CreateDir {
                        path: backing_path(before.local_path, after.table, id),
                        made,
                    },
                )
            };
        assert(made is Ok);
        assert(made->Ok_0 == ());
        assert(made == Ok::<(), ()>(()));
    }
}

/// A second creation under the same name is refused with `FileExists`,
/// whatever identity it brings.
pub proof fn theorem_mkdir_twice(
    table: TableView,
    parent: Seq<char>,
    name: Seq<char>,
    id: Seq<char>,
    now: Timespec,
    other: Seq<char>,
)
    requires
        table.wf(),
        table.insert_error(parent, name, id) is None,
    ensures
        table.with_dir(parent, name, id, now).insert_error(parent, name, other) == Some(
            ErrorKind::FileExists,
        ),
{
    reveal(TableView::wf);
    let after = table.with_dir(parent, name, id, now);
    let n = table.rows.len() as int;
    table.lemma_created_dir(parent, name, id, now);
    let p = table.index_of_id(parent);
    assert(table.id_at(parent, p));
    assert(after.id_at(parent, p));
    after.lemma_id_index(parent, p);
    assert(after.entry_at(parent, name, n));
}

/// Replay is idempotent, for every action: a replay leaves the state that
/// one fresh run leaves, whether the action was applied before the replay or
/// not, and once an action was run, fresh or as a replay, refused or not,
/// running it again as a replay leaves the state as the first run left it,
/// and succeeds where the first run did.
pub proof fn theorem_replay_is_idempotent<A: Action>(action: &A, before: TableView, replay: bool)
    requires
        before.wf(),
    ensures
        action.applied(before, replay).wf(),
        action.applied(before, true) == action.applied(before, false),
        action.applied(action.applied(before, false), true) == action.applied(before, false),
        action.applied(action.applied(before, replay), true) == action.applied(before, replay),
        action.error(before, replay) is None ==> action.error(
            action.applied(before, replay),
            true,
        ) is None,
{
    action.lemma_replay(before, replay);
    action.lemma_replay(before, false);
}

/// Recovery replays what was logged. An entry of the journal that is not
/// complete and holds the description of the creation of a directory, as
/// every entry does that `log` or `run` wrote for one, is replayed as that
/// creation: the state after it is the state that one fresh run of the
/// creation leaves, and the entry is settled as the replay of the creation
/// ends.
pub proof fn theorem_recovery_replays_mkdir(
    parent: Seq<char>,
    name: Seq<char>,
    id: Seq<char>,
    now: Timespec,
    entry: EntryView,
    before: TableView,
)
    requires
        before.wf(),
        !entry.complete,
        decoding(entry.payload) == Some(CreateDir::record_of(parent, name, id, now)),
    ensures
        entry_replayed(entry, decoding(entry.payload), before) == CreateDir::applied_of(
            parent,
            name,
            id,
            now,
            before,
            false,
        ),
        entry_error(entry, decoding(entry.payload), before) == CreateDir::error_of(
            parent,
            name,
            id,
            before,
            true,
        ),
{
    let record = CreateDir::record_of(parent, name, id, now);
    assert(CreateDir::describes(record));
    assert(moment_in(record.numbers) == now);
    CreateDir::lemma_replay_of(parent, name, id, now, before, true);
}

/// The same of the creation of a regular file.
pub proof fn theorem_recovery_replays_create(
    parent: Seq<char>,
    name: Seq<char>,
    id: Seq<char>,
    now: Timespec,
    size: u64,
    hash: Seq<char>,
    entry: EntryView,
    before: TableView,
)
    requires
        before.wf(),
        !entry.complete,
        decoding(entry.payload) == Some(CreateFile::record_of(parent, name, id, now, size, hash)),
    ensures
        entry_replayed(entry, decoding(entry.payload), before) == CreateFile::applied_of(
            parent,
            name,
            id,
            now,
            size,
            hash,
            before,
            false,
        ),
        entry_error(entry, decoding(entry.payload), before) == CreateFile::error_of(
            parent,
            name,
            id,
            before,
            true,
        ),
{
    let record = CreateFile::record_of(parent, name, id, now, size, hash);
    assert(!CreateDir::describes(record));
    assert(CreateFile::describes(record));
    assert(moment_in(record.numbers) == now);
    CreateFile::lemma_replay_of(parent, name, id, now, size, hash, before, true);
}

/// The same of a move.
pub proof fn theorem_recovery_replays_rename(
    id: Seq<char>,
    new_parent: Seq<char>,
    new_name: Seq<char>,
    now: Timespec,
    entry: EntryView,
    before: TableView,
)
    requires
        before.wf(),
        !entry.complete,
        decoding(entry.payload) == Some(Rename::record_of(id, new_parent, new_name, now)),
    ensures
        entry_replayed(entry, decoding(entry.payload), before) == Rename::applied_of(
            id,
            new_parent,
            new_name,
            now,
            before,
            false,
        ),
        entry_error(entry, decoding(entry.payload), before) == Rename::error_of(
            id,
            new_parent,
            new_name,
            now,
            before,
            true,
        ),
{
    let record = Rename::record_of(id, new_parent, new_name, now);
    reveal_strlit("mkdir");
    reveal_strlit("rename");
    assert("mkdir"@.len() == 5);
    assert("rename"@.len() == 6);
    assert(!CreateDir::describes(record));
    assert(!CreateFile::describes(record));
    assert(Rename::describes(record));
    assert(moment_in(record.numbers) == now);
    Rename::lemma_replay_of(id, new_parent, new_name, now, before, true);
}

/// An identifier that was handed out and is not open stays closed: neither
/// an open, nor the release of another file, nor a read brings it back. So
/// after its release no read finds it again.
pub proof fn theorem_closed_stays_closed<H>(
    handles: HandlesView<H>,
    after: HandlesView<H>,
    fh: u64,
    handle: H,
    other: u64,
    offset: u64,
    size: u32,
    answer: Result<Seq<u8>, ()>,
)
    requires
        handles.wf(),
        !handles.is_open(fh),
        fh <= handles.last_fh,
        ({
            ||| handles.last_fh < u64::MAX && handles.opened(after, handle)
            ||| after == handles.released(other)
            ||| handles.is_open(other) && handles.read_through(after, other, offset, size, answer)
        }),
    ensures
        !after.is_open(fh),
        fh <= after.last_fh,
{
}

/// A read opens and closes nothing: the identifiers that are open after it
/// are those that were open before.
pub proof fn theorem_read_keeps_open<H>(
    handles: HandlesView<H>,
    after: HandlesView<H>,
    through: u64,
    offset: u64,
    size: u32,
    answer: Result<Seq<u8>, ()>,
    fh: u64,
)
    requires
        handles.read_through(after, through, offset, size, answer),
    ensures
        after.is_open(fh) == handles.is_open(fh),
{
}

/// The release of an open file closes it for good: its identifier is not
/// open afterwards, and it was handed out, so that it stays closed.
pub proof fn theorem_release_closes<H>(handles: HandlesView<H>, fh: u64)
    requires
        handles.wf(),
        handles.is_open(fh),
    ensures
        handles.released(fh).wf(),
        !handles.released(fh).is_open(fh),
        fh <= handles.released(fh).last_fh,
{
}

} // verus!
