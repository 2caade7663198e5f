//! The dispatcher of protocol operations: it takes each request as plain
//! values, asks the inode table, the runner of actions, the table of open
//! files and the backing storage, and answers with an entry, attributes, a
//! listing, data, or an error.

use vstd::prelude::*;
use crate::action_runner::ActionRunner;
use crate::action_runner::EntryView;
use crate::action_runner::RunnerView;
use crate::actions::CreateDir;
use crate::actions::Rename;
use crate::codec::decoding;
use crate::codec::encoding;
use crate::decimal::decimal;
use crate::decimal::decimal_text;
use crate::file::FileOperation;
use crate::file::Storage;
use crate::file::StorageCall;
use crate::file_handle::HandleTable;
use crate::file_handle::HandlesView;
use crate::file_handle::read_out;
use crate::file_handle::read_reply;
use crate::metadata::INode;
use crate::metadata::INodeKind;
use crate::metadata::INodeView;
use crate::metadata::Metadata;
use crate::metadata::Timespec;
use crate::metadata::model::TableView;
use crate::metadata::texts;
use crate::metadata::views;
use crate::platform::fresh_id;
use crate::platform::is_identity_text;
use crate::platform::is_moment;
use crate::platform::system_time;
use crate::platform::text_of_bytes;
use crate::reply::Attr;
use crate::reply::DirEntry;
use crate::reply::DirEntryView;
use crate::reply::Entry;
use crate::reply::FileAttr;
use crate::reply::FileType;
use crate::reply::GROUP;
use crate::reply::OWNER;
use crate::reply::Opened;
use crate::reply::PERMISSIONS;
use crate::reply::TTL_SECONDS;
use crate::reply::answered;
use crate::reply::attr_of;
use crate::reply::entry_of;
use crate::reply::listed;
use crate::reply::ttl;
use crate::reply::type_of;
use crate::types::action::Action;
use crate::types::action::ActionError;
use crate::types::action::ErrorKind;
use vstd::utf8::decode_utf8;
use vstd::utf8::valid_utf8;

verus! {

/// The filesystem: the backing root, the metadata, the runner of actions,
/// the open files, and the backing storage.
pub struct MarkFS<F: FileOperation> {
    local_path: String,
    metadata: Metadata,
    runner: ActionRunner,
    open_fh: HandleTable<F::Handle>,
    files: Storage<F>,
}

/// The filesystem as a mathematical value. Of backing storage it holds the
/// record of the requests that were handed on to it, oldest first; what
/// storage does on a request is not modelled.
pub struct MarkFSView<H> {
    pub local_path: Seq<char>,
    pub table: TableView,
    pub runner: RunnerView,
    pub handles: HandlesView<H>,
    pub calls: Seq<StorageCall>,
}

impl<F: FileOperation> View for MarkFS<F> {
    type V = MarkFSView<F::Handle>;

    closed spec fn view(&self) -> MarkFSView<F::Handle> {
        MarkFSView {
            local_path: self.local_path@,
            table: self.metadata@,
            runner: self.runner@,
            handles: self.open_fh@,
            calls: self.files.calls(),
        }
    }
}

/// A structural request whose action is written down, as entry `at` of the
/// journal, and not yet applied. Between the two steps the journal can be
/// made durable.
#[derive(Debug)]
pub struct Logged<A> {
    pub action: A,
    pub at: usize,
}

impl<H> MarkFSView<H> {
    /// The filesystem with another journal.
    pub open spec fn with_runner(self, runner: RunnerView) -> Self {
        MarkFSView {
            local_path: self.local_path,
            table: self.table,
            runner,
            handles: self.handles,
            calls: self.calls,
        }
    }

    /// What holds after the creation of the directory `name` under the
    /// inode `dir`, written down as entry `at` of the journal, was applied,
    /// answered with `reply` and left the filesystem as `after`.
    ///
    /// Where the journal has no such entry nothing changes, and the answer
    /// is `NoEntry`. Otherwise the entry is settled: where the action is
    /// refused, its error is the answer, the table stays as it was, and
    /// storage is not asked; where it succeeds, the table holds the new
    /// directory, storage is asked once, to make a directory at the path of
    /// the new inode, and the answer is what storage made of it.
    pub open spec fn mkdir_applied(
        self,
        after: Self,
        dir: Seq<char>,
        text: Seq<char>,
        id: Seq<char>,
        now: Timespec,
        at: int,
        reply: Result<Entry, ErrorKind>,
    ) -> bool {
        if 0 <= at < self.runner.journal.len() {
            let error = self.table.insert_error(dir, text, id);
            let created = INodeView { row: self.table.dir_row(dir, text, id, now), size: 0 };
            &&& after.local_path == self.local_path
            &&& after.handles == self.handles
            &&& after.runner == self.runner.settled(at, error)
            &&& match error {
                Some(kind) => {
                    &&& reply == Err::<Entry, ErrorKind>(kind)
                    &&& after.table == self.table
                    &&& after.calls == self.calls
                },
                None => {
                    &&& after.table == self.table.with_dir(dir, text, id, now)
                    &&& exists|made: Result<(), ()>|
                        {
                            &&& reply == #[trigger] made_reply(created, made)
                            &&& after.calls == self.calls.push(
                                StorageCall::CreateDir {
                                    path: backing_path(self.local_path, after.table, id),
                                    made,
                                },
                            )
                        }
                },
            }
        } else {
            reply == Err::<Entry, ErrorKind>(ErrorKind::NoEntry) && after == self
        }
    }

    /// What holds after the move of the inode `id` to the entry `text` of
    /// the inode `to`, written down as entry `at` of the journal, was
    /// applied, answered with `reply` and left the filesystem as `after`.
    ///
    /// Where the journal has no such entry nothing changes, and the answer
    /// is `NoEntry`. Otherwise the entry is settled: where the action is
    /// refused, its error is the answer, the table stays as it was, and
    /// storage is not asked; where it succeeds, the entry has moved in the
    /// table, storage is asked once, to move the object from the path that
    /// the inode had before the change to the path that it has after it, and
    /// the answer is what storage made of the move.
    pub open spec fn rename_applied(
        self,
        after: Self,
        id: Seq<char>,
        to: Seq<char>,
        text: Seq<char>,
        now: Timespec,
        at: int,
        reply: Result<(), ErrorKind>,
    ) -> bool {
        if 0 <= at < self.runner.journal.len() {
            let error = self.table.rename_error(id, to, text);
            &&& after.local_path == self.local_path
            &&& after.handles == self.handles
            &&& after.runner == self.runner.settled(at, error)
            &&& match error {
                Some(kind) => {
                    &&& reply == Err::<(), ErrorKind>(kind)
                    &&& after.table == self.table
                    &&& after.calls == self.calls
                },
                None => {
                    &&& after.table == self.table.renamed(id, to, text, now)
                    &&& exists|moved: Result<(), ()>|
                        {
                            &&& reply == #[trigger] moved_reply(moved)
                            &&& after.calls == self.calls.push(
                                StorageCall::Rename {
                                    old_path: backing_path(self.local_path, self.table, id),
                                    new_path: backing_path(self.local_path, after.table, id),
                                    moved,
                                },
                            )
                        }
                },
            }
        } else {
            reply == Err::<(), ErrorKind>(ErrorKind::NoEntry) && after == self
        }
    }

    /// The metadata and the table of open files are well-formed, and the
    /// runner runs its actions fresh.
    pub open spec fn wf(self) -> bool {
        &&& self.table.wf()
        &&& self.handles.wf()
        &&& !self.runner.replay
    }

    /// What holds after a request to create the directory `name` under the
    /// directory numbered `parent`, under the identity `id` and at the time
    /// `now`, was answered with `reply` and left the filesystem as `after`.
    ///
    /// A request that asks nothing of the table changes nothing. Otherwise
    /// the action enters the journal. Where it is refused, its error is the answer, the table
    /// stays as it was, and storage is not asked. Where it succeeds, the
    /// table holds the new directory, storage is asked once, to make a
    /// directory at the path of the new inode, and the answer is what
    /// storage made of it.
    pub open spec fn mkdir_done(
        self,
        after: Self,
        parent: u64,
        name: Seq<u8>,
        id: Seq<char>,
        now: Timespec,
        reply: Result<Entry, ErrorKind>,
    ) -> bool {
        &&& after.local_path == self.local_path
        &&& after.handles == self.handles
        &&& match mkdir_plan(self.table, parent, name) {
            Err(kind) => reply == Err::<Entry, ErrorKind>(kind) && after == self,
            Ok((dir, text)) => {
                let bytes = encoding(CreateDir::record_of(dir, text, id, now));
                let error = self.table.insert_error(dir, text, id);
                let created = INodeView {
                    row: self.table.dir_row(dir, text, id, now),
                    size: 0,
                };
                &&& after.runner == self.runner.logged("mkdir"@, bytes, error)
                &&& match error {
                    Some(kind) => {
                        &&& reply == Err::<Entry, ErrorKind>(kind)
                        &&& after.table == self.table
                        &&& after.calls == self.calls
                    },
                    None => {
                        &&& after.table == self.table.with_dir(dir, text, id, now)
                        &&& exists|made: Result<(), ()>|
                            {
                                &&& reply == #[trigger] made_reply(created, made)
                                &&& after.calls == self.calls.push(
                                    StorageCall::CreateDir {
                                        path: backing_path(self.local_path, after.table, id),
                                        made,
                                    },
                                )
                            }
                    },
                }
            },
        }
    }

    /// What holds after a request to move the entry `name` of the directory
    /// numbered `parent` to the entry `new_name` of the directory numbered
    /// `new_parent`, at the time `now`, was answered with `reply` and left
    /// the filesystem as `after`.
    ///
    /// A request that asks nothing of the table changes nothing. Otherwise
    /// the action enters the journal. Where it is refused, its error is the answer, the table
    /// stays as it was, and storage is not asked. Where it succeeds, the
    /// entry has moved in the table, storage is asked once, to move the
    /// object from the path that the inode had before the change to the path
    /// that it has after it, and the answer is what storage made of the
    /// move.
    pub open spec fn rename_done(
        self,
        after: Self,
        parent: u64,
        name: Seq<u8>,
        new_parent: u64,
        new_name: Seq<u8>,
        now: Timespec,
        reply: Result<(), ErrorKind>,
    ) -> bool {
        &&& after.local_path == self.local_path
        &&& after.handles == self.handles
        &&& match rename_plan(self.table, parent, name, new_parent, new_name) {
            Err(kind) => reply == Err::<(), ErrorKind>(kind) && after == self,
            Ok((id, to, text)) => {
                let bytes = encoding(Rename::record_of(id, to, text, now));
                let error = self.table.rename_error(id, to, text);
                &&& after.runner == self.runner.logged("rename"@, bytes, error)
                &&& match error {
                    Some(kind) => {
                        &&& reply == Err::<(), ErrorKind>(kind)
                        &&& after.table == self.table
                        &&& after.calls == self.calls
                    },
                    None => {
                        &&& after.table == self.table.renamed(id, to, text, now)
                        &&& exists|moved: Result<(), ()>|
                            {
                                &&& reply == #[trigger] moved_reply(moved)
                                &&& after.calls == self.calls.push(
                                    StorageCall::Rename {
                                        old_path: backing_path(
                                            self.local_path,
                                            self.table,
                                            id,
                                        ),
                                        new_path: backing_path(
                                            self.local_path,
                                            after.table,
                                            id,
                                        ),
                                        moved,
                                    },
                                )
                            }
                    },
                }
            },
        }
    }

    /// A filesystem that was just made on an empty tree.
    pub open spec fn initial(local_path: Seq<char>, root_id: Seq<char>, now: Timespec) -> Self {
        MarkFSView {
            local_path,
            table: TableView::initial(root_id, now),
            runner: RunnerView { replay: false, journal: Seq::empty() },
            handles: HandlesView::initial(),
            calls: Seq::empty(),
        }
    }
}

/// The path in backing storage of the inode `id`: the backing root, then the
/// names from the root's child down to the inode.
pub open spec fn backing_path(local_path: Seq<char>, table: TableView, id: Seq<char>) -> Seq<
    Seq<char>,
> {
    seq![local_path] + table.path_names(id)
}

/// The path of the object that holds the content of `inode`: for a regular
/// file, the path of the file and then the number of its current version,
/// since every version lies under the file's name as an object of its own;
/// for a directory, its path.
pub open spec fn object_path(local_path: Seq<char>, table: TableView, inode: INodeView) -> Seq<
    Seq<char>,
> {
    match inode.row.kind {
        INodeKind::Directory => backing_path(local_path, table, inode.row.id),
        INodeKind::RegularFile => backing_path(local_path, table, inode.row.id).push(
            decimal(inode.row.current_version as nat),
        ),
    }
}

/// The answer to a lookup of `name` under the directory numbered `parent`:
/// the entry, or `NoEntry` where the parent does not exist, the name is no
/// text, or the parent has no such entry.
pub open spec fn lookup_reply(table: TableView, parent: u64, name: Seq<u8>) -> Result<
    Entry,
    ErrorKind,
> {
    match table.by_ino(parent) {
        None => Err(ErrorKind::NoEntry),
        Some(dir) => if !valid_utf8(name) {
            Err(ErrorKind::NoEntry)
        } else {
            match table.lookup(dir.row.id, decode_utf8(name)) {
                Some(inode) => Ok(entry_of(inode)),
                None => Err(ErrorKind::NoEntry),
            }
        },
    }
}

/// The answer to a request for the attributes of the inode numbered `ino`.
pub open spec fn getattr_reply(table: TableView, ino: u64) -> Result<Attr, ErrorKind> {
    match table.by_ino(ino) {
        Some(inode) => Ok(Attr { ttl: ttl(), attr: attr_of(inode) }),
        None => Err(ErrorKind::NoEntry),
    }
}

/// The line of a listing for the child at place `index` among the children.
pub open spec fn child_entry(child: INodeView, index: int) -> DirEntryView {
    DirEntryView {
        ino: child.row.ino,
        offset: (index + 2) as u64,
        kind: type_of(child.row.kind),
        name: child.row.name,
    }
}

/// The listing of the directory `dir`: itself as ".", its parent as "..",
/// and then its children, each once.
pub open spec fn listing(table: TableView, dir: INodeView) -> Seq<DirEntryView> {
    let children = table.children(dir.row.id);
    seq![
        DirEntryView { ino: dir.row.ino, offset: 0, kind: FileType::Directory, name: "."@ },
        DirEntryView {
            ino: table.rows[table.index_of_id(dir.row.parent)].ino,
            offset: 1,
            kind: FileType::Directory,
            name: ".."@,
        },
    ] + Seq::new(children.len(), |i: int| child_entry(children[i], i))
}

/// The answer to a listing of the inode numbered `ino` from `offset` on:
/// the whole listing at offset 0 and nothing at any other, since a client
/// that asks again has it already. It is `NoEntry` where there is no such
/// inode, and `NotADirectory` where the inode is no directory.
pub open spec fn readdir_reply(table: TableView, ino: u64, offset: i64) -> Result<
    Seq<DirEntryView>,
    ErrorKind,
> {
    match table.by_ino(ino) {
        None => Err(ErrorKind::NoEntry),
        Some(dir) => if dir.row.kind != INodeKind::Directory {
            Err(ErrorKind::NotADirectory)
        } else if offset != 0 {
            Ok(Seq::empty())
        } else {
            Ok(listing(table, dir))
        },
    }
}

/// What a request to create the directory `name` under the directory
/// numbered `parent` asks of the inode table: the identity of the parent and
/// the name as text; `NoEntry` where the parent does not exist or the name
/// is no text.
pub open spec fn mkdir_plan(table: TableView, parent: u64, name: Seq<u8>) -> Result<
    (Seq<char>, Seq<char>),
    ErrorKind,
> {
    match table.by_ino(parent) {
        None => Err(ErrorKind::NoEntry),
        Some(dir) => if !valid_utf8(name) {
            Err(ErrorKind::NoEntry)
        } else {
            Ok((dir.row.id, decode_utf8(name)))
        },
    }
}

/// What a request to move the entry `name` of the directory numbered
/// `parent` to the entry `new_name` of the directory numbered `new_parent`
/// asks of the inode table: the identity of the entry, the identity of the
/// new parent, and the new name as text. It is `NoEntry` where a directory
/// does not exist, the name is no text, or there is no such entry, and
/// `NotImplemented` where the new name is no text.
pub open spec fn rename_plan(
    table: TableView,
    parent: u64,
    name: Seq<u8>,
    new_parent: u64,
    new_name: Seq<u8>,
) -> Result<(Seq<char>, Seq<char>, Seq<char>), ErrorKind> {
    match (table.by_ino(parent), table.by_ino(new_parent)) {
        (Some(from), Some(to)) => if !valid_utf8(name) {
            Err(ErrorKind::NoEntry)
        } else if !valid_utf8(new_name) {
            Err(ErrorKind::NotImplemented)
        } else {
            match table.lookup(from.row.id, decode_utf8(name)) {
                Some(inode) => Ok((inode.row.id, to.row.id, decode_utf8(new_name))),
                None => Err(ErrorKind::NoEntry),
            }
        },
        _ => Err(ErrorKind::NoEntry),
    }
}

/// Whether a request to create the directory `name` under the directory
/// numbered `parent` reaches backing storage: it does once its action has
/// succeeded, and not before.
pub open spec fn mkdir_reaches_storage(
    table: TableView,
    parent: u64,
    name: Seq<u8>,
    id: Seq<char>,
    now: Timespec,
) -> bool {
    match mkdir_plan(table, parent, name) {
        Ok((dir, text)) => table.insert_error(dir, text, id) is None,
        Err(_) => false,
    }
}

/// Whether a request to move an entry reaches backing storage: it does once
/// its action has succeeded, and not before.
pub open spec fn rename_reaches_storage(
    table: TableView,
    parent: u64,
    name: Seq<u8>,
    new_parent: u64,
    new_name: Seq<u8>,
    now: Timespec,
) -> bool {
    match rename_plan(table, parent, name, new_parent, new_name) {
        Ok((id, to, text)) => table.rename_error(id, to, text) is None,
        Err(_) => false,
    }
}

/// Whether a request to open the inode numbered `ino` reaches backing
/// storage: it does for a regular file, while there is an identifier left to
/// hand out.
pub open spec fn open_reaches_storage(table: TableView, last_fh: u64, ino: u64) -> bool {
    match table.by_ino(ino) {
        Some(inode) => inode.row.kind == INodeKind::RegularFile && last_fh != u64::MAX,
        None => false,
    }
}

/// What holds after the table of open files was asked to take what backing
/// storage answered to an open: where the identifiers are used up, the
/// answer is `NoSpaceLeftOnDevice`; where storage failed, it is
/// `NotImplemented`; and where storage handed out a file, the file is in the
/// table under the next identifier, which is the answer. A refusal leaves
/// the table as it was.
pub open spec fn open_done<H>(
    before: HandlesView<H>,
    after: HandlesView<H>,
    handle: Result<H, ()>,
    flags: u32,
    reply: Result<Opened, ErrorKind>,
) -> bool {
    if before.last_fh == u64::MAX {
        reply == Err::<Opened, ErrorKind>(ErrorKind::NoSpaceLeftOnDevice) && after == before
    } else {
        match handle {
            Ok(file) => reply == Ok::<Opened, ErrorKind>(
                Opened { fh: (before.last_fh + 1) as u64, flags },
            ) && before.opened(after, file),
            Err(()) => reply == Err::<Opened, ErrorKind>(ErrorKind::NotImplemented) && after
                == before,
        }
    }
}

/// The answer to the creation of a directory, once its inode exists and
/// backing storage was asked to make the directory: the entry where it did,
/// and `NotImplemented` where it failed, with the metadata ahead of storage.
pub open spec fn made_reply(created: INodeView, made: Result<(), ()>) -> Result<
    Entry,
    ErrorKind,
> {
    match made {
        Ok(()) => Ok(entry_of(created)),
        Err(()) => Err(ErrorKind::NotImplemented),
    }
}

/// The answer to a move, once the inode table was changed and backing
/// storage was asked to move the object: success where it did, and
/// `NotImplemented` where it failed.
pub open spec fn moved_reply(moved: Result<(), ()>) -> Result<(), ErrorKind> {
    match moved {
        Ok(()) => Ok(()),
        Err(()) => Err(ErrorKind::NotImplemented),
    }
}

impl<F: FileOperation> MarkFS<F> {
    pub open spec fn wf(&self) -> bool {
        self@.wf()
    }

    /// The backing storage that the filesystem holds. What a request does to
    /// it is for storage to say; a request that does not reach storage
    /// leaves it as it was.
    pub closed spec fn storage(&self) -> F {
        self.files.provider()
    }

    /// A filesystem on an empty tree, whose root gets the identity
    /// `root_id` and the time `now`.
    pub fn with_root(local_path: String, files: F, root_id: String, now: Timespec) -> (fs: MarkFS<
        F,
    >)
        ensures
            fs.wf(),
            fs@ == MarkFSView::<F::Handle>::initial(local_path@, root_id@, now),
            fs.storage() == files,
    {
        let fs = MarkFS {
            local_path,
            metadata: Metadata::new(root_id, now),
            runner: ActionRunner::new(false),
            open_fh: HandleTable::new(),
            files: Storage::new(files),
        };
        fs
    }

    /// A filesystem on an empty tree, whose root gets a fresh identity and
    /// the time of day.
    pub fn new(local_path: String, files: F) -> (fs: MarkFS<F>)
        ensures
            fs.wf(),
            fs.storage() == files,
            exists|root_id: Seq<char>, now: Timespec|
                is_identity_text(root_id) && is_moment(now) && fs@ == #[trigger] MarkFSView::<
                    F::Handle,
                >::initial(local_path@, root_id, now),
    {
        let root_id = fresh_id();
        let now = system_time();
        Self::with_root(local_path, files, root_id, now)
    }

    /// A filesystem on metadata and a journal that were kept elsewhere, with
    /// no file open. `None` where the runner is one of replays: a filesystem
    /// runs its actions fresh.
    pub fn from_parts(
        local_path: String,
        files: F,
        metadata: Metadata,
        runner: ActionRunner,
    ) -> (fs: Option<MarkFS<F>>)
        requires
            metadata.wf(),
        ensures
            match fs {
                Some(fs) => {
                    &&& !runner@.replay
                    &&& fs.wf()
                    &&& fs.storage() == files
                    &&& fs@ == (MarkFSView::<F::Handle> {
                        local_path: local_path@,
                        table: metadata@,
                        runner: runner@,
                        handles: HandlesView::initial(),
                        calls: Seq::empty(),
                    })
                },
                None => runner@.replay,
            },
    {
        if runner.is_replay() {
            return None;
        }
        let fs = MarkFS {
            local_path,
            metadata,
            runner,
            open_fh: HandleTable::new(),
            files: Storage::new(files),
        };
        Some(fs)
    }

    /// Runs `action` through the runner: the way of every structural
    /// mutation, also of those that no protocol operation asks for. Backing
    /// storage is not touched.
    pub fn apply<A: Action>(&mut self, action: &A) -> (done: Result<(), ActionError>)
        requires
            old(self).wf(),
        ensures
            final(self).wf(),
            final(self)@.local_path == old(self)@.local_path,
            final(self)@.handles == old(self)@.handles,
            final(self).storage() == old(self).storage(),
            final(self)@.calls == old(self)@.calls,
            final(self)@.table == action.applied(old(self)@.table, false),
            final(self)@.runner == old(self)@.runner.logged(
                action.name(),
                encoding(action.record()),
                action.error(old(self)@.table, false),
            ),
            decoding(encoding(action.record())) == Some(action.record()),
            match done {
                Ok(()) => action.error(old(self)@.table, false) is None,
                Err(e) => action.error(old(self)@.table, false) == Some(e.kind()),
            },
    {
        self.runner.run(&mut self.metadata, action)
    }

    /// Takes back a request that was written down and will not be applied:
    /// where entry `at` is the last of the journal and not complete, it
    /// leaves the journal, and the answer is `true`. Any other entry stays,
    /// and the answer is `false`. Nothing else changes.
    pub fn withdraw(&mut self, at: usize) -> (withdrawn: bool)
        requires
            old(self).wf(),
        ensures
            final(self).wf(),
            final(self).storage() == old(self).storage(),
            withdrawn == (at + 1 == old(self)@.runner.journal.len()
                && !old(self)@.runner.journal[at as int].complete),
            final(self)@ == old(self)@.with_runner(
                RunnerView {
                    replay: old(self)@.runner.replay,
                    journal: if withdrawn {
                        old(self)@.runner.journal.drop_last()
                    } else {
                        old(self)@.runner.journal
                    },
                },
            ),
    {
        self.runner.withdraw(at)
    }

    /// Drops the entries of the journal that are complete.
    pub fn truncate_journal(&mut self)
        requires
            old(self).wf(),
        ensures
            final(self).wf(),
            final(self)@.local_path == old(self)@.local_path,
            final(self)@.table == old(self)@.table,
            final(self)@.handles == old(self)@.handles,
            final(self).storage() == old(self).storage(),
            final(self)@.calls == old(self)@.calls,
            final(self)@.runner.replay == old(self)@.runner.replay,
            final(self)@.runner.journal == old(self)@.runner.journal.filter(
                |entry: EntryView| !entry.complete,
            ),
    {
        self.runner.truncate();
    }

    /// The metadata.
    pub fn metadata(&self) -> (metadata: &Metadata)
        ensures
            metadata@ == self@.table,
    {
        &self.metadata
    }

    /// The runner of actions, with its journal.
    pub fn runner(&self) -> (runner: &ActionRunner)
        ensures
            runner@ == self@.runner,
    {
        &self.runner
    }

    /// The table of open files.
    pub fn open_files(&self) -> (handles: &HandleTable<F::Handle>)
        ensures
            handles@ == self@.handles,
    {
        &self.open_fh
    }

    /// The backing storage: what was handed over when the filesystem was
    /// made, as the requests that reached it since have left it.
    pub fn files(&self) -> (files: &F)
        ensures
            *files == self.storage(),
    {
        self.files.files()
    }

    pub fn inode_kind_to_file_type(&self, kind: &INodeKind) -> (file_type: FileType)
        ensures
            file_type == type_of(*kind),
    {
        match *kind {
            INodeKind::Directory => FileType::Directory,
            INodeKind::RegularFile => FileType::RegularFile,
        }
    }

    /// The attributes that `inode` reports: what it holds, and fixed
    /// ownership and permissions.
    pub fn inode_to_fileattr(&self, inode: INode) -> (attr: FileAttr)
        ensures
            attr == attr_of(inode@),
    {
        FileAttr {
            ino: inode.ino,
            size: inode.size,
            blocks: 0,
            atime: inode.atime,
            mtime: inode.mtime,
            ctime: inode.ctime,
            crtime: inode.crtime,
            kind: self.inode_kind_to_file_type(&inode.kind),
            perm: PERMISSIONS,
            nlink: inode.nlink,
            uid: OWNER,
            gid: GROUP,
            rdev: 0,
            flags: 0,
        }
    }

    /// The answer that names `inode`, good for the fixed time to live.
    fn entry(&self, inode: INode) -> (entry: Entry)
        ensures
            entry == entry_of(inode@),
    {
        Entry {
            ttl: Timespec { sec: TTL_SECONDS, nsec: 0 },
            attr: self.inode_to_fileattr(inode),
            generation: 0,
        }
    }

    /// The path in backing storage of `inode`: the backing root, then the
    /// names from the root's child down to the inode. `None` where the table
    /// holds no inode with its identity.
    pub fn get_path(&self, inode: &INode) -> (path: Option<Vec<String>>)
        requires
            self.wf(),
        ensures
            match path {
                Some(segments) => self@.table.has_id(inode@.row.id) && texts(segments@)
                    == backing_path(self@.local_path, self@.table, inode@.row.id),
                None => !self@.table.has_id(inode@.row.id),
            },
    {
        match self.metadata.path_names(&inode.id) {
            Some(mut names) => {
                let ghost below = names@;
                names.insert(0, self.local_path.clone());
                proof {
                    assert(texts(names@) =~= seq![self@.local_path] + texts(below));
                }
                Some(names)
            },
            None => None,
        }
    }

    /// The path of the object that holds the content of `inode`: its path,
    /// and for a regular file then the number of its current version.
    pub fn resolve_path(&self, inode: &INode) -> (path: Option<Vec<String>>)
        requires
            self.wf(),
        ensures
            match path {
                Some(segments) => self@.table.has_id(inode@.row.id) && texts(segments@)
                    == object_path(self@.local_path, self@.table, inode@),
                None => !self@.table.has_id(inode@.row.id),
            },
    {
        match self.get_path(inode) {
            Some(mut segments) => {
                if inode.kind.is_regular_file() {
                    let ghost stem = segments@;
                    segments.push(decimal_text(inode.current_version));
                    proof {
                        assert(texts(segments@) =~= texts(stem).push(
                            decimal(inode.current_version as nat),
                        ));
                    }
                }
                Some(segments)
            },
            None => None,
        }
    }

    /// Looks the entry `name` up under the directory numbered `parent`.
    pub fn lookup(&self, parent: u64, name: &[u8]) -> (reply: Result<Entry, ActionError>)
        requires
            self.wf(),
        ensures
            answered(reply) == lookup_reply(self@.table, parent, name@),
    {
        let parent_inode = match self.metadata.get_by_ino(parent) {
            Some(inode) => inode,
            None => {
                return Err(ActionError::NoEntry);
            },
        };
        let name_string = match text_of_bytes(name) {
            Some(text) => text,
            None => {
                return Err(ActionError::NoEntry);
            },
        };
        match self.metadata.lookup(&parent_inode.id, &name_string) {
            Some(inode) => Ok(self.entry(inode)),
            None => Err(ActionError::NoEntry),
        }
    }

    /// The attributes of the inode numbered `ino`.
    pub fn getattr(&self, ino: u64) -> (reply: Result<Attr, ActionError>)
        requires
            self.wf(),
        ensures
            answered(reply) == getattr_reply(self@.table, ino),
    {
        match self.metadata.get_by_ino(ino) {
            Some(inode) => Ok(
                Attr {
                    ttl: Timespec { sec: TTL_SECONDS, nsec: 0 },
                    attr: self.inode_to_fileattr(inode),
                },
            ),
            None => Err(ActionError::NoEntry),
        }
    }

    /// Lists the directory numbered `ino` from `offset` on.
    pub fn readdir(&self, ino: u64, fh: u64, offset: i64) -> (reply: Result<
        Vec<DirEntry>,
        ActionError,
    >)
        requires
            self.wf(),
        ensures
            match reply {
                Ok(entries) => readdir_reply(self@.table, ino, offset) == Ok::<
                    Seq<DirEntryView>,
                    ErrorKind,
                >(listed(entries@)),
                Err(e) => readdir_reply(self@.table, ino, offset) == Err::<
                    Seq<DirEntryView>,
                    ErrorKind,
                >(e.kind()),
            },
    {
        let inode = match self.metadata.get_by_ino(ino) {
            Some(inode) => inode,
            None => {
                return Err(ActionError::NoEntry);
            },
        };
        if !inode.kind.is_directory() {
            return Err(ActionError::NotADirectory);
        }
        let mut entries: Vec<DirEntry> = Vec::new();
        if offset != 0 {
            proof {
                assert(listed(entries@) =~= Seq::<DirEntryView>::empty());
            }
            return Ok(entries);
        }
        let parent = match self.metadata.get_by_id(&inode.parent) {
            Some(parent) => parent,
            None => {
                proof {
                    self@.table.lemma_parent_exists(ino);
                }
                vstd::pervasive::unreached()
            },
        };
        entries.push(
            DirEntry { ino: inode.ino, offset: 0, kind: FileType::Directory, name: ".".to_owned() },
        );
        entries.push(
            DirEntry {
                ino: parent.ino,
                offset: 1,
                kind: FileType::Directory,
                name: "..".to_owned(),
            },
        );
        let children = self.metadata.get_children(&inode.id);
        let ghost table = self@.table;
        let ghost expected = listing(table, inode@);
        proof {
            table.lemma_children_len(inode@.row.id);
        }
        let mut index: usize = 0;
        while index < children.len()
            invariant
                index <= children.len(),
                table.wf(),
                table == self@.table,
                views(children@) == table.children(inode@.row.id),
                children@.len() < table.next_ino,
                expected == listing(table, inode@),
                entries@.len() == index + 2,
                forall|k: int| 0 <= k < index + 2 ==> (#[trigger] entries@[k])@ == expected[k],
            decreases children.len() - index,
        {
            let child = &children[index];
            proof {
                assert(views(children@)[index as int] == child@);
            }
            entries.push(
                DirEntry {
                    ino: child.ino,
                    offset: index as u64 + 2,
                    kind: self.inode_kind_to_file_type(&child.kind),
                    name: child.name.clone(),
                },
            );
            index += 1;
        }
        proof {
            assert(listed(entries@) =~= expected);
        }
        Ok(entries)
    }

    /// The answer to the creation of a directory whose inode is `created`,
    /// given what backing storage said to the making of the directory.
    pub fn mkdir_reply(&self, created: INode, made: Result<(), ()>) -> (reply: Result<
        Entry,
        ActionError,
    >)
        ensures
            answered(reply) == made_reply(created@, made),
    {
        match made {
            Ok(()) => Ok(self.entry(created)),
            Err(()) => Err(ActionError::NotImplemented),
        }
    }

    /// The answer to a move, given what backing storage said to the move of
    /// the object.
    pub fn rename_reply(&self, moved: Result<(), ()>) -> (reply: Result<(), ActionError>)
        ensures
            answered(reply) == moved_reply(moved),
    {
        match moved {
            Ok(()) => Ok(()),
            Err(()) => Err(ActionError::NotImplemented),
        }
    }

    /// Writes down the creation of the directory `name` under the directory
    /// numbered `parent`, under the identity `id` and at the time `now`: the
    /// first of the two steps of `mkdir_as`. Nothing is applied yet.
    ///
    /// It is refused with `NoEntry` where the parent does not exist or the
    /// name is no text; nothing changes then. Otherwise the action is the
    /// last entry of the journal, not complete, and comes back with its
    /// place; what the entry holds decodes to the description of the action.
    pub fn mkdir_log(
        &mut self,
        parent: u64,
        name: &[u8],
        id: String,
        now: Timespec,
    ) -> (logged: Result<Logged<CreateDir>, ActionError>)
        requires
            old(self).wf(),
        ensures
            final(self).wf(),
            final(self).storage() == old(self).storage(),
            match mkdir_plan(old(self)@.table, parent, name@) {
                Err(kind) => logged matches Err(e) && e.kind() == kind && final(self)@
                    == old(self)@,
                Ok((dir, text)) => {
                    let record = CreateDir::record_of(dir, text, id@, now);
                    &&& logged matches Ok(l) && l.action.parent@ == dir && l.action.name@ == text
                        && l.action.id@ == id@ && l.action.now == now && l.at
                        == old(self)@.runner.journal.len()
                    &&& final(self)@ == old(self)@.with_runner(
                        old(self)@.runner.pending("mkdir"@, encoding(record)),
                    )
                    &&& decoding(encoding(record)) == Some(record)
                },
            },
    {
        let parent_inode = match self.metadata.get_by_ino(parent) {
            Some(inode) => inode,
            None => {
                return Err(ActionError::NoEntry);
            },
        };
        let name_string = match text_of_bytes(name) {
            Some(text) => text,
            None => {
                return Err(ActionError::NoEntry);
            },
        };
        let action = CreateDir { parent: parent_inode.id, name: name_string, id, now };
        let at = self.runner.log(&action);
        Ok(Logged { action, at })
    }

    /// Applies a creation that was written down: the second of the two
    /// steps of `mkdir_as`. The action is applied and its entry settled;
    /// where it succeeds, backing storage is asked to make the directory at
    /// the path of the new inode, and the answer is the new entry, or
    /// `NotImplemented` where storage failed.
    pub fn mkdir_apply(&mut self, logged: &Logged<CreateDir>) -> (reply: Result<Entry, ActionError>)
        requires
            old(self).wf(),
        ensures
            final(self).wf(),
            old(self)@.mkdir_applied(
                final(self)@,
                logged.action.parent@,
                logged.action.name@,
                logged.action.id@,
                logged.action.now,
                logged.at as int,
                answered(reply),
            ),
            final(self)@.calls == old(self)@.calls ==> final(self).storage()
                == old(self).storage(),
    {
        let action = &logged.action;
        match self.runner.apply_logged(&mut self.metadata, action, logged.at) {
            Ok(()) => {},
            Err(e) => {
                return Err(e);
            },
        }
        proof {
            old(self)@.table.lemma_created_dir(
                action.parent@,
                action.name@,
                action.id@,
                action.now,
            );
        }
        let inode = match self.metadata.get_by_id(&action.id) {
            Some(inode) => inode,
            None => vstd::pervasive::unreached(),
        };
        let path = match self.get_path(&inode) {
            Some(path) => path,
            None => vstd::pervasive::unreached(),
        };
        let made = self.files.create_dir(&path);
        let reply = self.mkdir_reply(inode, made);
        proof {
            let created = INodeView {
                row: old(self)@.table.dir_row(
                    action.parent@,
                    action.name@,
                    action.id@,
                    action.now,
                ),
                size: 0,
            };
            assert(answered(reply) == made_reply(created, made));
            assert(self@.calls.len() == old(self)@.calls.len() + 1);
        }
        reply
    }

    /// Creates the directory `name` under the directory numbered `parent`,
    /// under the identity `id` and at the time `now`.
    ///
    /// The creation runs as an action through the runner, which writes it to
    /// the journal first. Where the action is refused, its error is the
    /// answer, and the inode table stays as it was. Where it succeeds,
    /// backing storage is asked to make the directory at the path of the new
    /// inode: the answer is then the new entry, or `NotImplemented` where
    /// storage failed, and the inode stays in the table either way.
    pub fn mkdir_as(
        &mut self,
        parent: u64,
        name: &[u8],
        id: String,
        now: Timespec,
    ) -> (reply: Result<Entry, ActionError>)
        requires
            old(self).wf(),
        ensures
            final(self).wf(),
            old(self)@.mkdir_done(final(self)@, parent, name@, id@, now, answered(reply)),
            !mkdir_reaches_storage(old(self)@.table, parent, name@, id@, now)
                ==> final(self).storage() == old(self).storage(),
    {
        let logged = match self.mkdir_log(parent, name, id, now) {
            Ok(logged) => logged,
            Err(e) => {
                return Err(e);
            },
        };
        let ghost written = self@;
        let reply = self.mkdir_apply(&logged);
        proof {
            let before = old(self)@;
            let plan = mkdir_plan(before.table, parent, name@)->Ok_0;
            let bytes = encoding(CreateDir::record_of(plan.0, plan.1, id@, now));
            let error = before.table.insert_error(plan.0, plan.1, id@);
            assert(written.runner.settled(logged.at as int, error).journal
                =~= before.runner.logged("mkdir"@, bytes, error).journal);
        }
        reply
    }

    /// Creates the directory `name` under the directory numbered `parent`,
    /// under a fresh identity and at the time of day.
    pub fn mkdir(&mut self, parent: u64, name: &[u8], mode: u32) -> (reply: Result<
        Entry,
        ActionError,
    >)
        requires
            old(self).wf(),
        ensures
            final(self).wf(),
            exists|id: Seq<char>, now: Timespec|
                {
                    &&& is_identity_text(id)
                    &&& is_moment(now)
                    &&& #[trigger] old(self)@.mkdir_done(
                        final(self)@,
                        parent,
                        name@,
                        id,
                        now,
                        answered(reply),
                    )
                    &&& !mkdir_reaches_storage(old(self)@.table, parent, name@, id, now)
                        ==> final(self).storage() == old(self).storage()
                },
    {
        let id = fresh_id();
        let now = system_time();
        let reply = self.mkdir_as(parent, name, id, now);
        proof {
            assert(old(self)@.mkdir_done(final(self)@, parent, name@, id@, now, answered(reply)));
        }
        reply
    }

    /// Writes down the move of the entry `name` of the directory numbered
    /// `parent` to the entry `new_name` of the directory numbered
    /// `new_parent`, at the time `now`: the first of the two steps of
    /// `rename_at`. Nothing is applied yet.
    ///
    /// It is refused as the plan of the move says; nothing changes then.
    /// Otherwise the action is the last entry of the journal, not complete,
    /// and comes back with its place; what the entry holds decodes to the
    /// description of the action.
    pub fn rename_log(
        &mut self,
        parent: u64,
        name: &[u8],
        new_parent: u64,
        new_name: &[u8],
        now: Timespec,
    ) -> (logged: Result<Logged<Rename>, ActionError>)
        requires
            old(self).wf(),
        ensures
            final(self).wf(),
            final(self).storage() == old(self).storage(),
            match rename_plan(old(self)@.table, parent, name@, new_parent, new_name@) {
                Err(kind) => logged matches Err(e) && e.kind() == kind && final(self)@
                    == old(self)@,
                Ok((id, to, text)) => {
                    let record = Rename::record_of(id, to, text, now);
                    &&& logged matches Ok(l) && l.action.id@ == id && l.action.new_parent@ == to
                        && l.action.new_name@ == text && l.action.now == now && l.at
                        == old(self)@.runner.journal.len()
                    &&& final(self)@ == old(self)@.with_runner(
                        old(self)@.runner.pending("rename"@, encoding(record)),
                    )
                    &&& decoding(encoding(record)) == Some(record)
                },
            },
    {
        let parent_inode = match self.metadata.get_by_ino(parent) {
            Some(inode) => inode,
            None => {
                return Err(ActionError::NoEntry);
            },
        };
        let new_parent_inode = match self.metadata.get_by_ino(new_parent) {
            Some(inode) => inode,
            None => {
                return Err(ActionError::NoEntry);
            },
        };
        let name_string = match text_of_bytes(name) {
            Some(text) => text,
            None => {
                return Err(ActionError::NoEntry);
            },
        };
        let new_name_string = match text_of_bytes(new_name) {
            Some(text) => text,
            None => {
                return Err(ActionError::NotImplemented);
            },
        };
        let old_inode = match self.metadata.lookup(&parent_inode.id, &name_string) {
            Some(inode) => inode,
            None => {
                return Err(ActionError::NoEntry);
            },
        };
        let action = Rename {
            id: old_inode.id,
            new_parent: new_parent_inode.id,
            new_name: new_name_string,
            now,
        };
        let at = self.runner.log(&action);
        Ok(Logged { action, at })
    }

    /// Applies a move that was written down: the second of the two steps of
    /// `rename_at`. The action is applied and its entry settled; where it
    /// succeeds, backing storage is asked to move the object from the path
    /// that the inode had before the change to the one it has after it, and
    /// the answer is success, or `NotImplemented` where storage failed.
    pub fn rename_apply(&mut self, logged: &Logged<Rename>) -> (reply: Result<(), ActionError>)
        requires
            old(self).wf(),
        ensures
            final(self).wf(),
            old(self)@.rename_applied(
                final(self)@,
                logged.action.id@,
                logged.action.new_parent@,
                logged.action.new_name@,
                logged.action.now,
                logged.at as int,
                answered(reply),
            ),
            final(self)@.calls == old(self)@.calls ==> final(self).storage()
                == old(self).storage(),
    {
        let action = &logged.action;
        let path_old = match self.metadata.get_by_id(&action.id) {
            Some(inode) => self.get_path(&inode),
            None => None,
        };
        match self.runner.apply_logged(&mut self.metadata, action, logged.at) {
            Ok(()) => {},
            Err(e) => {
                return Err(e);
            },
        }
        proof {
            let before = old(self)@.table;
            before.lemma_renamed_wf(
                action.id@,
                action.new_parent@,
                action.new_name@,
                action.now,
            );
            let at = before.index_of_id(action.id@);
            assert(before.id_at(action.id@, at));
            assert(self@.table.id_at(action.id@, at));
        }
        let path_old = match path_old {
            Some(path) => path,
            None => vstd::pervasive::unreached(),
        };
        let new_inode = match self.metadata.get_by_id(&action.id) {
            Some(inode) => inode,
            None => vstd::pervasive::unreached(),
        };
        let path_new = match self.get_path(&new_inode) {
            Some(path) => path,
            None => vstd::pervasive::unreached(),
        };
        let moved = self.files.rename(&path_old, &path_new);
        proof {
            assert(self@.calls.len() == old(self)@.calls.len() + 1);
        }
        self.rename_reply(moved)
    }

    /// Moves the entry `name` of the directory numbered `parent` to the
    /// entry `new_name` of the directory numbered `new_parent`, at the time
    /// `now`.
    ///
    /// The move runs as an action through the runner, which writes it to the
    /// journal first. Where the action is refused, its error is the answer,
    /// and the inode table stays as it was. Where it succeeds, backing
    /// storage is asked to move the object from the path that the inode had
    /// before the change to the one it has after it; a regular file's object
    /// is the directory of its versions. The answer is then success, or
    /// `NotImplemented` where storage failed.
    pub fn rename_at(
        &mut self,
        parent: u64,
        name: &[u8],
        new_parent: u64,
        new_name: &[u8],
        now: Timespec,
    ) -> (reply: Result<(), ActionError>)
        requires
            old(self).wf(),
        ensures
            final(self).wf(),
            old(self)@.rename_done(
                final(self)@,
                parent,
                name@,
                new_parent,
                new_name@,
                now,
                answered(reply),
            ),
            !rename_reaches_storage(
                old(self)@.table,
                parent,
                name@,
                new_parent,
                new_name@,
                now,
            ) ==> final(self).storage() == old(self).storage(),
    {
        let logged = match self.rename_log(parent, name, new_parent, new_name, now) {
            Ok(logged) => logged,
            Err(e) => {
                return Err(e);
            },
        };
        let ghost written = self@;
        let reply = self.rename_apply(&logged);
        proof {
            let before = old(self)@;
            let plan = rename_plan(before.table, parent, name@, new_parent, new_name@)->Ok_0;
            let bytes = encoding(Rename::record_of(plan.0, plan.1, plan.2, now));
            let error = before.table.rename_error(plan.0, plan.1, plan.2);
            assert(written.runner.settled(logged.at as int, error).journal
                =~= before.runner.logged("rename"@, bytes, error).journal);
        }
        reply
    }

    /// Moves the entry `name` of the directory numbered `parent` to the
    /// entry `new_name` of the directory numbered `new_parent`, at the time
    /// of day.
    pub fn rename(
        &mut self,
        parent: u64,
        name: &[u8],
        new_parent: u64,
        new_name: &[u8],
    ) -> (reply: Result<(), ActionError>)
        requires
            old(self).wf(),
        ensures
            final(self).wf(),
            exists|now: Timespec|
                {
                    &&& is_moment(now)
                    &&& #[trigger] old(self)@.rename_done(
                        final(self)@,
                        parent,
                        name@,
                        new_parent,
                        new_name@,
                        now,
                        answered(reply),
                    )
                    &&& !rename_reaches_storage(
                        old(self)@.table,
                        parent,
                        name@,
                        new_parent,
                        new_name@,
                        now,
                    ) ==> final(self).storage() == old(self).storage()
                },
    {
        let now = system_time();
        let reply = self.rename_at(parent, name, new_parent, new_name, now);
        proof {
            assert(old(self)@.rename_done(
                final(self)@,
                parent,
                name@,
                new_parent,
                new_name@,
                now,
                answered(reply),
            ));
        }
        reply
    }

    /// Takes what backing storage answered to an open into the table of open
    /// files, and makes the answer to the open of it.
    pub fn open_reply(&mut self, handle: Result<F::Handle, ()>, flags: u32) -> (reply: Result<
        Opened,
        ActionError,
    >)
        requires
            old(self).wf(),
        ensures
            final(self).wf(),
            final(self)@.local_path == old(self)@.local_path,
            final(self)@.table == old(self)@.table,
            final(self)@.runner == old(self)@.runner,
            final(self).storage() == old(self).storage(),
            final(self)@.calls == old(self)@.calls,
            open_done(old(self)@.handles, final(self)@.handles, handle, flags, answered(reply)),
    {
        if self.open_fh.last_fh() == u64::MAX {
            return Err(ActionError::NoSpaceLeftOnDevice);
        }
        match handle {
            Ok(file) => match self.open_fh.insert(file) {
                Ok(fh) => Ok(Opened { fh, flags }),
                Err(e) => Err(e),
            },
            Err(_) => Err(ActionError::NotImplemented),
        }
    }

    /// Opens the regular file numbered `ino` for reading: asks backing
    /// storage for the object of its current version and takes what it hands
    /// out into the table of open files, under a new identifier.
    ///
    /// It is refused with `NoEntry` where there is no such inode, with
    /// `NotImplemented` where the inode is no regular file, and with
    /// `NoSpaceLeftOnDevice` where the identifiers are used up; storage is
    /// not asked then. Otherwise storage is asked once, for the object of the
    /// file's current version with the flags as they came, and the answer is
    /// the new identifier, or `NotImplemented` where storage failed. A
    /// refusal leaves the table of open files as it was.
    pub fn open(&mut self, ino: u64, flags: u32) -> (reply: Result<Opened, ActionError>)
        requires
            old(self).wf(),
        ensures
            final(self).wf(),
            final(self)@.local_path == old(self)@.local_path,
            final(self)@.table == old(self)@.table,
            final(self)@.runner == old(self)@.runner,
            !open_reaches_storage(old(self)@.table, old(self)@.handles.last_fh, ino)
                ==> final(self).storage() == old(self).storage(),
            match old(self)@.table.by_ino(ino) {
                None => answered(reply) == Err::<Opened, ErrorKind>(ErrorKind::NoEntry)
                    && final(self)@ == old(self)@,
                Some(inode) => if inode.row.kind != INodeKind::RegularFile {
                    answered(reply) == Err::<Opened, ErrorKind>(ErrorKind::NotImplemented)
                        && final(self)@ == old(self)@
                } else if old(self)@.handles.last_fh == u64::MAX {
                    answered(reply) == Err::<Opened, ErrorKind>(
                        ErrorKind::NoSpaceLeftOnDevice,
                    ) && final(self)@ == old(self)@
                } else {
                    exists|handle: Result<F::Handle, ()>|
                        {
                            &&& #[trigger] open_done(
                                old(self)@.handles,
                                final(self)@.handles,
                                handle,
                                flags,
                                answered(reply),
                            )
                            &&& final(self)@.calls == old(self)@.calls.push(
                                StorageCall::Open {
                                    path: object_path(
                                        old(self)@.local_path,
                                        old(self)@.table,
                                        inode,
                                    ),
                                    flags,
                                    opened: handle is Ok,
                                },
                            )
                        }
                },
            },
    {
        let inode = match self.metadata.get_by_ino(ino) {
            Some(inode) => inode,
            None => {
                return Err(ActionError::NoEntry);
            },
        };
        if !inode.kind.is_regular_file() {
            return Err(ActionError::NotImplemented);
        }
        if self.open_fh.last_fh() == u64::MAX {
            return Err(ActionError::NoSpaceLeftOnDevice);
        }
        proof {
            let table = self@.table;
            let at = table.index_of_ino(ino);
            assert(table.ino_at(ino, at));
            assert(table.id_at(inode.id@, at));
        }
        let path = match self.resolve_path(&inode) {
            Some(path) => path,
            None => vstd::pervasive::unreached(),
        };
        let handle = self.files.open(&path, flags);
        let reply = self.open_reply(handle, flags);
        proof {
            assert(open_done(
                old(self)@.handles,
                self@.handles,
                handle,
                flags,
                answered(reply),
            ));
        }
        reply
    }

    /// Closes the open file that `fh` names. An identifier that is not open
    /// is refused with `NoEntry`. Afterwards `fh` names no open file, and no
    /// later open hands it out again.
    pub fn release(
        &mut self,
        ino: u64,
        fh: u64,
        flags: u32,
        lock_owner: u64,
        flush: bool,
    ) -> (reply: Result<(), ActionError>)
        requires
            old(self).wf(),
        ensures
            final(self).wf(),
            final(self)@.local_path == old(self)@.local_path,
            final(self)@.table == old(self)@.table,
            final(self)@.runner == old(self)@.runner,
            final(self).storage() == old(self).storage(),
            final(self)@.calls == old(self)@.calls,
            !final(self)@.handles.is_open(fh),
            if old(self)@.handles.is_open(fh) {
                &&& reply is Ok
                &&& final(self)@.handles == old(self)@.handles.released(fh)
            } else {
                &&& answered(reply) == Err::<(), ErrorKind>(ErrorKind::NoEntry)
                &&& final(self)@.handles == old(self)@.handles
            },
    {
        match self.open_fh.release(fh) {
            Ok(_) => Ok(()),
            Err(e) => Err(e),
        }
    }

    /// Reads up to `size` bytes from `offset` on through the open file that
    /// `fh` names: the read is handed on to the backing file once, as it
    /// came, and the answer is what the file handed out, cut off after
    /// `size` bytes. At the end of the file the answer is shorter than what
    /// was asked for, which is no error.
    ///
    /// It is refused with `NotImplemented` where `fh` names no open file or
    /// the offset is negative, and the file is not asked then; it is also
    /// `NotImplemented` where the backing file fails the read.
    pub fn read(&mut self, ino: u64, fh: u64, offset: i64, size: u32) -> (reply: Result<
        Vec<u8>,
        ActionError,
    >)
        requires
            old(self).wf(),
        ensures
            final(self).wf(),
            final(self)@.local_path == old(self)@.local_path,
            final(self)@.table == old(self)@.table,
            final(self)@.runner == old(self)@.runner,
            final(self).storage() == old(self).storage(),
            final(self)@.calls == old(self)@.calls,
            if old(self)@.handles.is_open(fh) && offset >= 0 {
                exists|answer: Result<Seq<u8>, ()>|
                    {
                        &&& #[trigger] old(self)@.handles.read_through(
                            final(self)@.handles,
                            fh,
                            offset as u64,
                            size,
                            answer,
                        )
                        &&& read_out(reply) == read_reply(answer, size)
                    }
            } else {
                &&& read_out(reply) == Err::<Seq<u8>, ErrorKind>(ErrorKind::NotImplemented)
                &&& final(self)@ == old(self)@
            },
    {
        if offset < 0 {
            return Err(ActionError::NotImplemented);
        }
        let reply = self.open_fh.read(fh, offset as u64, size);
        proof {
            if old(self)@.handles.is_open(fh) {
                let answer = choose|answer: Result<Seq<u8>, ()>|
                    {
                        &&& #[trigger] old(self)@.handles.read_through(
                            self@.handles,
                            fh,
                            offset as u64,
                            size,
                            answer,
                        )
                        &&& read_out(reply) == read_reply(answer, size)
                    };
                assert(old(self)@.handles.read_through(
                    self@.handles,
                    fh,
                    offset as u64,
                    size,
                    answer,
                ));
            }
        }
        reply
    }
}

} // verus!
