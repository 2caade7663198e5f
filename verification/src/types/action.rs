//! Structural mutations as actions: what every action offers, the errors
//! it can end in, and their codes on the protocol side.

use vstd::prelude::*;
use crate::codec::ActionRecord;
use crate::codec::RecordView;
use crate::metadata::Metadata;
use crate::metadata::model::TableView;

verus! {

/// Why a mutation, or a protocol operation, was refused.
#[derive(Debug)]
pub enum ActionError {
    /// A structural conflict; the text says which.
    Conflict(String),
    NoEntry,
    FileExists,
    NotADirectory,
    IsADirectory,
    NoSpaceLeftOnDevice,
    NotImplemented,
}

/// An `ActionError` without its text: what contracts speak of.
#[derive(Debug, Clone, Copy, PartialEq, Eq, Structural)]
pub enum ErrorKind {
    Conflict,
    NoEntry,
    FileExists,
    NotADirectory,
    IsADirectory,
    NoSpaceLeftOnDevice,
    NotImplemented,
}

/// The error numbers of one platform, one for each code family.
#[derive(Debug, Clone, Copy, PartialEq, Eq, Structural)]
pub struct ErrnoTable {
    pub no_entry: i32,
    pub file_exists: i32,
    pub not_a_directory: i32,
    pub is_a_directory: i32,
    pub no_space: i32,
    pub not_implemented: i32,
}

impl ErrorKind {
    /// The number that `table` gives this kind. A conflict is reported as a
    /// missing entry, the conservative reading on the protocol side.
    pub open spec fn errno_in(self, table: ErrnoTable) -> i32 {
        match self {
            ErrorKind::Conflict => table.no_entry,
            ErrorKind::NoEntry => table.no_entry,
            ErrorKind::FileExists => table.file_exists,
            ErrorKind::NotADirectory => table.not_a_directory,
            ErrorKind::IsADirectory => table.is_a_directory,
            ErrorKind::NoSpaceLeftOnDevice => table.no_space,
            ErrorKind::NotImplemented => table.not_implemented,
        }
    }
}

impl ErrnoTable {
    /// No number of the table is 0, the number that the protocol reads as
    /// success.
    pub open spec fn names_errors(self) -> bool {
        &&& self.no_entry != 0
        &&& self.file_exists != 0
        &&& self.not_a_directory != 0
        &&& self.is_a_directory != 0
        &&& self.no_space != 0
        &&& self.not_implemented != 0
    }

    /// No two of the six numbers are the same.
    pub open spec fn distinct(self) -> bool {
        &&& self.no_entry != self.file_exists
        &&& self.no_entry != self.not_a_directory
        &&& self.no_entry != self.is_a_directory
        &&& self.no_entry != self.no_space
        &&& self.no_entry != self.not_implemented
        &&& self.file_exists != self.not_a_directory
        &&& self.file_exists != self.is_a_directory
        &&& self.file_exists != self.no_space
        &&& self.file_exists != self.not_implemented
        &&& self.not_a_directory != self.is_a_directory
        &&& self.not_a_directory != self.no_space
        &&& self.not_a_directory != self.not_implemented
        &&& self.is_a_directory != self.no_space
        &&& self.is_a_directory != self.not_implemented
        &&& self.no_space != self.not_implemented
    }
}

impl ErrorKind {
    /// Whether two kinds are reported under one number: each kind has a
    /// number of its own, but for a conflict, which is reported as a missing
    /// entry.
    pub open spec fn reported_as(self, other: ErrorKind) -> bool {
        let a = if self == ErrorKind::Conflict {
            ErrorKind::NoEntry
        } else {
            self
        };
        let b = if other == ErrorKind::Conflict {
            ErrorKind::NoEntry
        } else {
            other
        };
        a == b
    }

    /// In a table of distinct numbers, two kinds get one number if and only
    /// if they are reported as one.
    pub proof fn lemma_codes_tell_kinds_apart(self, other: ErrorKind, table: ErrnoTable)
        requires
            table.distinct(),
        ensures
            self.errno_in(table) == other.errno_in(table) <==> self.reported_as(other),
    {
    }
}

/// Reads the six error numbers of the running platform from `libc`:
/// `ENOENT`, `EEXIST`, `ENOTDIR`, `EISDIR`, `ENOSPC` and `ENOSYS`. Their
/// values differ between platforms, so the numbers themselves are not
/// claimed. What is claimed holds on every platform that `libc` knows. Each
/// of its definitions of these six constants gives a number other than 0.
/// And the six differ from each other: every file of `libc` that defines one
/// of the first five defines all five, with five different numbers, and no
/// number that any file gives `ENOSYS` is given to one of the five anywhere.
#[verifier::external_body]
fn platform_errnos() -> (table: ErrnoTable)
    ensures
        table.names_errors(),
        table.distinct(),
{
    ErrnoTable {
        no_entry: libc::ENOENT,
        file_exists: libc::EEXIST,
        not_a_directory: libc::ENOTDIR,
        is_a_directory: libc::EISDIR,
        no_space: libc::ENOSPC,
        not_implemented: libc::ENOSYS,
    }
}

impl Clone for ActionError {
    fn clone(&self) -> (copy: ActionError)
        ensures
            copy.kind() == self.kind(),
            self matches ActionError::Conflict(text) ==> copy matches ActionError::Conflict(
                same,
            ) && same@ == text@,
    {
        match self {
            ActionError::Conflict(text) => ActionError::Conflict(text.clone()),
            ActionError::NoEntry => ActionError::NoEntry,
            ActionError::FileExists => ActionError::FileExists,
            ActionError::NotADirectory => ActionError::NotADirectory,
            ActionError::IsADirectory => ActionError::IsADirectory,
            ActionError::NoSpaceLeftOnDevice => ActionError::NoSpaceLeftOnDevice,
            ActionError::NotImplemented => ActionError::NotImplemented,
        }
    }
}

impl ActionError {
    /// This error without its text.
    pub open spec fn kind(&self) -> ErrorKind {
        match self {
            ActionError::Conflict(_) => ErrorKind::Conflict,
            ActionError::NoEntry => ErrorKind::NoEntry,
            ActionError::FileExists => ErrorKind::FileExists,
            ActionError::NotADirectory => ErrorKind::NotADirectory,
            ActionError::IsADirectory => ErrorKind::IsADirectory,
            ActionError::NoSpaceLeftOnDevice => ErrorKind::NoSpaceLeftOnDevice,
            ActionError::NotImplemented => ErrorKind::NotImplemented,
        }
    }

    /// This error without its text.
    pub fn get_kind(&self) -> (k: ErrorKind)
        ensures
            k == self.kind(),
    {
        match self {
            ActionError::Conflict(_) => ErrorKind::Conflict,
            ActionError::NoEntry => ErrorKind::NoEntry,
            ActionError::FileExists => ErrorKind::FileExists,
            ActionError::NotADirectory => ErrorKind::NotADirectory,
            ActionError::IsADirectory => ErrorKind::IsADirectory,
            ActionError::NoSpaceLeftOnDevice => ErrorKind::NoSpaceLeftOnDevice,
            ActionError::NotImplemented => ErrorKind::NotImplemented,
        }
    }

    /// The protocol error number of this error, looked up in `table`.
    pub fn errno_in(&self, table: &ErrnoTable) -> (code: i32)
        ensures
            code == self.kind().errno_in(*table),
    {
        match self {
            ActionError::Conflict(_) => table.no_entry,
            ActionError::NoEntry => table.no_entry,
            ActionError::FileExists => table.file_exists,
            ActionError::NotADirectory => table.not_a_directory,
            ActionError::IsADirectory => table.is_a_directory,
            ActionError::NoSpaceLeftOnDevice => table.no_space,
            ActionError::NotImplemented => table.not_implemented,
        }
    }

    /// The error numbers of the running platform, to be read once and handed
    /// to `errno_in` for every error that is reported. None of them is 0,
    /// the number that the protocol reads as success, and no two of them are
    /// the same, so that two errors get one number only where they are
    /// reported as one.
    pub fn errno_table() -> (table: ErrnoTable)
        ensures
            table.names_errors(),
            table.distinct(),
    {
        platform_errnos()
    }
}

/// One structural mutation: a description that can be written down before
/// it is applied, and applied again after a crash.
///
/// An action is run fresh, or as a replay of a logged description of which
/// it is not known how far it got. A replay finds out what was applied
/// already and leaves that alone, so that running an action once more as a
/// replay changes nothing.
pub trait Action {
    /// The name of the kind of action.
    spec fn name(&self) -> Seq<char>;

    /// The durable description: everything needed to apply the action
    /// again.
    spec fn record(&self) -> RecordView;

    /// Why the action is refused in the state `before`; `None` where it
    /// succeeds.
    spec fn error(&self, before: TableView, replay: bool) -> Option<ErrorKind>;

    /// The state in which the action leaves `before`.
    spec fn applied(&self, before: TableView, replay: bool) -> TableView;

    /// A refused action leaves the state as it was. A replay leaves the state
    /// that a fresh run leaves: what sets them apart is only that a replay
    /// answers with success where it finds its work done. And an action that
    /// was run, refused or not, is a replay away from nothing: run once more
    /// as a replay it succeeds where it did before, and changes nothing. So
    /// however often a logged action is replayed, and whether or not it was
    /// applied before the replay, the state is that of one fresh run.
    proof fn lemma_replay(&self, before: TableView, replay: bool)
        requires
            before.wf(),
        ensures
            self.applied(before, replay).wf(),
            self.error(before, replay) is Some ==> self.applied(before, replay) == before,
            self.applied(before, true) == self.applied(before, false),
            self.applied(self.applied(before, replay), true) == self.applied(before, replay),
            self.error(before, replay) is None ==> self.error(
                self.applied(before, replay),
                true,
            ) is None,
    ;

    fn get_name(&self) -> (name: &str)
        ensures
            name@ == self.name(),
    ;

    /// Writes the action down.
    fn describe(&self) -> (record: ActionRecord)
        ensures
            record@ == self.record(),
            record@.name == self.name(),
    ;

    /// Applies the action to `store`; as a replay, it skips what is applied
    /// already.
    fn run(&self, store: &mut Metadata, replay: bool) -> (done: Result<(), ActionError>)
        requires
            old(store).wf(),
        ensures
            final(store).wf(),
            final(store)@ == self.applied(old(store)@, replay),
            match done {
                Ok(()) => self.error(old(store)@, replay) is None,
                Err(e) => self.error(old(store)@, replay) == Some(e.kind()),
            },
    ;
}

} // verus!
