//! The runner of actions and its journal.
//!
//! Every action goes through the runner, which writes its description down
//! before it applies it and notes afterwards whether it succeeded. The
//! runner is reached through a unique reference, so that no two actions are
//! ever under way at once.

use vstd::prelude::*;
use crate::actions::lemma_replayed_twice;
use crate::actions::replay;
use crate::actions::replay_error;
use crate::actions::replayed;
use crate::codec::ActionRecord;
use crate::codec::RecordView;
use crate::codec::decoded;
use crate::codec::decoding;
use crate::codec::deserialize;
use crate::codec::encoding;
use crate::codec::serialize;
use crate::metadata::Metadata;
use crate::metadata::model::TableView;
use crate::types::action::Action;
use crate::types::action::ActionError;
use crate::types::action::ErrorKind;

verus! {

/// One line of the journal: the name of an action, the bytes of its
/// description, and whether it is known to have succeeded.
#[derive(Debug)]
pub struct JournalEntry {
    pub name: String,
    pub payload: Vec<u8>,
    pub complete: bool,
}

/// A `JournalEntry` as a mathematical value.
pub struct EntryView {
    pub name: Seq<char>,
    pub payload: Seq<u8>,
    pub complete: bool,
}

impl View for JournalEntry {
    type V = EntryView;

    open spec fn view(&self) -> EntryView {
        EntryView { name: self.name@, payload: self.payload@, complete: self.complete }
    }
}

impl Clone for JournalEntry {
    fn clone(&self) -> (copy: JournalEntry)
        ensures
            copy@ == self@,
    {
        JournalEntry {
            name: self.name.clone(),
            payload: self.payload.clone(),
            complete: self.complete,
        }
    }
}

/// What a list of entries says.
pub open spec fn lines(entries: Seq<JournalEntry>) -> Seq<EntryView> {
    entries.map_values(|entry: JournalEntry| entry@)
}

/// Runs actions one at a time and keeps the journal.
pub struct ActionRunner {
    replay: bool,
    journal: Vec<JournalEntry>,
}

/// The runner as a mathematical value.
pub struct RunnerView {
    pub replay: bool,
    pub journal: Seq<EntryView>,
}

impl RunnerView {
    /// The journal after an action with the given name and description was
    /// written down: its entry is the last, and not complete.
    pub open spec fn pending(self, name: Seq<char>, payload: Seq<u8>) -> RunnerView {
        RunnerView {
            replay: self.replay,
            journal: self.journal.push(EntryView { name, payload, complete: false }),
        }
    }

    /// The journal after the action of entry `at` was applied and ended in
    /// `error`: the entry is complete where the action succeeded.
    pub open spec fn settled(self, at: int, error: Option<ErrorKind>) -> RunnerView {
        RunnerView {
            replay: self.replay,
            journal: self.journal.update(
                at,
                EntryView {
                    name: self.journal[at].name,
                    payload: self.journal[at].payload,
                    complete: self.journal[at].complete || error is None,
                },
            ),
        }
    }

    /// The journal after an action with the given name and description was
    /// run and ended in `error`.
    pub open spec fn logged(
        self,
        name: Seq<char>,
        payload: Seq<u8>,
        error: Option<ErrorKind>,
    ) -> RunnerView {
        RunnerView {
            replay: self.replay,
            journal: self.journal.push(EntryView { name, payload, complete: error is None }),
        }
    }
}

/// Why the replay of a journal entry is refused, given the record that its
/// bytes hold: nothing is wrong with a complete entry, which is left alone;
/// an incomplete one without a record is refused with `NotImplemented`.
pub open spec fn entry_error(
    entry: EntryView,
    record: Option<RecordView>,
    before: TableView,
) -> Option<ErrorKind> {
    if entry.complete {
        None
    } else {
        match record {
            Some(record) => replay_error(record, before),
            None => Some(ErrorKind::NotImplemented),
        }
    }
}

/// The state in which the replay of a journal entry leaves `before`.
pub open spec fn entry_replayed(
    entry: EntryView,
    record: Option<RecordView>,
    before: TableView,
) -> TableView {
    if entry.complete {
        before
    } else {
        match record {
            Some(record) => replayed(record, before),
            None => before,
        }
    }
}

/// A journal entry after its replay: complete where the replay succeeded.
pub open spec fn entry_settled(
    entry: EntryView,
    record: Option<RecordView>,
    before: TableView,
) -> EntryView {
    EntryView {
        name: entry.name,
        payload: entry.payload,
        complete: entry_error(entry, record, before) is None,
    }
}

/// The journal and the state after every entry from `from` on was replayed,
/// oldest first.
pub open spec fn recovered(journal: Seq<EntryView>, before: TableView, from: nat) -> (
    Seq<EntryView>,
    TableView,
)
    decreases journal.len() - from,
{
    if from >= journal.len() {
        (journal, before)
    } else {
        let entry = journal[from as int];
        let record = decoding(entry.payload);
        recovered(
            journal.update(from as int, entry_settled(entry, record, before)),
            entry_replayed(entry, record, before),
            from + 1,
        )
    }
}

impl View for ActionRunner {
    type V = RunnerView;

    closed spec fn view(&self) -> RunnerView {
        RunnerView { replay: self.replay, journal: lines(self.journal@) }
    }
}

impl ActionRunner {
    /// A runner with an empty journal; with `replay`, one that runs its
    /// actions as replays.
    pub fn new(replay: bool) -> (runner: ActionRunner)
        ensures
            runner@.replay == replay,
            runner@.journal == Seq::<EntryView>::empty(),
    {
        let runner = ActionRunner { replay, journal: Vec::new() };
        proof {
            assert(runner@.journal =~= Seq::<EntryView>::empty());
        }
        runner
    }

    /// A runner that takes up a journal that was kept elsewhere.
    pub fn restore(replay: bool, journal: Vec<JournalEntry>) -> (runner: ActionRunner)
        ensures
            runner@.replay == replay,
            runner@.journal == lines(journal@),
    {
        ActionRunner { replay, journal }
    }

    /// Whether this runner runs its actions as replays.
    pub fn is_replay(&self) -> (replay: bool)
        ensures
            replay == self@.replay,
    {
        self.replay
    }

    /// The journal, oldest entry first.
    pub fn journal(&self) -> (entries: Vec<JournalEntry>)
        ensures
            lines(entries@) == self@.journal,
    {
        let mut entries: Vec<JournalEntry> = Vec::new();
        let mut i: usize = 0;
        while i < self.journal.len()
            invariant
                i <= self.journal.len(),
                entries@.len() == i,
                forall|k: int| 0 <= k < i ==> (#[trigger] entries@[k])@ == self.journal@[k]@,
            decreases self.journal.len() - i,
        {
            entries.push(self.journal[i].clone());
            i += 1;
        }
        proof {
            assert(lines(entries@) =~= self@.journal);
        }
        entries
    }

    /// Writes `action` down, given the bytes of its description, or `None`
    /// where it could not be encoded: the first of the two steps of a run.
    ///
    /// The name and the bytes enter the journal as its last entry, which is
    /// not complete, and the place of the entry is the answer. Nothing is
    /// applied yet, so that the journal can be made durable before anything
    /// changes. An action without bytes cannot be written down: it is refused
    /// with `NotImplemented`, and the journal stays as it was.
    pub fn log_encoded<A: Action>(&mut self, action: &A, payload: Option<Vec<u8>>) -> (at: Result<
        usize,
        ActionError,
    >)
        ensures
            match payload {
                Some(bytes) => {
                    &&& at matches Ok(place) && place == old(self)@.journal.len()
                    &&& final(self)@ == old(self)@.pending(action.name(), bytes@)
                },
                None => {
                    &&& at matches Err(e) && e.kind() == ErrorKind::NotImplemented
                    &&& final(self)@ == old(self)@
                },
            },
    {
        let bytes = match payload {
            Some(bytes) => bytes,
            None => {
                return Err(ActionError::NotImplemented);
            },
        };
        let name = action.get_name().to_owned();
        let at = self.journal.len();
        self.journal.push(JournalEntry { name, payload: bytes, complete: false });
        proof {
            assert(self@.journal =~= old(self)@.pending(action.name(), bytes@).journal);
        }
        Ok(at)
    }

    /// Writes `action` down: encodes its description and puts it into the
    /// journal as its last entry, which is not complete. The place of the
    /// entry is the answer. What the entry holds decodes to the description
    /// of the action again, so that a recovery which finds the entry replays
    /// this action.
    pub fn log<A: Action>(&mut self, action: &A) -> (at: usize)
        ensures
            at == old(self)@.journal.len(),
            final(self)@ == old(self)@.pending(action.name(), encoding(action.record())),
            decoding(encoding(action.record())) == Some(action.record()),
    {
        let record = action.describe();
        let payload = serialize(&record);
        match self.log_encoded(action, payload) {
            Ok(at) => at,
            Err(_) => vstd::pervasive::unreached(),
        }
    }

    /// Takes back what was written down last: where entry `at` is the last
    /// of the journal and not complete, it leaves the journal, and the
    /// answer is `true`. It is for an action that was written down and will
    /// not be applied, so that no recovery replays it. Any other entry stays,
    /// and the answer is `false`.
    pub fn withdraw(&mut self, at: usize) -> (withdrawn: bool)
        ensures
            final(self)@.replay == old(self)@.replay,
            withdrawn == (at + 1 == old(self)@.journal.len() && !old(self)@.journal[at as int]
                .complete),
            final(self)@.journal == if withdrawn {
                old(self)@.journal.drop_last()
            } else {
                old(self)@.journal
            },
    {
        if self.journal.len() == 0 || at != self.journal.len() - 1 || self.journal[at].complete {
            return false;
        }
        self.journal.pop();
        proof {
            assert(self@.journal =~= old(self)@.journal.drop_last());
        }
        true
    }

    /// Applies to `store` the action that was written down as entry `at` of
    /// the journal: the second of the two steps of a run. The action is
    /// applied as a replay where the runner is one of replays, the entry
    /// becomes complete where the action succeeds, and what the action
    /// answered is handed on. Where the journal has no entry `at`, nothing is
    /// applied, and the answer is `NoEntry`.
    pub fn apply_logged<A: Action>(&mut self, store: &mut Metadata, action: &A, at: usize) -> (done:
        Result<(), ActionError>)
        requires
            old(store).wf(),
        ensures
            final(store).wf(),
            if at < old(self)@.journal.len() {
                let error = action.error(old(store)@, old(self)@.replay);
                &&& final(store)@ == action.applied(old(store)@, old(self)@.replay)
                &&& final(self)@ == old(self)@.settled(at as int, error)
                &&& match done {
                    Ok(()) => error is None,
                    Err(e) => error == Some(e.kind()),
                }
            } else {
                &&& final(store)@ == old(store)@
                &&& final(self)@ == old(self)@
                &&& done matches Err(e) && e.kind() == ErrorKind::NoEntry
            },
    {
        if at >= self.journal.len() {
            return Err(ActionError::NoEntry);
        }
        let done = action.run(store, self.replay);
        if done.is_ok() {
            let entry = &mut self.journal[at];
            entry.complete = true;
        }
        proof {
            assert(self@.journal =~= old(self)@.settled(
                at as int,
                action.error(old(store)@, old(self)@.replay),
            ).journal);
        }
        done
    }

    /// Runs `action` on `store`, given the bytes of its description, or
    /// `None` where it could not be encoded.
    ///
    /// An action without bytes cannot be written down and is not applied: it
    /// is refused with `NotImplemented`. Otherwise its name and bytes enter
    /// the journal first, as an entry that is not complete; then the action
    /// is applied, as a replay where the runner is one of replays; and the
    /// entry becomes complete if and only if the action succeeded. What the
    /// action answered is handed on.
    pub fn run_logged<A: Action>(
        &mut self,
        store: &mut Metadata,
        action: &A,
        payload: Option<Vec<u8>>,
    ) -> (done: Result<(), ActionError>)
        requires
            old(store).wf(),
        ensures
            final(store).wf(),
            match payload {
                Some(bytes) => {
                    let error = action.error(old(store)@, old(self)@.replay);
                    &&& final(store)@ == action.applied(old(store)@, old(self)@.replay)
                    &&& final(self)@ == old(self)@.logged(action.name(), bytes@, error)
                    &&& match done {
                        Ok(()) => error is None,
                        Err(e) => error == Some(e.kind()),
                    }
                },
                None => {
                    &&& final(store)@ == old(store)@
                    &&& final(self)@ == old(self)@
                    &&& done matches Err(e) && e.kind() == ErrorKind::NotImplemented
                },
            },
    {
        let ghost bytes = payload;
        let at = match self.log_encoded(action, payload) {
            Ok(at) => at,
            Err(e) => {
                return Err(e);
            },
        };
        let ghost written = self@;
        let done = self.apply_logged(store, action, at);
        proof {
            let error = action.error(old(store)@, old(self)@.replay);
            assert(written == old(self)@.pending(action.name(), bytes->Some_0@));
            assert(at == old(self)@.journal.len());
            assert(self@ == written.settled(at as int, error));
            assert(self@.journal =~= old(self)@.logged(
                action.name(),
                bytes->Some_0@,
                error,
            ).journal);
        }
        done
    }

    /// Runs `action` on `store`: encodes its description, writes it to the
    /// journal, applies the action, and marks the entry complete where it
    /// succeeded. What the entry holds decodes to the description of the
    /// action again.
    pub fn run<A: Action>(&mut self, store: &mut Metadata, action: &A) -> (done: Result<
        (),
        ActionError,
    >)
        requires
            old(store).wf(),
        ensures
            final(store).wf(),
            final(store)@ == action.applied(old(store)@, old(self)@.replay),
            final(self)@ == old(self)@.logged(
                action.name(),
                encoding(action.record()),
                action.error(old(store)@, old(self)@.replay),
            ),
            decoding(encoding(action.record())) == Some(action.record()),
            match done {
                Ok(()) => action.error(old(store)@, old(self)@.replay) is None,
                Err(e) => action.error(old(store)@, old(self)@.replay) == Some(e.kind()),
            },
    {
        let record = action.describe();
        let payload = serialize(&record);
        self.run_logged(store, action, payload)
    }

    /// Replays entry `at` of the journal on `store`, given the record that
    /// its bytes hold, or `None` where they hold none.
    ///
    /// A complete entry is left alone. An incomplete one is replayed: what
    /// its action applied already is skipped, the rest is applied, and the
    /// entry becomes complete where that succeeds. Without a record it is
    /// refused with `NotImplemented` and stays as it is. Where the journal
    /// has no entry `at`, the answer is `NoEntry`.
    pub fn replay_decoded(
        &mut self,
        store: &mut Metadata,
        at: usize,
        record: Option<ActionRecord>,
    ) -> (done: Result<(), ActionError>)
        requires
            old(store).wf(),
        ensures
            final(store).wf(),
            final(self)@.replay == old(self)@.replay,
            if at < old(self)@.journal.len() {
                let entry = old(self)@.journal[at as int];
                &&& final(store)@ == entry_replayed(entry, decoded(record), old(store)@)
                &&& final(self)@.journal == old(self)@.journal.update(
                    at as int,
                    entry_settled(entry, decoded(record), old(store)@),
                )
                &&& match done {
                    Ok(()) => entry_error(entry, decoded(record), old(store)@) is None,
                    Err(e) => entry_error(entry, decoded(record), old(store)@) == Some(e.kind()),
                }
            } else {
                &&& final(store)@ == old(store)@
                &&& final(self)@ == old(self)@
                &&& done matches Err(e) && e.kind() == ErrorKind::NoEntry
            },
    {
        if at >= self.journal.len() {
            return Err(ActionError::NoEntry);
        }
        if self.journal[at].complete {
            proof {
                assert(self@.journal =~= old(self)@.journal.update(
                    at as int,
                    entry_settled(old(self)@.journal[at as int], decoded(record), old(store)@),
                ));
            }
            return Ok(());
        }
        let done = match record {
            Some(record) => {
                proof {
                    lemma_replayed_twice(record@, store@);
                }
                replay(store, &record)
            },
            None => Err(ActionError::NotImplemented),
        };
        if done.is_ok() {
            let entry = &mut self.journal[at];
            entry.complete = true;
        }
        proof {
            assert(self@.journal =~= old(self)@.journal.update(
                at as int,
                entry_settled(old(self)@.journal[at as int], decoded(record), old(store)@),
            ));
        }
        done
    }

    /// Replays entry `at` of the journal on `store`: decodes its bytes and
    /// replays the action that they describe.
    pub fn replay_entry(&mut self, store: &mut Metadata, at: usize) -> (done: Result<
        (),
        ActionError,
    >)
        requires
            old(store).wf(),
        ensures
            final(store).wf(),
            final(self)@.replay == old(self)@.replay,
            if at < old(self)@.journal.len() {
                let entry = old(self)@.journal[at as int];
                let record = decoding(entry.payload);
                &&& final(store)@ == entry_replayed(entry, record, old(store)@)
                &&& final(self)@.journal == old(self)@.journal.update(
                    at as int,
                    entry_settled(entry, record, old(store)@),
                )
                &&& match done {
                    Ok(()) => entry_error(entry, record, old(store)@) is None,
                    Err(e) => entry_error(entry, record, old(store)@) == Some(e.kind()),
                }
            } else {
                &&& final(store)@ == old(store)@
                &&& final(self)@ == old(self)@
                &&& done matches Err(e) && e.kind() == ErrorKind::NoEntry
            },
    {
        if at >= self.journal.len() {
            return Err(ActionError::NoEntry);
        }
        let record = deserialize(self.journal[at].payload.as_slice());
        self.replay_decoded(store, at, record)
    }

    /// Recovers after a crash: replays every entry of the journal that is
    /// not complete, oldest first, and marks complete those whose replay
    /// succeeds.
    pub fn recover(&mut self, store: &mut Metadata)
        requires
            old(store).wf(),
        ensures
            final(store).wf(),
            final(self)@.replay == old(self)@.replay,
            (final(self)@.journal, final(store)@) == recovered(
                old(self)@.journal,
                old(store)@,
                0,
            ),
    {
        let mut at: usize = 0;
        while at < self.journal.len()
            invariant
                store.wf(),
                self@.replay == old(self)@.replay,
                self.journal@.len() == old(self)@.journal.len(),
                recovered(self@.journal, store@, at as nat) == recovered(
                    old(self)@.journal,
                    old(store)@,
                    0,
                ),
            decreases old(self)@.journal.len() - at,
        {
            let ghost journal = self@.journal;
            let _ = self.replay_entry(store, at);
            proof {
                assert(self@.journal.len() == journal.len());
            }
            at += 1;
        }
    }

    /// Drops the entries that are complete: what is left of the journal is
    /// what a recovery has to replay.
    pub fn truncate(&mut self)
        ensures
            final(self)@.replay == old(self)@.replay,
            final(self)@.journal == old(self)@.journal.filter(|entry: EntryView| !entry.complete),
    {
        let ghost open_only = |entry: EntryView| !entry.complete;
        let mut kept: Vec<JournalEntry> = Vec::new();
        let mut at: usize = 0;
        proof {
            reveal(Seq::filter);
            assert(self@.journal.take(0) =~= Seq::<EntryView>::empty());
            assert(lines(kept@) =~= self@.journal.take(0).filter(open_only));
        }
        while at < self.journal.len()
            invariant
                at <= self.journal.len(),
                self@ == old(self)@,
                open_only == |entry: EntryView| !entry.complete,
                lines(kept@) == self@.journal.take(at as int).filter(open_only),
            decreases self.journal.len() - at,
        {
            let ghost before = self@.journal.take(at as int);
            let ghost after = self@.journal.take(at + 1);
            let ghost listed = kept@;
            proof {
                reveal(Seq::filter);
                assert(after.drop_last() =~= before);
                assert(after.last() == self@.journal[at as int]);
            }
            if !self.journal[at].complete {
                let entry = self.journal[at].clone();
                kept.push(entry);
                proof {
                    assert(lines(kept@) =~= lines(listed).push(self@.journal[at as int]));
                }
            }
            at += 1;
        }
        proof {
            assert(self@.journal.take(at as int) =~= self@.journal);
        }
        self.journal = kept;
    }
}

} // verus!
