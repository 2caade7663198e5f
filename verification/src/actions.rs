//! The actions of this engine: the creation of a directory, the creation of
//! a regular file, and the move of an entry.

use vstd::prelude::*;
use crate::codec::ActionRecord;
use crate::codec::RecordView;
use crate::metadata::Metadata;
use crate::metadata::Timespec;
use crate::metadata::model::TableView;
use crate::metadata::texts;
use crate::types::action::Action;
use crate::types::action::ActionError;
use crate::types::action::ErrorKind;

verus! {

/// The two numbers of a moment, as a record keeps them.
pub open spec fn moment_numbers(now: Timespec) -> Seq<i64> {
    seq![now.sec, now.nsec as i64]
}

/// Whether two numbers of a record are those of a moment.
pub open spec fn holds_moment(numbers: Seq<i64>) -> bool {
    numbers.len() == 2 && i32::MIN <= numbers[1] <= i32::MAX
}

fn numbers_of(now: Timespec) -> (numbers: Vec<i64>)
    ensures
        numbers@ == moment_numbers(now),
{
    let mut numbers: Vec<i64> = Vec::new();
    numbers.push(now.sec);
    numbers.push(now.nsec as i64);
    proof {
        assert(numbers@ =~= moment_numbers(now));
    }
    numbers
}

fn moment_of(numbers: &Vec<i64>) -> (now: Option<Timespec>)
    ensures
        match now {
            Some(t) => holds_moment(numbers@) && moment_numbers(t) == numbers@,
            None => !holds_moment(numbers@),
        },
{
    if numbers.len() != 2 {
        return None;
    }
    let nsec = numbers[1];
    if nsec < i32::MIN as i64 || nsec > i32::MAX as i64 {
        return None;
    }
    let now = Timespec { sec: numbers[0], nsec: nsec as i32 };
    proof {
        assert(moment_numbers(now) =~= numbers@);
    }
    Some(now)
}

/// The creation of the directory `name` under `parent`, under the identity
/// `id`, at the time `now`.
#[derive(Debug)]
pub struct CreateDir {
    pub parent: String,
    pub name: String,
    pub id: String,
    pub now: Timespec,
}

impl CreateDir {
    /// Whether a record describes the creation of a directory.
    pub open spec fn describes(record: RecordView) -> bool {
        &&& record.name == "mkdir"@
        &&& record.texts.len() == 3
        &&& holds_moment(record.numbers)
        &&& record.sizes.len() == 0
    }

    /// Reads the action back from its record; `None` where the record
    /// describes no creation of a directory.
    pub fn from_record(record: &ActionRecord) -> (action: Option<CreateDir>)
        ensures
            match action {
                Some(a) => Self::describes(record@) && a.record() == record@,
                None => !Self::describes(record@),
            },
    {
        if record.name != "mkdir".to_owned() || record.texts.len() != 3 || record.sizes.len()
            != 0 {
            return None;
        }
        let now = match moment_of(&record.numbers) {
            Some(now) => now,
            None => {
                return None;
            },
        };
        let action = CreateDir {
            parent: record.texts[0].clone(),
            name: record.texts[1].clone(),
            id: record.texts[2].clone(),
            now,
        };
        proof {
            assert(action.record().texts =~= record@.texts);
            assert(action.record().sizes =~= record@.sizes);
        }
        Some(action)
    }

    /// Why the creation is refused in the state `before`; as a replay, it is
    /// skipped where the identity exists already, which is a success.
    pub open spec fn error_of(
        parent: Seq<char>,
        name: Seq<char>,
        id: Seq<char>,
        before: TableView,
        replay: bool,
    ) -> Option<ErrorKind> {
        if replay && before.has_id(id) {
            None
        } else {
            before.insert_error(parent, name, id)
        }
    }

    /// The state in which the creation leaves `before`.
    pub open spec fn applied_of(
        parent: Seq<char>,
        name: Seq<char>,
        id: Seq<char>,
        now: Timespec,
        before: TableView,
        replay: bool,
    ) -> TableView {
        if !(replay && before.has_id(id)) && before.insert_error(parent, name, id) is None {
            before.with_dir(parent, name, id, now)
        } else {
            before
        }
    }

    /// A refused creation changes nothing, a replay leaves the state that a
    /// fresh run leaves, and a creation that was run is a replay away from
    /// nothing.
    pub proof fn lemma_replay_of(
        parent: Seq<char>,
        name: Seq<char>,
        id: Seq<char>,
        now: Timespec,
        before: TableView,
        replay: bool,
    )
        requires
            before.wf(),
        ensures
            ({
                let after = Self::applied_of(parent, name, id, now, before, replay);
                &&& after.wf()
                &&& Self::error_of(parent, name, id, before, replay) is Some ==> after == before
                &&& Self::applied_of(parent, name, id, now, before, true) == Self::applied_of(
                    parent,
                    name,
                    id,
                    now,
                    before,
                    false,
                )
                &&& Self::applied_of(parent, name, id, now, after, true) == after
                &&& Self::error_of(parent, name, id, before, replay) is None ==> Self::error_of(
                    parent,
                    name,
                    id,
                    after,
                    true,
                ) is None
            }),
    {
        let after = Self::applied_of(parent, name, id, now, before, replay);
        if after != before {
            before.lemma_with_dir_wf(parent, name, id, now);
            assert(after.id_at(id, before.rows.len() as int));
        }
    }

    /// The record of the creation of a directory.
    pub open spec fn record_of(
        parent: Seq<char>,
        name: Seq<char>,
        id: Seq<char>,
        now: Timespec,
    ) -> RecordView {
        RecordView {
            name: "mkdir"@,
            texts: seq![parent, name, id],
            numbers: moment_numbers(now),
            sizes: Seq::empty(),
        }
    }
}

impl Action for CreateDir {
    open spec fn name(&self) -> Seq<char> {
        "mkdir"@
    }

    open spec fn record(&self) -> RecordView {
        Self::record_of(self.parent@, self.name@, self.id@, self.now)
    }

    open spec fn error(&self, before: TableView, replay: bool) -> Option<ErrorKind> {
        Self::error_of(self.parent@, self.name@, self.id@, before, replay)
    }

    open spec fn applied(&self, before: TableView, replay: bool) -> TableView {
        Self::applied_of(self.parent@, self.name@, self.id@, self.now, before, replay)
    }

    proof fn lemma_replay(&self, before: TableView, replay: bool) {
        Self::lemma_replay_of(self.parent@, self.name@, self.id@, self.now, before, replay);
    }

    fn get_name(&self) -> (name: &str) {
        "mkdir"
    }

    fn describe(&self) -> (record: ActionRecord) {
        let mut fields: Vec<String> = Vec::new();
        fields.push(self.parent.clone());
        fields.push(self.name.clone());
        fields.push(self.id.clone());
        let record = ActionRecord {
            name: "mkdir".to_owned(),
            texts: fields,
            numbers: numbers_of(self.now),
            sizes: Vec::new(),
        };
        proof {
            assert(record@.texts =~= self.record().texts);
            assert(record@.sizes =~= self.record().sizes);
        }
        record
    }

    fn run(&self, store: &mut Metadata, replay: bool) -> (done: Result<(), ActionError>) {
        if replay && store.contains_id(&self.id) {
            return Ok(());
        }
        match store.create_dir(&self.parent, &self.name, self.id.clone(), self.now) {
            Ok(_) => Ok(()),
            Err(e) => Err(e),
        }
    }
}

/// The creation of the regular file `name` under `parent`, under the
/// identity `id`, at the time `now`, with a first version of the given size
/// and content hash.
#[derive(Debug)]
pub struct CreateFile {
    pub parent: String,
    pub name: String,
    pub id: String,
    pub now: Timespec,
    pub size: u64,
    pub hash: String,
}

impl CreateFile {
    /// Whether a record describes the creation of a regular file.
    pub open spec fn describes(record: RecordView) -> bool {
        &&& record.name == "create"@
        &&& record.texts.len() == 4
        &&& holds_moment(record.numbers)
        &&& record.sizes.len() == 1
    }

    /// Reads the action back from its record; `None` where the record
    /// describes no creation of a regular file.
    pub fn from_record(record: &ActionRecord) -> (action: Option<CreateFile>)
        ensures
            match action {
                Some(a) => Self::describes(record@) && a.record() == record@,
                None => !Self::describes(record@),
            },
    {
        if record.name != "create".to_owned() || record.texts.len() != 4 || record.sizes.len()
            != 1 {
            return None;
        }
        let now = match moment_of(&record.numbers) {
            Some(now) => now,
            None => {
                return None;
            },
        };
        let action = CreateFile {
            parent: record.texts[0].clone(),
            name: record.texts[1].clone(),
            id: record.texts[2].clone(),
            now,
            size: record.sizes[0],
            hash: record.texts[3].clone(),
        };
        proof {
            assert(action.record().texts =~= record@.texts);
            assert(action.record().sizes =~= record@.sizes);
        }
        Some(action)
    }

    /// Why the creation is refused in the state `before`; as a replay, it is
    /// skipped where the identity exists already, which is a success.
    pub open spec fn error_of(
        parent: Seq<char>,
        name: Seq<char>,
        id: Seq<char>,
        before: TableView,
        replay: bool,
    ) -> Option<ErrorKind> {
        if replay && before.has_id(id) {
            None
        } else {
            before.insert_error(parent, name, id)
        }
    }

    /// The state in which the creation leaves `before`.
    pub open spec fn applied_of(
        parent: Seq<char>,
        name: Seq<char>,
        id: Seq<char>,
        now: Timespec,
        size: u64,
        hash: Seq<char>,
        before: TableView,
        replay: bool,
    ) -> TableView {
        if !(replay && before.has_id(id)) && before.insert_error(parent, name, id) is None {
            before.with_file(parent, name, id, now, size, hash)
        } else {
            before
        }
    }

    /// A refused creation changes nothing, a replay leaves the state that a
    /// fresh run leaves, and a creation that was run is a replay away from
    /// nothing.
    pub proof fn lemma_replay_of(
        parent: Seq<char>,
        name: Seq<char>,
        id: Seq<char>,
        now: Timespec,
        size: u64,
        hash: Seq<char>,
        before: TableView,
        replay: bool,
    )
        requires
            before.wf(),
        ensures
            ({
                let after = Self::applied_of(parent, name, id, now, size, hash, before, replay);
                &&& after.wf()
                &&& Self::error_of(parent, name, id, before, replay) is Some ==> after == before
                &&& Self::applied_of(parent, name, id, now, size, hash, before, true)
                    == Self::applied_of(parent, name, id, now, size, hash, before, false)
                &&& Self::applied_of(parent, name, id, now, size, hash, after, true) == after
                &&& Self::error_of(parent, name, id, before, replay) is None ==> Self::error_of(
                    parent,
                    name,
                    id,
                    after,
                    true,
                ) is None
            }),
    {
        let after = Self::applied_of(parent, name, id, now, size, hash, before, replay);
        if after != before {
            before.lemma_with_file_wf(parent, name, id, now, size, hash);
            assert(after.id_at(id, before.rows.len() as int));
        }
    }

    /// The record of the creation of a regular file.
    pub open spec fn record_of(
        parent: Seq<char>,
        name: Seq<char>,
        id: Seq<char>,
        now: Timespec,
        size: u64,
        hash: Seq<char>,
    ) -> RecordView {
        RecordView {
            name: "create"@,
            texts: seq![parent, name, id, hash],
            numbers: moment_numbers(now),
            sizes: seq![size],
        }
    }
}

impl Action for CreateFile {
    open spec fn name(&self) -> Seq<char> {
        "create"@
    }

    open spec fn record(&self) -> RecordView {
        Self::record_of(self.parent@, self.name@, self.id@, self.now, self.size, self.hash@)
    }

    open spec fn error(&self, before: TableView, replay: bool) -> Option<ErrorKind> {
        Self::error_of(self.parent@, self.name@, self.id@, before, replay)
    }

    open spec fn applied(&self, before: TableView, replay: bool) -> TableView {
        Self::applied_of(
            self.parent@,
            self.name@,
            self.id@,
            self.now,
            self.size,
            self.hash@,
            before,
            replay,
        )
    }

    proof fn lemma_replay(&self, before: TableView, replay: bool) {
        Self::lemma_replay_of(
            self.parent@,
            self.name@,
            self.id@,
            self.now,
            self.size,
            self.hash@,
            before,
            replay,
        );
    }

    fn get_name(&self) -> (name: &str) {
        "create"
    }

    fn describe(&self) -> (record: ActionRecord) {
        let mut fields: Vec<String> = Vec::new();
        fields.push(self.parent.clone());
        fields.push(self.name.clone());
        fields.push(self.id.clone());
        fields.push(self.hash.clone());
        let mut sizes: Vec<u64> = Vec::new();
        sizes.push(self.size);
        let record = ActionRecord {
            name: "create".to_owned(),
            texts: fields,
            numbers: numbers_of(self.now),
            sizes,
        };
        proof {
            assert(record@.texts =~= self.record().texts);
            assert(record@.sizes =~= self.record().sizes);
        }
        record
    }

    fn run(&self, store: &mut Metadata, replay: bool) -> (done: Result<(), ActionError>) {
        if replay && store.contains_id(&self.id) {
            return Ok(());
        }
        match store.create_file(
            &self.parent,
            &self.name,
            self.id.clone(),
            self.now,
            self.size,
            self.hash.clone(),
        ) {
            Ok(_) => Ok(()),
            Err(e) => Err(e),
        }
    }
}

/// The move of the inode `id` to the entry `new_name` of `new_parent`, at
/// the time `now`.
#[derive(Debug)]
pub struct Rename {
    pub id: String,
    pub new_parent: String,
    pub new_name: String,
    pub now: Timespec,
}

impl Rename {
    /// Whether a record describes a move.
    pub open spec fn describes(record: RecordView) -> bool {
        &&& record.name == "rename"@
        &&& record.texts.len() == 3
        &&& holds_moment(record.numbers)
        &&& record.sizes.len() == 0
    }

    /// Reads the action back from its record; `None` where the record
    /// describes no move.
    pub fn from_record(record: &ActionRecord) -> (action: Option<Rename>)
        ensures
            match action {
                Some(a) => Self::describes(record@) && a.record() == record@,
                None => !Self::describes(record@),
            },
    {
        if record.name != "rename".to_owned() || record.texts.len() != 3 || record.sizes.len()
            != 0 {
            return None;
        }
        let now = match moment_of(&record.numbers) {
            Some(now) => now,
            None => {
                return None;
            },
        };
        let action = Rename {
            id: record.texts[0].clone(),
            new_parent: record.texts[1].clone(),
            new_name: record.texts[2].clone(),
            now,
        };
        proof {
            assert(action.record().texts =~= record@.texts);
            assert(action.record().sizes =~= record@.sizes);
        }
        Some(action)
    }

    /// Whether the inode `id` is as this move leaves it: it is the entry
    /// `new_name` of `new_parent`, and was modified and changed at `now`.
    pub open spec fn in_place(
        id: Seq<char>,
        new_parent: Seq<char>,
        new_name: Seq<char>,
        now: Timespec,
        before: TableView,
    ) -> bool {
        &&& before.has_id(id)
        &&& before.rows[before.index_of_id(id)].parent == new_parent
        &&& before.rows[before.index_of_id(id)].name == new_name
        &&& before.rows[before.index_of_id(id)].mtime == now
        &&& before.rows[before.index_of_id(id)].ctime == now
    }

    /// Why the move is refused in the state `before`; as a replay, it is
    /// skipped where the inode is as the move leaves it, which is a success.
    pub open spec fn error_of(
        id: Seq<char>,
        new_parent: Seq<char>,
        new_name: Seq<char>,
        now: Timespec,
        before: TableView,
        replay: bool,
    ) -> Option<ErrorKind> {
        if replay && Self::in_place(id, new_parent, new_name, now, before) {
            None
        } else {
            before.rename_error(id, new_parent, new_name)
        }
    }

    /// The state in which the move leaves `before`.
    pub open spec fn applied_of(
        id: Seq<char>,
        new_parent: Seq<char>,
        new_name: Seq<char>,
        now: Timespec,
        before: TableView,
        replay: bool,
    ) -> TableView {
        if !(replay && Self::in_place(id, new_parent, new_name, now, before))
            && before.rename_error(id, new_parent, new_name) is None {
            before.renamed(id, new_parent, new_name, now)
        } else {
            before
        }
    }

    /// A refused move changes nothing, a replay leaves the state that a
    /// fresh run leaves, and a move that was run is a replay away from
    /// nothing.
    pub proof fn lemma_replay_of(
        id: Seq<char>,
        new_parent: Seq<char>,
        new_name: Seq<char>,
        now: Timespec,
        before: TableView,
        replay: bool,
    )
        requires
            before.wf(),
        ensures
            ({
                let after = Self::applied_of(id, new_parent, new_name, now, before, replay);
                &&& after.wf()
                &&& Self::error_of(id, new_parent, new_name, now, before, replay) is Some
                    ==> after == before
                &&& Self::applied_of(id, new_parent, new_name, now, before, true)
                    == Self::applied_of(id, new_parent, new_name, now, before, false)
                &&& Self::applied_of(id, new_parent, new_name, now, after, true) == after
                &&& Self::error_of(id, new_parent, new_name, now, before, replay) is None
                    ==> Self::error_of(id, new_parent, new_name, now, after, true) is None
            }),
    {
        reveal(TableView::wf);
        let after = Self::applied_of(id, new_parent, new_name, now, before, replay);
        if Self::in_place(id, new_parent, new_name, now, before) {
            let at = before.index_of_id(id);
            assert(before.id_at(id, at));
            assert(before.renamed(id, new_parent, new_name, now).rows =~= before.rows);
        }
        if after != before {
            before.lemma_renamed_wf(id, new_parent, new_name, now);
            let at = before.index_of_id(id);
            assert(before.id_at(id, at));
            assert(after.id_at(id, at));
            after.lemma_id_index(id, at);
        }
    }

    /// The record of a move.
    pub open spec fn record_of(
        id: Seq<char>,
        new_parent: Seq<char>,
        new_name: Seq<char>,
        now: Timespec,
    ) -> RecordView {
        RecordView {
            name: "rename"@,
            texts: seq![id, new_parent, new_name],
            numbers: moment_numbers(now),
            sizes: Seq::empty(),
        }
    }
}

impl Action for Rename {
    open spec fn name(&self) -> Seq<char> {
        "rename"@
    }

    open spec fn record(&self) -> RecordView {
        Self::record_of(self.id@, self.new_parent@, self.new_name@, self.now)
    }

    open spec fn error(&self, before: TableView, replay: bool) -> Option<ErrorKind> {
        Self::error_of(self.id@, self.new_parent@, self.new_name@, self.now, before, replay)
    }

    open spec fn applied(&self, before: TableView, replay: bool) -> TableView {
        Self::applied_of(self.id@, self.new_parent@, self.new_name@, self.now, before, replay)
    }

    proof fn lemma_replay(&self, before: TableView, replay: bool) {
        Self::lemma_replay_of(self.id@, self.new_parent@, self.new_name@, self.now, before, replay);
    }

    fn get_name(&self) -> (name: &str) {
        "rename"
    }

    fn describe(&self) -> (record: ActionRecord) {
        let mut fields: Vec<String> = Vec::new();
        fields.push(self.id.clone());
        fields.push(self.new_parent.clone());
        fields.push(self.new_name.clone());
        let record = ActionRecord {
            name: "rename".to_owned(),
            texts: fields,
            numbers: numbers_of(self.now),
            sizes: Vec::new(),
        };
        proof {
            assert(record@.texts =~= self.record().texts);
            assert(record@.sizes =~= self.record().sizes);
        }
        record
    }

    fn run(&self, store: &mut Metadata, replay: bool) -> (done: Result<(), ActionError>) {
        if replay {
            match store.get_by_id(&self.id) {
                Some(inode) => {
                    if inode.parent == self.new_parent && inode.name == self.new_name
                        && inode.mtime == self.now && inode.ctime == self.now {
                        return Ok(());
                    }
                },
                None => {},
            }
        }
        match store.rename(&self.id, &self.new_parent, &self.new_name, self.now) {
            Ok(_) => Ok(()),
            Err(e) => Err(e),
        }
    }
}

/// The moment that two numbers of a record stand for.
pub open spec fn moment_in(numbers: Seq<i64>) -> Timespec {
    Timespec { sec: numbers[0], nsec: numbers[1] as i32 }
}

/// Why the replay of the action that `record` describes is refused in the
/// state `before`; `NotImplemented` where it describes no action.
pub open spec fn replay_error(record: RecordView, before: TableView) -> Option<ErrorKind> {
    let t = record.texts;
    if CreateDir::describes(record) {
        CreateDir::error_of(t[0], t[1], t[2], before, true)
    } else if CreateFile::describes(record) {
        CreateFile::error_of(t[0], t[1], t[2], before, true)
    } else if Rename::describes(record) {
        Rename::error_of(t[0], t[1], t[2], moment_in(record.numbers), before, true)
    } else {
        Some(ErrorKind::NotImplemented)
    }
}

/// The state in which the replay of the action that `record` describes
/// leaves `before`.
pub open spec fn replayed(record: RecordView, before: TableView) -> TableView {
    let t = record.texts;
    let now = moment_in(record.numbers);
    if CreateDir::describes(record) {
        CreateDir::applied_of(t[0], t[1], t[2], now, before, true)
    } else if CreateFile::describes(record) {
        CreateFile::applied_of(t[0], t[1], t[2], now, record.sizes[0], t[3], before, true)
    } else if Rename::describes(record) {
        Rename::applied_of(t[0], t[1], t[2], now, before, true)
    } else {
        before
    }
}

/// Replays on `store` the action that `record` describes: what was applied
/// already is left alone. A record that describes no action is refused with
/// `NotImplemented`.
pub fn replay(store: &mut Metadata, record: &ActionRecord) -> (done: Result<(), ActionError>)
    requires
        old(store).wf(),
    ensures
        final(store).wf(),
        final(store)@ == replayed(record@, old(store)@),
        match done {
            Ok(()) => replay_error(record@, old(store)@) is None,
            Err(e) => replay_error(record@, old(store)@) == Some(e.kind()),
        },
{
    match CreateDir::from_record(record) {
        Some(action) => {
            return action.run(store, true);
        },
        None => {},
    }
    match CreateFile::from_record(record) {
        Some(action) => {
            return action.run(store, true);
        },
        None => {},
    }
    match Rename::from_record(record) {
        Some(action) => {
            return action.run(store, true);
        },
        None => {},
    }
    Err(ActionError::NotImplemented)
}

/// A replay can be repeated: the replay of a record leaves a well-formed
/// state, in which one more replay of the same record changes nothing and
/// succeeds where the first did. A refused replay changes nothing.
pub proof fn lemma_replayed_twice(record: RecordView, before: TableView)
    requires
        before.wf(),
    ensures
        replayed(record, before).wf(),
        replayed(record, replayed(record, before)) == replayed(record, before),
        replay_error(record, before) is Some ==> replayed(record, before) == before,
        replay_error(record, before) is None ==> replay_error(record, replayed(record, before))
            is None,
{
    let t = record.texts;
    let now = moment_in(record.numbers);
    if CreateDir::describes(record) {
        CreateDir::lemma_replay_of(t[0], t[1], t[2], now, before, true);
    } else if CreateFile::describes(record) {
        CreateFile::lemma_replay_of(t[0], t[1], t[2], now, record.sizes[0], t[3], before, true);
    } else if Rename::describes(record) {
        Rename::lemma_replay_of(t[0], t[1], t[2], now, before, true);
    }
}

} // verus!
