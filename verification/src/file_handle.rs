//! The table of open files: which handle identifiers are open, and the
//! backing file behind each.

use std::collections::HashMap;
use vstd::prelude::*;
use vstd::std_specs::hash::group_hash_axioms;
use crate::file::FileHandle;
use crate::file::OpenFile;
use crate::file::ReadCall;
use crate::file::handed_out;
use crate::types::action::ActionError;
use crate::types::action::ErrorKind;

verus! {

broadcast use group_hash_axioms;

/// The open files by their identifiers, and the last identifier that was
/// handed out.
pub struct HandleTable<H> {
    open: HashMap<u64, OpenFile<H>>,
    last_fh: u64,
}

/// The table as a mathematical value.
pub struct HandlesView<H> {
    pub open: Map<u64, OpenFile<H>>,
    pub last_fh: u64,
}

impl<H> HandlesView<H> {
    /// The identifier `fh` names an open file.
    pub open spec fn is_open(self, fh: u64) -> bool {
        self.open.contains_key(fh)
    }

    /// None is open that was not handed out: identifiers start at 1 and
    /// never exceed the last one.
    pub open spec fn wf(self) -> bool {
        forall|fh: u64| #[trigger] self.open.contains_key(fh) ==> 1 <= fh <= self.last_fh
    }

    /// A table with no open file, in which no identifier was handed out.
    pub open spec fn initial() -> HandlesView<H> {
        HandlesView { open: Map::empty(), last_fh: 0 }
    }

    /// `after` is the table after the backing file `handle` was opened: it is
    /// open under the next identifier, and no read has reached it.
    pub open spec fn opened(self, after: HandlesView<H>, handle: H) -> bool {
        let fh = (self.last_fh + 1) as u64;
        &&& after.last_fh == fh
        &&& after.open.dom() == self.open.dom().insert(fh)
        &&& after.open[fh].file() == handle
        &&& after.open[fh].reads() == Seq::<ReadCall>::empty()
        &&& forall|other: u64|
            self.open.contains_key(other) ==> #[trigger] after.open[other] == self.open[other]
    }

    /// The table after `fh` was released.
    pub open spec fn released(self, fh: u64) -> HandlesView<H> {
        HandlesView { open: self.open.remove(fh), last_fh: self.last_fh }
    }

    /// `after` is the table after a read of `size` bytes from `offset` on
    /// was handed on to the open file `fh` and answered with `answer`: the
    /// read is the last of the file's record, and nothing else has changed.
    pub open spec fn read_through(
        self,
        after: HandlesView<H>,
        fh: u64,
        offset: u64,
        size: u32,
        answer: Result<Seq<u8>, ()>,
    ) -> bool {
        &&& after.last_fh == self.last_fh
        &&& after.open.dom() == self.open.dom()
        &&& after.open[fh].reads() == self.open[fh].reads().push(
            ReadCall { offset, size, answer },
        )
        &&& forall|other: u64|
            self.open.contains_key(other) && other != fh ==> #[trigger] after.open[other]
                == self.open[other]
    }
}

/// What a read answered, as a mathematical value.
pub open spec fn read_out(data: Result<Vec<u8>, ActionError>) -> Result<Seq<u8>, ErrorKind> {
    match data {
        Ok(bytes) => Ok(bytes@),
        Err(e) => Err(e.kind()),
    }
}

/// The answer to a read of up to `size` bytes, given what the backing file
/// handed out: its bytes, cut off after the first `size`; `NotImplemented`
/// where it failed.
pub open spec fn read_reply(answer: Result<Seq<u8>, ()>, size: u32) -> Result<Seq<u8>, ErrorKind> {
    match answer {
        Ok(bytes) => if bytes.len() > size {
            Ok(bytes.take(size as int))
        } else {
            Ok(bytes)
        },
        Err(()) => Err(ErrorKind::NotImplemented),
    }
}

/// Makes the answer to a read of up to `size` bytes of what the backing file
/// handed out.
pub fn cut_to_size(answer: Result<Vec<u8>, ()>, size: u32) -> (data: Result<Vec<u8>, ActionError>)
    ensures
        read_out(data) == read_reply(handed_out(answer), size),
{
    match answer {
        Ok(mut bytes) => {
            if bytes.len() > size as usize {
                bytes.truncate(size as usize);
                proof {
                    assert(bytes@ =~= handed_out(answer)->Ok_0.take(size as int));
                }
            }
            Ok(bytes)
        },
        Err(_) => Err(ActionError::NotImplemented),
    }
}

impl<H> View for HandleTable<H> {
    type V = HandlesView<H>;

    closed spec fn view(&self) -> HandlesView<H> {
        HandlesView { open: self.open@, last_fh: self.last_fh }
    }
}

impl<H> HandleTable<H> {
    pub open spec fn wf(&self) -> bool {
        self@.wf()
    }

    /// A table with no open file, in which no identifier was handed out yet.
    pub fn new() -> (table: HandleTable<H>)
        ensures
            table.wf(),
            table@ == HandlesView::<H>::initial(),
    {
        HandleTable { open: HashMap::new(), last_fh: 0 }
    }

    /// The last identifier that was handed out; 0 before the first.
    pub fn last_fh(&self) -> (fh: u64)
        ensures
            fh == self@.last_fh,
    {
        self.last_fh
    }

    /// How many files are open.
    pub fn len(&self) -> (n: usize)
        ensures
            n == self@.open.len(),
    {
        self.open.len()
    }

    /// Whether `fh` names an open file.
    pub fn is_open(&self, fh: u64) -> (open: bool)
        ensures
            open == self@.is_open(fh),
    {
        self.open.contains_key(&fh)
    }

    /// Takes `handle` into the table under the next identifier: one more
    /// than the last that was handed out, so none is handed out twice.
    /// Where the identifiers are used up it is refused with
    /// `NoSpaceLeftOnDevice`, and the table stays as it was.
    pub fn insert(&mut self, handle: H) -> (opened: Result<u64, ActionError>)
        requires
            old(self).wf(),
        ensures
            final(self).wf(),
            match opened {
                Ok(fh) => {
                    &&& old(self)@.last_fh < u64::MAX
                    &&& fh == old(self)@.last_fh + 1
                    &&& old(self)@.opened(final(self)@, handle)
                },
                Err(e) => {
                    &&& old(self)@.last_fh == u64::MAX
                    &&& e.kind() == ErrorKind::NoSpaceLeftOnDevice
                    &&& final(self)@ == old(self)@
                },
            },
    {
        if self.last_fh == u64::MAX {
            return Err(ActionError::NoSpaceLeftOnDevice);
        }
        let fh = self.last_fh + 1;
        self.open.insert(fh, OpenFile::new(handle));
        self.last_fh = fh;
        proof {
            assert(self@.open.dom() =~= old(self)@.open.dom().insert(fh));
        }
        Ok(fh)
    }

    /// Takes the file that `fh` names out of the table and hands its backing
    /// file back, to be closed. An identifier that is not open is refused
    /// with `NoEntry`.
    pub fn release(&mut self, fh: u64) -> (released: Result<H, ActionError>)
        requires
            old(self).wf(),
        ensures
            final(self).wf(),
            !final(self)@.is_open(fh),
            match released {
                Ok(handle) => {
                    &&& old(self)@.is_open(fh)
                    &&& handle == old(self)@.open[fh].file()
                    &&& final(self)@ == old(self)@.released(fh)
                },
                Err(e) => {
                    &&& !old(self)@.is_open(fh)
                    &&& e.kind() == ErrorKind::NoEntry
                    &&& final(self)@ == old(self)@
                },
            },
    {
        match self.open.remove(&fh) {
            Some(file) => {
                proof {
                    assert(self@.open =~= old(self)@.open.remove(fh));
                }
                Ok(file.into_handle())
            },
            None => {
                proof {
                    assert(self@.open =~= old(self)@.open);
                }
                Err(ActionError::NoEntry)
            },
        }
    }
}

impl<H: FileHandle> HandleTable<H> {
    /// Reads up to `size` bytes from `offset` on through the open file that
    /// `fh` names: the read is handed on to the backing file as it came, and
    /// what the file hands out beyond `size` bytes is cut off. An answer
    /// shorter than `size` is a short read and no error.
    ///
    /// An identifier that is not open is refused with `NotImplemented`, and
    /// the table stays as it was; so is a read that the backing file fails.
    /// Which files are open does not change.
    pub fn read(&mut self, fh: u64, offset: u64, size: u32) -> (data: Result<Vec<u8>, ActionError>)
        requires
            old(self).wf(),
        ensures
            final(self).wf(),
            if old(self)@.is_open(fh) {
                exists|answer: Result<Seq<u8>, ()>|
                    {
                        &&& #[trigger] old(self)@.read_through(
                            final(self)@,
                            fh,
                            offset,
                            size,
                            answer,
                        )
                        &&& read_out(data) == read_reply(answer, size)
                    }
            } else {
                &&& read_out(data) == Err::<Seq<u8>, ErrorKind>(ErrorKind::NotImplemented)
                &&& final(self)@ == old(self)@
            },
    {
        let mut file = match self.open.remove(&fh) {
            Some(file) => file,
            None => {
                proof {
                    assert(self@.open =~= old(self)@.open);
                }
                return Err(ActionError::NotImplemented);
            },
        };
        let answer = file.read(offset, size);
        self.open.insert(fh, file);
        proof {
            assert(self@.open.dom() =~= old(self)@.open.dom());
            assert(old(self)@.read_through(self@, fh, offset, size, handed_out(answer)));
        }
        cut_to_size(answer, size)
    }
}

} // verus!
