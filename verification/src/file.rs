//! What the engine asks of the backing storage. The storage itself lies
//! outside: whoever mounts the filesystem supplies it.
//!
//! The engine reaches storage through `Storage` and open files through
//! `OpenFile`, which keep a record of every request that they handed on and
//! of the answer that came back. The contracts of the engine speak of storage
//! through these records. What a provider does on a request is its own
//! affair, and no contract here says that it succeeds.

use vstd::prelude::*;
use crate::metadata::texts;

verus! {

/// One open backing file.
pub trait FileHandle {
    /// Reads up to `size` bytes from `offset` on. At the end of the file the
    /// answer is shorter than what was asked for.
    fn read(&mut self, offset: u64, size: u32) -> Result<Vec<u8>, ()>;
}

/// The operations on backing storage. A path is given by its segments, the
/// backing root first.
pub trait FileOperation {
    type Handle: FileHandle;

    fn create_dir(&mut self, path: &Vec<String>) -> Result<(), ()>;

    fn rename(&mut self, old_path: &Vec<String>, new_path: &Vec<String>) -> Result<(), ()>;

    fn open(&mut self, path: &Vec<String>, flags: u32) -> Result<Self::Handle, ()>;
}

/// One read that was handed on to an open backing file: what was asked for,
/// and what the file handed out.
pub struct ReadCall {
    pub offset: u64,
    pub size: u32,
    pub answer: Result<Seq<u8>, ()>,
}

/// One request that was handed on to backing storage, with its answer.
pub enum StorageCall {
    CreateDir { path: Seq<Seq<char>>, made: Result<(), ()> },
    Rename { old_path: Seq<Seq<char>>, new_path: Seq<Seq<char>>, moved: Result<(), ()> },
    Open { path: Seq<Seq<char>>, flags: u32, opened: bool },
}

/// What a backing file handed out, as a mathematical value.
pub open spec fn handed_out(answer: Result<Vec<u8>, ()>) -> Result<Seq<u8>, ()> {
    match answer {
        Ok(bytes) => Ok(bytes@),
        Err(()) => Err(()),
    }
}

/// An open backing file, with the record of the reads that were handed on to
/// it, oldest first.
pub struct OpenFile<H> {
    handle: H,
    reads: Ghost<Seq<ReadCall>>,
}

impl<H> OpenFile<H> {
    /// The backing file.
    pub closed spec fn file(&self) -> H {
        self.handle
    }

    /// The reads that were handed on to the file, oldest first.
    pub closed spec fn reads(&self) -> Seq<ReadCall> {
        self.reads@
    }

    /// Takes a backing file that no read has reached yet.
    pub fn new(handle: H) -> (open: OpenFile<H>)
        ensures
            open.file() == handle,
            open.reads() == Seq::<ReadCall>::empty(),
    {
        OpenFile { handle, reads: Ghost(Seq::empty()) }
    }

    /// Hands the backing file back.
    pub fn into_handle(self) -> (handle: H)
        ensures
            handle == self.file(),
    {
        self.handle
    }
}

impl<H: FileHandle> OpenFile<H> {
    /// Hands a read on to the backing file, and notes it with its answer.
    pub fn read(&mut self, offset: u64, size: u32) -> (answer: Result<Vec<u8>, ()>)
        ensures
            final(self).reads() == old(self).reads().push(
                ReadCall { offset, size, answer: handed_out(answer) },
            ),
    {
        let answer = self.handle.read(offset, size);
        proof {
            self.reads@ = self.reads@.push(ReadCall { offset, size, answer: handed_out(answer) });
        }
        answer
    }
}

/// Backing storage, with the record of the requests that were handed on to
/// it, oldest first.
pub struct Storage<F> {
    files: F,
    calls: Ghost<Seq<StorageCall>>,
}

impl<F> Storage<F> {
    /// The provider.
    pub closed spec fn provider(&self) -> F {
        self.files
    }

    /// The requests that were handed on to the provider, oldest first.
    pub closed spec fn calls(&self) -> Seq<StorageCall> {
        self.calls@
    }

    /// Takes a provider that no request has reached yet.
    pub fn new(files: F) -> (storage: Storage<F>)
        ensures
            storage.provider() == files,
            storage.calls() == Seq::<StorageCall>::empty(),
    {
        Storage { files, calls: Ghost(Seq::empty()) }
    }

    /// The provider.
    pub fn files(&self) -> (files: &F)
        ensures
            *files == self.provider(),
    {
        &self.files
    }
}

impl<F: FileOperation> Storage<F> {
    /// Hands the making of a directory on to the provider, and notes it
    /// with its answer.
    pub fn create_dir(&mut self, path: &Vec<String>) -> (made: Result<(), ()>)
        ensures
            final(self).calls() == old(self).calls().push(
                StorageCall::CreateDir { path: texts(path@), made },
            ),
    {
        let made = self.files.create_dir(path);
        proof {
            self.calls@ = self.calls@.push(StorageCall::CreateDir { path: texts(path@), made });
        }
        made
    }

    /// Hands a move on to the provider, and notes it with its answer.
    pub fn rename(&mut self, old_path: &Vec<String>, new_path: &Vec<String>) -> (moved: Result<
        (),
        (),
    >)
        ensures
            final(self).calls() == old(self).calls().push(
                StorageCall::Rename {
                    old_path: texts(old_path@),
                    new_path: texts(new_path@),
                    moved,
                },
            ),
    {
        let moved = self.files.rename(old_path, new_path);
        proof {
            self.calls@ = self.calls@.push(
                StorageCall::Rename {
                    old_path: texts(old_path@),
                    new_path: texts(new_path@),
                    moved,
                },
            );
        }
        moved
    }

    /// Hands an open on to the provider, and notes it with whether a file
    /// came back.
    pub fn open(&mut self, path: &Vec<String>, flags: u32) -> (opened: Result<F::Handle, ()>)
        ensures
            final(self).calls() == old(self).calls().push(
                StorageCall::Open { path: texts(path@), flags, opened: opened is Ok },
            ),
    {
        let opened = self.files.open(path, flags);
        proof {
            self.calls@ = self.calls@.push(
                StorageCall::Open { path: texts(path@), flags, opened: opened is Ok },
            );
        }
        opened
    }
}

} // verus!
