//! The configuration of a buffered file opener, consumed by a single open.

use vstd::prelude::*;
use crate::path::PurePath;

verus! {

/// How the file is to be opened.
#[derive(PartialEq, Eq, Structural, Clone, Copy, Debug)]
pub enum OpenMode {
    /// Read an existing file.
    Read,
    /// Write a file, created if missing and emptied if present.
    Write,
    /// Write at the end of a file, created if missing.
    Append,
    /// Read and write an existing file.
    ReadWrite,
}

/// The options handed to the file system when the file is opened.
#[derive(PartialEq, Eq, Structural, Clone, Copy, Debug)]
pub struct AccessFlags {
    pub read: bool,
    pub write: bool,
    pub append: bool,
    pub create: bool,
    pub truncate: bool,
}

/// The flags that each mode asks for.
pub open spec fn flags_of(m: OpenMode) -> AccessFlags {
    match m {
        OpenMode::Read => AccessFlags { read: true, write: false, append: false, create: false, truncate: false },
        OpenMode::Write => AccessFlags { read: false, write: true, append: false, create: true, truncate: true },
        OpenMode::Append => AccessFlags { read: false, write: false, append: true, create: true, truncate: false },
        OpenMode::ReadWrite => AccessFlags { read: true, write: true, append: false, create: false, truncate: false },
    }
}

/// A deferred open: the target, the mode, and the buffer capacity (negative
/// for the system default).
pub struct ConcretePathOpen {
    pub path: PurePath,
    pub mode: OpenMode,
    pub buffering: isize,
}

impl ConcretePathOpen {
    /// Reading, with the default buffer.
    pub fn new(path: PurePath) -> (r: ConcretePathOpen)
        ensures
            r.path@ == path@,
            r.mode == OpenMode::Read,
            r.buffering == -1,
    {
        ConcretePathOpen { path, mode: OpenMode::Read, buffering: -1 }
    }

    /// The same configuration with buffer capacity `i_buffering` (negative: the default).
    pub fn buffering(self, i_buffering: isize) -> (r: ConcretePathOpen)
        ensures
            r.path@ == self.path@,
            r.mode == self.mode,
            r.buffering == i_buffering,
    {
        ConcretePathOpen { path: self.path, mode: self.mode, buffering: i_buffering }
    }

    /// The same configuration with mode `m`.
    pub fn mode(self, m: OpenMode) -> (r: ConcretePathOpen)
        ensures
            r.path@ == self.path@,
            r.mode == m,
            r.buffering == self.buffering,
    {
        ConcretePathOpen { path: self.path, mode: m, buffering: self.buffering }
    }

    /// The explicit buffer capacity, or none for the system default.
    pub fn capacity(&self) -> (r: Option<usize>)
        ensures
            self.buffering < 0 ==> r is None,
            self.buffering >= 0 ==> r == Some(self.buffering as usize),
    {
        if self.buffering < 0 {
            None
        } else {
            Some(self.buffering as usize)
        }
    }

    /// The file-system options for the configured mode.
    pub fn access(&self) -> (r: AccessFlags)
        ensures
            r == flags_of(self.mode),
    {
        match self.mode {
            OpenMode::Read => AccessFlags { read: true, write: false, append: false, create: false, truncate: false },
            OpenMode::Write => AccessFlags { read: false, write: true, append: false, create: true, truncate: true },
            OpenMode::Append => AccessFlags { read: false, write: false, append: true, create: true, truncate: false },
            OpenMode::ReadWrite => AccessFlags { read: true, write: true, append: false, create: false, truncate: false },
        }
    }
}

} // verus!
