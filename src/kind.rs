//! Classification of directory entries by the file type that the file system reports.

use vstd::prelude::*;

verus! {

/// The type of a file system entry, as read from its own metadata.
#[derive(PartialEq, Eq, Structural, Clone, Copy, Debug)]
pub enum FileKind {
    File,
    Dir,
    Symlink,
    BlockDevice,
    CharDevice,
    Fifo,
    Socket,
    Other,
}

/// A file type that only some platforms know of.
#[derive(PartialEq, Eq, Structural, Clone, Copy, Debug)]
pub enum SpecialKind {
    BlockDevice,
    CharDevice,
    Fifo,
    Socket,
}

/// The answer to a question that a platform may be unable to ask.
#[derive(PartialEq, Eq, Structural, Clone, Copy, Debug)]
pub enum Support {
    Supported(bool),
    Unsupported,
}

/// The entry kind that stands for a special kind.
pub open spec fn special_as_kind(q: SpecialKind) -> FileKind {
    match q {
        SpecialKind::BlockDevice => FileKind::BlockDevice,
        SpecialKind::CharDevice => FileKind::CharDevice,
        SpecialKind::Fifo => FileKind::Fifo,
        SpecialKind::Socket => FileKind::Socket,
    }
}

impl FileKind {
    /// Whether the entry itself is a symbolic link.
    pub fn is_symlink(&self) -> (r: bool)
        ensures
            r == (*self == FileKind::Symlink),
    {
        match self {
            FileKind::Symlink => true,
            _ => false,
        }
    }

    /// Whether the entry is of kind `q`, on a platform that does (`platform_knows`)
    /// or does not tell such entries apart.
    pub fn is_special(&self, q: SpecialKind, platform_knows: bool) -> (r: Support)
        ensures
            !platform_knows ==> r == Support::Unsupported,
            platform_knows ==> r == Support::Supported(*self == special_as_kind(q)),
    {
        if !platform_knows {
            return Support::Unsupported;
        }
        let b = match q {
            SpecialKind::BlockDevice => matches!(self, FileKind::BlockDevice),
            SpecialKind::CharDevice => matches!(self, FileKind::CharDevice),
            SpecialKind::Fifo => matches!(self, FileKind::Fifo),
            SpecialKind::Socket => matches!(self, FileKind::Socket),
        };
        Support::Supported(b)
    }
}

} // verus!
