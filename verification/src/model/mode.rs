//! File modes, mirroring the four git tree modes that RepoSync handles.
use vstd::prelude::*;

verus! {

/// The mode of a file entry.
#[derive(Clone, Copy, Debug, PartialEq, Eq, Structural, PartialOrd, Ord, Hash)]
pub enum FileMode {
    /// A regular non-executable file (git mode `100644`).
    File,
    /// An executable file (git mode `100755`).
    Executable,
    /// A symbolic link (git mode `120000`).
    Symlink,
    /// A gitlink/submodule reference (git mode `160000`).
    Gitlink,
}

/// Git mode integer of a regular file.
pub const MODE_FILE: u32 = 0o100_644;
/// Git mode integer of an executable file.
pub const MODE_EXECUTABLE: u32 = 0o100_755;
/// Git mode integer of a symbolic link.
pub const MODE_SYMLINK: u32 = 0o120_000;
/// Git mode integer of a gitlink (submodule).
pub const MODE_GITLINK: u32 = 0o160_000;

/// The git mode integer of each mode.
pub open spec fn git_mode_of(mode: FileMode) -> u32 {
    match mode {
        FileMode::File => MODE_FILE,
        FileMode::Executable => MODE_EXECUTABLE,
        FileMode::Symlink => MODE_SYMLINK,
        FileMode::Gitlink => MODE_GITLINK,
    }
}

/// Rank of a mode in the declaration order, which is the order `Ord` gives.
pub open spec fn mode_rank(mode: FileMode) -> int {
    match mode {
        FileMode::File => 0,
        FileMode::Executable => 1,
        FileMode::Symlink => 2,
        FileMode::Gitlink => 3,
    }
}

impl FileMode {
    /// Git mode integer for a regular file.
    pub const FILE: u32 = 0o100_644;
    /// Git mode integer for an executable file.
    pub const EXECUTABLE: u32 = 0o100_755;
    /// Git mode integer for a symbolic link.
    pub const SYMLINK: u32 = 0o120_000;
    /// Git mode integer for a gitlink (submodule).
    pub const GITLINK: u32 = 0o160_000;

    /// Converts the mode to its git mode integer.
    pub fn to_u32(self) -> (r: u32)
        ensures
            r == git_mode_of(self),
    {
        match self {
            FileMode::File => MODE_FILE,
            FileMode::Executable => MODE_EXECUTABLE,
            FileMode::Symlink => MODE_SYMLINK,
            FileMode::Gitlink => MODE_GITLINK,
        }
    }

    /// Converts a git mode integer to a mode, if it is one of the four known.
    pub fn from_u32(mode: u32) -> (r: Option<FileMode>)
        ensures
            match r {
                Some(m) => git_mode_of(m) == mode,
                None => mode != MODE_FILE && mode != MODE_EXECUTABLE && mode != MODE_SYMLINK
                    && mode != MODE_GITLINK,
            },
    {
        if mode == MODE_FILE {
            Some(FileMode::File)
        } else if mode == MODE_EXECUTABLE {
            Some(FileMode::Executable)
        } else if mode == MODE_SYMLINK {
            Some(FileMode::Symlink)
        } else if mode == MODE_GITLINK {
            Some(FileMode::Gitlink)
        } else {
            None
        }
    }

    /// Whether `self` comes before `other` in declaration order.
    pub fn precedes(self, other: FileMode) -> (r: bool)
        ensures
            r == (mode_rank(self) < mode_rank(other)),
    {
        let a: u8 = match self {
            FileMode::File => 0,
            FileMode::Executable => 1,
            FileMode::Symlink => 2,
            FileMode::Gitlink => 3,
        };
        let b: u8 = match other {
            FileMode::File => 0,
            FileMode::Executable => 1,
            FileMode::Symlink => 2,
            FileMode::Gitlink => 3,
        };
        a < b
    }
}

/// Converting a mode to its git integer and back gives the mode again: no
/// two modes share a git integer, so `from_u32(to_u32(m)) == Some(m)`.
pub proof fn lemma_mode_round_trip(a: FileMode, b: FileMode)
    ensures
        git_mode_of(a) == git_mode_of(b) ==> a == b,
{
}

/// The mode of a regular file with the Unix permission bits `bits`:
/// executable when any execute bit is set.
pub open spec fn mode_of_bits(bits: u32) -> FileMode {
    if bits & 0o111 != 0 {
        FileMode::Executable
    } else {
        FileMode::File
    }
}

/// The mode a regular file gets from its Unix permission bits: executable
/// when any execute bit is set.
pub fn mode_from_permissions(bits: u32) -> (r: FileMode)
    ensures
        r == mode_of_bits(bits),
{
    if bits & 0o111 != 0 {
        FileMode::Executable
    } else {
        FileMode::File
    }
}

} // verus!
