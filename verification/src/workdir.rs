//! How snapshot files are laid out in a directory, and read back: where each
//! file goes and what is written for its mode.
use vstd::prelude::*;

use crate::model::mode::FileMode;
use crate::model::path::RepoPath;
use crate::package::layout::{join_path, path_joined};

verus! {

/// What writing one snapshot file into a directory does.
#[derive(Debug, Clone, Copy, PartialEq, Eq, Structural)]
pub enum WriteAction {
    /// Write the content as a file; `executable` sets mode `0o755`.
    File { executable: bool },
    /// Create a symbolic link to the content.
    Symlink,
    /// Refuse: gitlink (submodule) entries cannot be written.
    Unsupported,
}

/// The action for a file of mode `mode`.
pub open spec fn action_for(mode: FileMode) -> WriteAction {
    match mode {
        FileMode::File => WriteAction::File { executable: false },
        FileMode::Executable => WriteAction::File { executable: true },
        FileMode::Symlink => WriteAction::Symlink,
        FileMode::Gitlink => WriteAction::Unsupported,
    }
}

/// What writing a file of mode `mode` does.
pub fn write_action(mode: FileMode) -> (r: WriteAction)
    ensures
        r == action_for(mode),
{
    match mode {
        FileMode::File => WriteAction::File { executable: false },
        FileMode::Executable => WriteAction::File { executable: true },
        FileMode::Symlink => WriteAction::Symlink,
        FileMode::Gitlink => WriteAction::Unsupported,
    }
}

/// Where the file at `path` is written under `dir`.
pub fn target_path(dir: &str, path: &RepoPath) -> (r: String)
    ensures
        r@ == path_joined(dir@, path@),
{
    join_path(dir, path.as_str())
}

/// The path of a tree entry named `name` inside the tree at `prefix` (the
/// root when `prefix` is empty).
pub open spec fn child_path_of(prefix: Seq<char>, name: Seq<char>) -> Seq<char> {
    if prefix.len() == 0 {
        name
    } else {
        prefix + seq!['/'] + name
    }
}

/// The path of a tree entry named `name` inside the tree at `prefix`.
pub fn child_path(prefix: &str, name: &str) -> (r: String)
    ensures
        r@ == child_path_of(prefix@, name@),
{
    let p = crate::text::chars_of(prefix);
    let n = crate::text::chars_of(name);
    if p.len() == 0 {
        return crate::text::string_of(&n);
    }
    let mut v = p;
    v.push('/');
    crate::text::string_of(&crate::text::concat_chars(&v, &n))
}

} // verus!

verus! {

/// The mode of a regular or executable file survives writing it out and
/// reading it back: an executable file is written with mode `0o755`, which
/// reads as executable, and a regular file is written without execute bits,
/// which reads as regular.
pub proof fn lemma_file_mode_round_trip(mode: FileMode, written_bits: u32)
    requires
        mode == FileMode::File || mode == FileMode::Executable,
        action_for(mode) == (WriteAction::File { executable: true }) ==> written_bits == 0o755,
        action_for(mode) == (WriteAction::File { executable: false }) ==> written_bits & 0o111u32 == 0,
    ensures
        crate::model::mode::mode_of_bits(written_bits) == mode,
{
    assert(0o755u32 & 0o111u32 != 0) by (bit_vector);
}

} // verus!
