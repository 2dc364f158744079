//! Errors of the repository model.
use vstd::prelude::*;

use crate::text::{chars_of, concat_chars, digit, string_of};

verus! {

/// Errors produced by the repository model.
#[derive(Debug)]
pub enum Error {
    /// A repository path violates the path invariants (the path and the reason).
    InvalidPath(String, &'static str),
    /// A git-style mode integer has no representation in `FileMode`.
    UnsupportedMode(u32),
    /// A commit ID is not usable (it is empty).
    InvalidCommitId(String),
}

/// Octal rendering of `n`, as `format!("{n:o}")` writes it.
pub open spec fn octal(n: nat) -> Seq<char>
    decreases n,
{
    if n < 8 {
        seq![digit(n)]
    } else {
        octal(n / 8).push(digit(n % 8))
    }
}

fn octal_chars(n: u32) -> (r: Vec<char>)
    ensures
        r@ == octal(n as nat),
    decreases n,
{
    let d = n % 8;
    let c = if d == 0 { '0' } else if d == 1 { '1' } else if d == 2 { '2' } else if d == 3 { '3' }
        else if d == 4 { '4' } else if d == 5 { '5' } else if d == 6 { '6' } else { '7' };
    assert(c == digit((n % 8) as nat));
    if n < 8 {
        let v = vec![c];
        assert(v@ =~= seq![digit(n as nat)]);
        v
    } else {
        let mut v = octal_chars(n / 8);
        v.push(c);
        v
    }
}

/// The text an error of the repository model is reported with.
pub open spec fn error_message(e: Error) -> Seq<char> {
    match e {
        Error::InvalidPath(path, reason) => "invalid repository path `"@ + path@ + "`: "@ + reason@,
        Error::UnsupportedMode(mode) => "unsupported file mode 0o"@ + octal(mode as nat),
        Error::InvalidCommitId(id) => "invalid commit id `"@ + id@ + "`: must not be empty"@,
    }
}

impl Error {
    /// The text this error is reported with.
    pub fn message(&self) -> (r: String)
        ensures
            r@ == error_message(*self),
    {
        let v = match self {
            Error::InvalidPath(path, reason) => concat_chars(
                &concat_chars(&concat_chars(&chars_of("invalid repository path `"), &chars_of(path.as_str())), &chars_of("`: ")),
                &chars_of(reason),
            ),
            Error::UnsupportedMode(mode) => concat_chars(&chars_of("unsupported file mode 0o"), &octal_chars(*mode)),
            Error::InvalidCommitId(id) => concat_chars(
                &concat_chars(&chars_of("invalid commit id `"), &chars_of(id.as_str())),
                &chars_of("`: must not be empty"),
            ),
        };
        string_of(&v)
    }
}

} // verus!
