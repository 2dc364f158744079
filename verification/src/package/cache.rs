//! Decisions of cache writes: how an I/O failure is reported, and how long a
//! writer waits for the lock held by another.
use vstd::prelude::*;

use crate::package::error::{Failure, PackageError};
use crate::text::{chars_of, string_of};

verus! {

/// How many times a writer retries a busy lock (200 ms apart) before it
/// gives up.
pub const LOCK_RETRIES: u32 = 60;

/// The error for an I/O failure at `path`: a refused permission is reported
/// with a hint, anything else as a cache I/O error.
pub fn map_io_err(path: &str, permission_denied: bool, cause: &str) -> (r: PackageError)
    ensures
        r@ == if permission_denied { Failure::Permission(path@, cause@) } else { Failure::Io(path@, cause@) },
{
    if permission_denied {
        PackageError::Permission { path: string_of(&chars_of(path)), cause: string_of(&chars_of(cause)) }
    } else {
        PackageError::Io { path: string_of(&chars_of(path)), cause: string_of(&chars_of(cause)) }
    }
}

/// How an attempt to take the cache lock went.
#[derive(Debug, Clone, Copy, PartialEq, Eq, Structural)]
pub enum LockAttempt {
    Acquired,
    WouldBlock,
    Failed,
}

/// What a writer does after an attempt to take the cache lock.
#[derive(Debug, Clone, Copy, PartialEq, Eq, Structural)]
pub enum LockStep {
    /// The lock is held: write the entry.
    Proceed,
    /// Wait and try again (first checking whether another writer finished).
    Retry,
    /// Give up with an I/O error.
    Fail,
}

/// After `waited` retries, what a lock attempt leads to: a busy lock is
/// retried until [`LOCK_RETRIES`] waits have passed.
pub open spec fn lock_step_of(attempt: LockAttempt, waited: u32) -> LockStep {
    match attempt {
        LockAttempt::Acquired => LockStep::Proceed,
        LockAttempt::WouldBlock => if waited < LOCK_RETRIES { LockStep::Retry } else { LockStep::Fail },
        LockAttempt::Failed => LockStep::Fail,
    }
}

/// What to do after an attempt to take the cache lock.
pub fn after_lock_attempt(attempt: LockAttempt, waited: u32) -> (r: LockStep)
    ensures
        r == lock_step_of(attempt, waited),
{
    match attempt {
        LockAttempt::Acquired => LockStep::Proceed,
        LockAttempt::WouldBlock => if waited < LOCK_RETRIES { LockStep::Retry } else { LockStep::Fail },
        LockAttempt::Failed => LockStep::Fail,
    }
}

} // verus!
