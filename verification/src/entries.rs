//! Keyed entries: maps given as lists of `(key, value)` pairs, looked up by
//! their first entry for a key.
use vstd::prelude::*;

use crate::text::{chars_eq, chars_of};

verus! {

/// The value of the first entry whose key is `key`.
pub open spec fn lookup<V>(entries: Seq<(String, V)>, key: Seq<char>) -> Option<V>
    decreases entries.len(),
{
    if entries.len() == 0 {
        None
    } else if entries[0].0@ == key {
        Some(entries[0].1)
    } else {
        lookup(entries.drop_first(), key)
    }
}

/// Index of the first entry whose key is `key`.
pub fn find_key<V>(entries: &Vec<(String, V)>, key: &[char]) -> (r: Option<usize>)
    ensures
        match r {
            Some(i) => i < entries@.len() && lookup(entries@, key@) == Some(entries@[i as int].1),
            None => lookup(entries@, key@) is None,
        },
{
    let n = entries.len();
    let mut i: usize = 0;
    assert(entries@.subrange(0, n as int) =~= entries@);
    while i < n
        invariant
            n == entries@.len(),
            i <= n,
            lookup(entries@, key@) == lookup(entries@.subrange(i as int, n as int), key@),
        decreases n - i,
    {
        let ghost rest = entries@.subrange(i as int, n as int);
        assert(rest[0] == entries@[i as int]);
        if chars_eq(&chars_of(entries[i].0.as_str()), key) {
            return Some(i);
        }
        assert(rest.drop_first() =~= entries@.subrange(i + 1, n as int));
        i = i + 1;
    }
    None
}

} // verus!
