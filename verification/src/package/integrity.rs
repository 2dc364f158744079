//! The checks a downloaded archive must pass before it is extracted: npm's
//! `sha512-<base64>` integrity, npm's `shasum` sanity check, and PyPI's
//! SHA-256 digest.
use vstd::prelude::*;

use base64::Engine as _;
use sha2::{Digest, Sha512};

use crate::model::blob::{hex_of, sha256_of, Blob};
use crate::package::error::{Failure, PackageError};
use crate::text::{chars_eq, chars_of, has_prefix, starts_with, string_of, sub_chars, trim, trim_chars};

verus! {

/// The SHA-512 digest of `data` (as `sha2::Sha512` computes it).
pub uninterp spec fn sha512_of(data: Seq<u8>) -> Seq<u8>;

/// The bytes that standard, padded base64 text decodes to, if it is valid
/// (as `base64::engine::general_purpose::STANDARD` decodes it).
pub uninterp spec fn base64_decoded(text: Seq<char>) -> Option<Seq<u8>>;

/// SHA-512 of `data`, computed by `sha2::Sha512::digest`; the contract
/// claims that the result is the digest of the argument and, by the digest
/// type, 64 bytes long.
#[verifier::external_body]
fn sha512(data: &[u8]) -> (r: Vec<u8>)
    ensures
        r@ == sha512_of(data@),
        r@.len() == 64,
{
    Sha512::digest(data).to_vec()
}

/// Decodes standard base64 text with `general_purpose::STANDARD.decode`;
/// the contract claims that the result, `None` where the crate reports an
/// error, is what the text decodes to.
#[verifier::external_body]
fn base64_decode(text: &str) -> (r: Option<Vec<u8>>)
    ensures
        match r {
            Some(v) => base64_decoded(text@) == Some(v@),
            None => base64_decoded(text@) is None,
        },
{
    base64::engine::general_purpose::STANDARD.decode(text).ok()
}

/// What an npm integrity string asks to be checked.
#[derive(Debug)]
pub enum IntegrityCheck {
    /// Nothing is checked (not a `sha512-` integrity).
    Skip,
    /// The archive's SHA-512 digest must be these bytes.
    Sha512(Vec<u8>),
}

/// The check an integrity string asks for, or `None` when it is a
/// `sha512-` integrity whose digest is not valid base64.
pub open spec fn integrity_expectation(integrity: Seq<char>) -> Option<Option<Seq<u8>>> {
    if has_prefix(integrity, "sha512-"@) {
        match base64_decoded(trim(integrity.subrange(7, integrity.len() as int))) {
            Some(d) => Some(Some(d)),
            None => None,
        }
    } else {
        Some(None)
    }
}

/// Turns a decoded digest into the check it asks for; a digest that did not
/// decode fails the integrity check of `name@version`.
pub fn integrity_from_decoded(decoded: Option<Vec<u8>>, name: &str, version: &str) -> (r: Result<IntegrityCheck, PackageError>)
    ensures
        match r {
            Ok(IntegrityCheck::Sha512(d)) => decoded == Some(d),
            Ok(IntegrityCheck::Skip) => false,
            Err(e) => decoded is None && e@ == Failure::Integrity(name@, version@),
        },
{
    match decoded {
        Some(d) => Ok(IntegrityCheck::Sha512(d)),
        None => Err(PackageError::Integrity { name: string_of(&chars_of(name)), version: string_of(&chars_of(version)) }),
    }
}

/// Reads an npm integrity string: `sha512-<base64>` asks for a SHA-512
/// check (and fails the integrity of `name@version` when the digest is not
/// valid base64); any other integrity is skipped.
pub fn npm_integrity_check(integrity: &str, name: &str, version: &str) -> (r: Result<IntegrityCheck, PackageError>)
    ensures
        match r {
            Ok(IntegrityCheck::Sha512(d)) => integrity_expectation(integrity@) == Some(Some(d@)),
            Ok(IntegrityCheck::Skip) => integrity_expectation(integrity@) == Some(None::<Seq<u8>>),
            Err(e) => integrity_expectation(integrity@) is None && e@ == Failure::Integrity(name@, version@),
        },
{
    proof {
        reveal_strlit("sha512-");
    }
    let v = chars_of(integrity);
    if !starts_with(&v, &chars_of("sha512-")) {
        return Ok(IntegrityCheck::Skip);
    }
    let rest = trim_chars(&sub_chars(&v, 7, v.len()));
    let decoded = base64_decode(string_of(&rest).as_str());
    integrity_from_decoded(decoded, name, version)
}

/// Compares a computed digest with the expected one; a mismatch fails the
/// integrity check of `name@version`.
pub fn digest_matches(actual: &[u8], expected: &[u8], name: &str, version: &str) -> (r: Result<(), PackageError>)
    ensures
        match r {
            Ok(()) => actual@ == expected@,
            Err(e) => actual@ != expected@ && e@ == Failure::Integrity(name@, version@),
        },
{
    if actual.len() != expected.len() {
        return Err(PackageError::Integrity { name: string_of(&chars_of(name)), version: string_of(&chars_of(version)) });
    }
    let mut i: usize = 0;
    while i < actual.len()
        invariant
            actual@.len() == expected@.len(),
            i <= actual@.len(),
            forall|k: int| 0 <= k < i ==> actual@[k] == expected@[k],
        decreases actual@.len() - i,
    {
        if actual[i] != expected[i] {
            assert(actual@[i as int] != expected@[i as int]);
            return Err(PackageError::Integrity { name: string_of(&chars_of(name)), version: string_of(&chars_of(version)) });
        }
        i = i + 1;
    }
    assert(actual@ =~= expected@);
    Ok(())
}

/// Checks that `data` has the SHA-512 digest `expected`.
pub fn verify_sha512(data: &[u8], expected: &[u8], name: &str, version: &str) -> (r: Result<(), PackageError>)
    ensures
        match r {
            Ok(()) => sha512_of(data@) == expected@,
            Err(e) => sha512_of(data@) != expected@ && e@ == Failure::Integrity(name@, version@),
        },
{
    let actual = sha512(data);
    digest_matches(&actual, expected, name, version)
}

/// npm's `shasum` sanity check: a 40-byte shasum with an empty download
/// fails; nothing more is checked.
pub fn verify_npm_shasum(shasum: &str, data_len: usize, name: &str, version: &str) -> (r: Result<(), PackageError>)
    ensures
        match r {
            Ok(()) => !(vstd::utf8::encode_utf8(shasum@).len() as usize == 40 && data_len == 0),
            Err(e) => vstd::utf8::encode_utf8(shasum@).len() as usize == 40 && data_len == 0 && e@ == Failure::Integrity(name@, version@),
        },
{
    if shasum.len() == 40 && data_len == 0 {
        return Err(PackageError::Integrity { name: string_of(&chars_of(name)), version: string_of(&chars_of(version)) });
    }
    Ok(())
}

/// PyPI's check: the lowercase hexadecimal SHA-256 of `data` must equal
/// `expected`.
pub fn verify_sha256_hex(data: &[u8], expected: &str, name: &str, version: &str) -> (r: Result<(), PackageError>)
    ensures
        match r {
            Ok(()) => hex_of(sha256_of(data@)) == expected@,
            Err(e) => hex_of(sha256_of(data@)) != expected@ && e@ == Failure::Integrity(name@, version@),
        },
{
    let blob = Blob::from_bytes(data);
    let actual = blob.hash().to_hex();
    if chars_eq(&chars_of(actual.as_str()), &chars_of(expected)) {
        Ok(())
    } else {
        Err(PackageError::Integrity { name: string_of(&chars_of(name)), version: string_of(&chars_of(version)) })
    }
}

} // verus!
