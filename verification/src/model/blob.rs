//! File content with content-addressed SHA-256 identifiers.
use vstd::prelude::*;

use sha2::{Digest, Sha256};

verus! {

/// The SHA-256 digest of `data`.
pub uninterp spec fn sha256_of(data: Seq<u8>) -> Seq<u8>;

/// SHA-256 of `data`, computed by `sha2::Sha256::digest`; the contract
/// claims only that the result is the digest of the argument (a function of
/// the bytes alone, 32 bytes long by its type).
#[verifier::external_body]
fn sha256(data: &[u8]) -> (r: [u8; 32])
    ensures
        r@ == sha256_of(data@),
{
    Sha256::digest(data).into()
}

/// `a` and `b` agree before index `i`, where `a` holds the smaller byte.
pub open spec fn bytes_lt_at(a: Seq<u8>, b: Seq<u8>, i: int) -> bool {
    0 <= i < a.len() && i < b.len() && a[i] < b[i] && forall|k: int| 0 <= k < i ==> a[k] == b[k]
}

/// Lexicographic order of equal-length byte strings.
pub open spec fn bytes_lt(a: Seq<u8>, b: Seq<u8>) -> bool {
    exists|i: int| bytes_lt_at(a, b, i)
}

/// No byte string precedes itself.
pub proof fn lemma_bytes_lt_irreflexive(a: Seq<u8>)
    ensures
        !bytes_lt(a, a),
{
}

/// The byte order is transitive.
pub proof fn lemma_bytes_lt_transitive(a: Seq<u8>, b: Seq<u8>, c: Seq<u8>)
    requires
        bytes_lt(a, b),
        bytes_lt(b, c),
    ensures
        bytes_lt(a, c),
{
    let i = choose|i: int| bytes_lt_at(a, b, i);
    let j = choose|j: int| bytes_lt_at(b, c, j);
    if i < j {
        assert(bytes_lt_at(a, c, i));
    } else if j < i {
        assert(bytes_lt_at(a, c, j));
    } else {
        assert(bytes_lt_at(a, c, i));
    }
}

/// Of two different byte strings of one length, exactly one precedes the
/// other.
pub proof fn lemma_bytes_lt_total(a: Seq<u8>, b: Seq<u8>)
    requires
        a.len() == b.len(),
    ensures
        a != b ==> (bytes_lt(a, b) || bytes_lt(b, a)),
        !(bytes_lt(a, b) && bytes_lt(b, a)),
{
    if a != b {
        assert(exists|i: int| 0 <= i < a.len() && a[i] != b[i]) by {
            if !(exists|i: int| 0 <= i < a.len() && a[i] != b[i]) {
                assert(a =~= b);
            }
        }
        let i0 = choose|i: int| 0 <= i < a.len() && a[i] != b[i];
        lemma_first_difference(a, b, i0);
    }
    if bytes_lt(a, b) && bytes_lt(b, a) {
        let i = choose|i: int| bytes_lt_at(a, b, i);
        let j = choose|j: int| bytes_lt_at(b, a, j);
        if i < j {
        } else if j < i {
        } else {
        }
    }
}

proof fn lemma_first_difference(a: Seq<u8>, b: Seq<u8>, i0: int)
    requires
        a.len() == b.len(),
        0 <= i0 < a.len(),
        a[i0] != b[i0],
    ensures
        bytes_lt(a, b) || bytes_lt(b, a),
    decreases i0,
{
    if exists|k: int| 0 <= k < i0 && a[k] != b[k] {
        let k = choose|k: int| 0 <= k < i0 && a[k] != b[k];
        lemma_first_difference(a, b, k);
    } else if a[i0] < b[i0] {
        assert(bytes_lt_at(a, b, i0));
    } else {
        assert(bytes_lt_at(b, a, i0));
    }
}

/// Lowercase hexadecimal digit for `d < 16`.
pub open spec fn hex_digit(d: u8) -> char {
    if d < 10 {
        (('0' as u8) + d) as char
    } else {
        (('a' as u8) + (d - 10)) as char
    }
}

/// Lowercase hexadecimal rendering of `bytes`, two digits per byte.
pub open spec fn hex_of(bytes: Seq<u8>) -> Seq<char> {
    Seq::new(
        2 * bytes.len(),
        |i: int|
            if i % 2 == 0 {
                hex_digit(bytes[i / 2] / 16)
            } else {
                hex_digit(bytes[i / 2] % 16)
            },
    )
}

/// Value of a hexadecimal digit (either case).
pub open spec fn hex_value(c: char) -> Option<u8> {
    if '0' <= c <= '9' {
        Some((c as u8 - '0' as u8) as u8)
    } else if 'a' <= c <= 'f' {
        Some((c as u8 - 'a' as u8 + 10) as u8)
    } else if 'A' <= c <= 'F' {
        Some((c as u8 - 'A' as u8 + 10) as u8)
    } else {
        None
    }
}

/// Value of a two-character radix-16 number as `u8::from_str_radix` reads
/// it: two hex digits, or `+` followed by one hex digit.
pub open spec fn hex_pair(a: char, b: char) -> Option<u8> {
    if a == '+' {
        hex_value(b)
    } else {
        match (hex_value(a), hex_value(b)) {
            (Some(x), Some(y)) => Some((16 * x + y) as u8),
            _ => None,
        }
    }
}

/// `s` spells 32 bytes as 64 characters, pair by pair.
pub open spec fn hex_parses(s: Seq<char>) -> bool {
    s.len() == 64 && forall|i: int| 0 <= i < 32 ==> (#[trigger] hex_pair(s[2 * i], s[2 * i + 1])) is Some
}

/// The bytes that a parsable `s` spells.
pub open spec fn hex_bytes(s: Seq<char>) -> Seq<u8> {
    Seq::new(32, |i: int| hex_pair(s[2 * i], s[2 * i + 1])->0)
}

fn hex_digit_char(d: u8) -> (c: char)
    requires
        d < 16,
    ensures
        c == hex_digit(d),
{
    if d < 10 {
        (48u8 + d) as char
    } else {
        (97u8 + (d - 10)) as char
    }
}

fn hex_value_exec(c: char) -> (r: Option<u8>)
    ensures
        r == hex_value(c),
{
    if '0' <= c && c <= '9' {
        Some((c as u8) - 48u8)
    } else if 'a' <= c && c <= 'f' {
        Some((c as u8) - 97u8 + 10)
    } else if 'A' <= c && c <= 'F' {
        Some((c as u8) - 65u8 + 10)
    } else {
        None
    }
}

fn hex_pair_exec(a: char, b: char) -> (r: Option<u8>)
    ensures
        r == hex_pair(a, b),
{
    if a == '+' {
        hex_value_exec(b)
    } else {
        match (hex_value_exec(a), hex_value_exec(b)) {
            (Some(x), Some(y)) => Some(16 * x + y),
            _ => None,
        }
    }
}

/// Content-addressed identifier of a [`Blob`]: the SHA-256 of its bytes.
#[derive(Clone, Copy, Debug, PartialEq, Eq, PartialOrd, Ord, Hash)]
pub struct BlobId([u8; 32]);

impl View for BlobId {
    type V = Seq<u8>;

    closed spec fn view(&self) -> Seq<u8> {
        self.0@
    }
}

impl BlobId {
    /// The bytes of an identifier always number 32.
    pub broadcast proof fn lemma_len(id: BlobId)
        ensures
            #[trigger] id@.len() == 32,
    {
    }

    /// Constructs an ID from raw 32 bytes.
    pub fn from_bytes(bytes: [u8; 32]) -> (r: BlobId)
        ensures
            r@ == bytes@,
    {
        BlobId(bytes)
    }

    /// Returns the raw 32 bytes of the ID.
    pub fn as_bytes(&self) -> (r: &[u8; 32])
        ensures
            r@ == self@,
    {
        &self.0
    }

    /// Whether two identifiers hold the same bytes.
    pub fn same_as(&self, other: &BlobId) -> (r: bool)
        ensures
            r == (self@ == other@),
    {
        let mut i: usize = 0;
        while i < 32
            invariant
                i <= 32,
                self.0@.len() == 32,
                other.0@.len() == 32,
                forall|k: int| 0 <= k < i ==> self.0@[k] == other.0@[k],
            decreases 32 - i,
        {
            if self.0[i] != other.0[i] {
                return false;
            }
            i = i + 1;
        }
        assert(self.0@ =~= other.0@);
        true
    }

    /// Whether `self` orders before `other` (bytewise, as `Ord` orders).
    pub fn precedes(&self, other: &BlobId) -> (r: bool)
        ensures
            r == bytes_lt(self@, other@),
    {
        let mut i: usize = 0;
        while i < 32
            invariant
                i <= 32,
                self.0@.len() == 32,
                other.0@.len() == 32,
                forall|k: int| 0 <= k < i ==> self.0@[k] == other.0@[k],
            decreases 32 - i,
        {
            if self.0[i] != other.0[i] {
                assert(bytes_lt_at(self.0@, other.0@, i as int) || bytes_lt_at(other.0@, self.0@, i as int));
                if self.0[i] < other.0[i] {
                    assert(bytes_lt_at(self.0@, other.0@, i as int));
                    return true;
                } else {
                    assert(!bytes_lt(self.0@, other.0@)) by {
                        if bytes_lt(self.0@, other.0@) {
                            let j = choose|j: int| bytes_lt_at(self.0@, other.0@, j);
                            if j < i {
                            } else if j > i {
                                assert(self.0@[i as int] == other.0@[i as int]);
                            }
                        }
                    }
                    return false;
                }
            }
            i = i + 1;
        }
        assert(!bytes_lt(self.0@, other.0@)) by {
            if bytes_lt(self.0@, other.0@) {
                let j = choose|j: int| bytes_lt_at(self.0@, other.0@, j);
                assert(self.0@[j] == other.0@[j]);
            }
        }
        false
    }

    /// Renders the ID as a lowercase 64-character hex string.
    pub fn to_hex(&self) -> (r: String)
        ensures
            r@ == hex_of(self@),
            r@.len() == 64,
    {
        let mut out: Vec<char> = Vec::new();
        let mut i: usize = 0;
        while i < 32
            invariant
                i <= 32,
                self.0@.len() == 32,
                out@ =~= hex_of(self.0@.subrange(0, i as int)),
            decreases 32 - i,
        {
            let b = self.0[i];
            out.push(hex_digit_char(b / 16));
            out.push(hex_digit_char(b % 16));
            i = i + 1;
            assert(out@ =~= hex_of(self.0@.subrange(0, i as int)));
        }
        assert(self.0@.subrange(0, 32) =~= self.0@);
        crate::text::string_of(&out)
    }

    /// Parses the 64-character hexadecimal form of an ID, as the serialized
    /// form of a blob ID is read back.
    pub fn from_hex(s: &str) -> (r: Option<BlobId>)
        ensures
            r is Some <==> hex_parses(s@),
            r matches Some(id) ==> id@ == hex_bytes(s@),
    {
        let v = crate::text::chars_of(s);
        if v.len() != 64 {
            return None;
        }
        let mut bytes = [0u8; 32];
        let mut i: usize = 0;
        while i < 32
            invariant
                i <= 32,
                v@ == s@,
                v@.len() == 64,
                bytes@.len() == 32,
                forall|k: int| 0 <= k < i ==> (#[trigger] hex_pair(v@[2 * k], v@[2 * k + 1])) is Some
                    && bytes@[k] == hex_pair(v@[2 * k], v@[2 * k + 1])->0,
            decreases 32 - i,
        {
            match hex_pair_exec(v[2 * i], v[2 * i + 1]) {
                Some(b) => {
                    bytes[i] = b;
                },
                None => {
                    return None;
                },
            }
            i = i + 1;
        }
        let id = BlobId(bytes);
        assert(id@ =~= hex_bytes(s@));
        Some(id)
    }
}

/// Immutable file content together with its content-addressed hash.
#[derive(Debug)]
pub struct Blob {
    hash: BlobId,
    content: Vec<u8>,
}

impl Blob {
    #[verifier::type_invariant]
    spec fn inv(self) -> bool {
        self.hash@ == sha256_of(self.content@)
    }

    /// The content bytes of the blob.
    pub closed spec fn bytes(self) -> Seq<u8> {
        self.content@
    }

    /// Creates a blob, computing the SHA-256 content hash.
    pub fn new(content: Vec<u8>) -> (r: Blob)
        ensures
            r.bytes() == content@,
    {
        let hash = BlobId(sha256(content.as_slice()));
        Blob { hash, content }
    }

    /// Creates a blob from a copy of the given bytes.
    pub fn from_bytes(content: &[u8]) -> (r: Blob)
        ensures
            r.bytes() == content@,
    {
        Blob::new(vstd::slice::slice_to_vec(content))
    }

    /// A blob of `content` claimed to hash to `hash`, as a serialized blob is
    /// read back: `None` when the claim is false (the content was tampered
    /// with, or the hash).
    pub fn with_hash(hash: &BlobId, content: Vec<u8>) -> (r: Option<Blob>)
        ensures
            match r {
                Some(b) => b.bytes() == content@ && sha256_of(content@) == hash@,
                None => sha256_of(content@) != hash@,
            },
    {
        let blob = Blob::new(content);
        let h = blob.hash();
        if h.same_as(hash) {
            Some(blob)
        } else {
            None
        }
    }

    /// Returns the content-addressed hash.
    pub fn hash(&self) -> (r: BlobId)
        ensures
            r@ == sha256_of(self.bytes()),
    {
        proof {
            use_type_invariant(self);
        }
        self.hash
    }

    /// Returns the content bytes.
    pub fn content(&self) -> (r: &[u8])
        ensures
            r@ == self.bytes(),
    {
        self.content.as_slice()
    }

    /// Returns the number of content bytes.
    pub fn len(&self) -> (r: usize)
        ensures
            r == self.bytes().len(),
    {
        self.content.len()
    }

    /// Returns `true` if the blob has no content.
    pub fn is_empty(&self) -> (r: bool)
        ensures
            r == (self.bytes().len() == 0),
    {
        self.content.len() == 0
    }
}

impl Clone for Blob {
    fn clone(&self) -> (r: Self)
        ensures
            r.bytes() == self.bytes(),
    {
        proof {
            use_type_invariant(self);
        }
        let content = self.content.clone();
        assert(content@ =~= self.content@);
        Blob { hash: self.hash, content }
    }
}

impl PartialEq for Blob {
    fn eq(&self, other: &Self) -> (r: bool) {
        proof {
            use_type_invariant(self);
            use_type_invariant(other);
        }
        self.hash.same_as(&other.hash)
    }
}

impl vstd::std_specs::cmp::PartialEqSpecImpl for Blob {
    open spec fn obeys_eq_spec() -> bool {
        true
    }

    open spec fn eq_spec(&self, other: &Self) -> bool {
        sha256_of(self.bytes()) == sha256_of(other.bytes())
    }
}

impl Eq for Blob {
}

/// Blobs made from the same bytes have the same hash: the hash depends on
/// the content alone.
pub proof fn lemma_hash_is_stable(a: Blob, b: Blob)
    requires
        a.bytes() == b.bytes(),
    ensures
        sha256_of(a.bytes()) == sha256_of(b.bytes()),
{
}

} // verus!
