//! Fixed-width digest values, the difficulty predicate used by proof-of-work,
//! and the one call into the outside hash primitive.

use vstd::prelude::*;

use sha3::Digest;

verus! {

/// Number of bytes in a digest value.
pub const HASH_LEN: usize = 32;

/// A fixed-width 256-bit digest value. Wraps the raw bytes; equality is
/// byte-for-byte equality.
#[derive(Clone, Copy, Debug)]
pub struct Hash([u8; HASH_LEN]);

impl View for Hash {
    type V = Seq<u8>;

    closed spec fn view(&self) -> Seq<u8> {
        self.0@
    }
}

/// Every digest value holds exactly `HASH_LEN` bytes.
pub broadcast proof fn lemma_hash_len(h: Hash)
    ensures
        (#[trigger] h@).len() == HASH_LEN,
{
}

/// What the outside hash primitive returns on a given byte string. It is a
/// deterministic function of the input bytes alone; nothing further is
/// assumed of it here.
pub uninterp spec fn digest_of(message: Seq<u8>) -> Seq<u8>;

/// Relies on `sha3::Sha3_256` through `Digest::digest`: the digest is a pure,
/// deterministic function of the input bytes, 32 bytes long.
#[verifier::external_body]
fn sha3_256_digest(message: &[u8]) -> (r: [u8; HASH_LEN])
    ensures
        r@ == digest_of(message@),
{
    let output = sha3::Sha3_256::digest(message);
    let mut bytes = [0u8; HASH_LEN];
    bytes.copy_from_slice(output.as_slice());
    bytes
}

/// True iff the first `level` bytes of the digest are all zero. A level
/// larger than the digest itself can never be met.
pub open spec fn spec_difficulty_verified(digest: Seq<u8>, level: int) -> bool {
    level <= digest.len() && (forall|i: int| 0 <= i < level ==> digest[i] == 0u8)
}

/// Difficulty is monotone: a digest that meets difficulty `level` meets
/// every lower difficulty as well.
pub proof fn lemma_difficulty_monotonic(digest: Seq<u8>, level: int, lower_level: int)
    requires
        spec_difficulty_verified(digest, level),
        0 <= lower_level <= level,
    ensures
        spec_difficulty_verified(digest, lower_level),
{
}

impl Hash {
    /// Construct a digest value from known bytes (the genesis parent and the
    /// system account identifier are built this way).
    pub fn raw(hash_value: [u8; HASH_LEN]) -> (h: Hash)
        ensures
            h@ == hash_value@,
    {
        Hash(hash_value)
    }

    /// Digest an arbitrary byte string with the outside hash primitive.
    pub fn new(message: &[u8]) -> (h: Hash)
        ensures
            h@ == digest_of(message@),
    {
        Hash(sha3_256_digest(message))
    }

    /// The digest's bytes, in order, as a fresh vector.
    pub fn to_vec(&self) -> (v: Vec<u8>)
        ensures
            v@ == self@,
    {
        let mut v: Vec<u8> = Vec::new();
        let mut i: usize = 0;
        while i < HASH_LEN
            invariant
                0 <= i <= HASH_LEN,
                v@ == self.0@.take(i as int),
            decreases HASH_LEN - i,
        {
            v.push(self.0[i]);
            proof {
                assert(self.0@.take(i + 1 as int) =~= self.0@.take(i as int).push(self.0@[i as int]));
            }
            i = i + 1;
        }
        proof {
            assert(self.0@.take(HASH_LEN as int) =~= self.0@);
        }
        v
    }

    /// True iff the digest's first `difficulty_level` bytes are all zero;
    /// difficulty 0 always passes.
    pub fn difficulty_verified(&self, difficulty_level: usize) -> (r: bool)
        ensures
            r == spec_difficulty_verified(self@, difficulty_level as int),
    {
        if difficulty_level > HASH_LEN {
            return false;
        }
        let mut i: usize = 0;
        while i < difficulty_level
            invariant
                0 <= i <= difficulty_level <= HASH_LEN,
                forall|j: int| 0 <= j < i ==> self@[j] == 0u8,
            decreases difficulty_level - i,
        {
            if self.0[i] != 0u8 {
                return false;
            }
            i = i + 1;
        }
        true
    }
}

impl PartialEq for Hash {
    fn eq(&self, other: &Self) -> (r: bool) {
        let mut i: usize = 0;
        while i < HASH_LEN
            invariant
                0 <= i <= HASH_LEN,
                forall|j: int| 0 <= j < i ==> self.0@[j] == other.0@[j],
            decreases HASH_LEN - i,
        {
            if self.0[i] != other.0[i] {
                return false;
            }
            i = i + 1;
        }
        proof {
            assert(self.0@ =~= other.0@);
        }
        true
    }
}

impl Eq for Hash {
}

impl vstd::std_specs::cmp::PartialEqSpecImpl for Hash {
    open spec fn obeys_eq_spec() -> bool {
        true
    }

    open spec fn eq_spec(&self, other: &Hash) -> bool {
        self@ == other@
    }
}

} // verus!
