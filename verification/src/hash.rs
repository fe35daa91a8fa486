//! Block and transaction identifiers.
use vstd::prelude::*;
use vstd::bytes::*;
use vstd::slice::slice_subrange;

verus! {

/// The identifier of a block, a transaction or another item of the inventory.
#[derive(Clone, Copy, Debug, PartialEq, Eq, Hash)]
pub enum Hash {
    /// A SHA-256 digest.
    SHA256([u8; 32]),
}

/// A pair of integers that stands for a hash: its first and its last sixteen bytes, each read as a
/// little-endian number. Unlike a hash it can be a key of an ordered collection.
pub type HashKey = (u128, u128);

/// The order of keys: by the first number, then by the second.
pub open spec fn key_before(a: HashKey, b: HashKey) -> bool {
    a.0 < b.0 || (a.0 == b.0 && a.1 < b.1)
}

impl Hash {
    /// The bytes of the digest.
    pub open spec fn bytes(self) -> Seq<u8> {
        match self {
            Hash::SHA256(digest) => digest@,
        }
    }

    /// The key that stands for this hash.
    pub open spec fn spec_key(self) -> HashKey {
        (
            spec_u128_from_le_bytes(self.bytes().subrange(0, 16)),
            spec_u128_from_le_bytes(self.bytes().subrange(16, 32)),
        )
    }

    /// The key that stands for this hash.
    pub fn key(&self) -> (key: HashKey)
        ensures
            key == self.spec_key(),
            *self matches Hash::SHA256(digest) && key.0 == spec_u128_from_le_bytes(
                digest@.subrange(0, 16),
            ) && key.1 == spec_u128_from_le_bytes(digest@.subrange(16, 32)),
    {
        match self {
            Hash::SHA256(digest) => {
                let bytes = digest.as_slice();
                (
                    u128_from_le_bytes(slice_subrange(bytes, 0, 16)),
                    u128_from_le_bytes(slice_subrange(bytes, 16, 32)),
                )
            },
        }
    }

    /// The hash that a key stands for.
    pub fn from_key(key: HashKey) -> (hash: Hash)
        ensures
            hash.spec_key() == key,
            hash matches Hash::SHA256(digest) && digest@.subrange(0, 16) == spec_u128_to_le_bytes(
                key.0,
            ) && digest@.subrange(16, 32) == spec_u128_to_le_bytes(key.1),
    {
        let low = u128_to_le_bytes(key.0);
        let high = u128_to_le_bytes(key.1);
        let mut digest: [u8; 32] = [0; 32];
        let mut i: usize = 0;
        while i < 16
            invariant
                i <= 16,
                low@.len() == 16,
                high@.len() == 16,
                forall|j: int| 0 <= j < i ==> digest@[j] == low@[j],
                forall|j: int| 0 <= j < i ==> digest@[j + 16] == high@[j],
            decreases 16 - i,
        {
            digest[i] = low[i];
            digest[i + 16] = high[i];
            i += 1;
        }
        proof {
            lemma_auto_spec_u128_to_from_le_bytes();
            assert(digest@.subrange(0, 16) =~= low@);
            assert(digest@.subrange(16, 32) =~= high@);
        }
        Hash::SHA256(digest)
    }
}

/// Two hashes are the same exactly when their keys are.
pub proof fn lemma_key_is_injective(a: Hash, b: Hash)
    ensures
        a.spec_key() == b.spec_key() <==> a == b,
{
    if a.spec_key() == b.spec_key() {
        lemma_auto_spec_u128_to_from_le_bytes();
        let (a_low, a_high) = (a.bytes().subrange(0, 16), a.bytes().subrange(16, 32));
        let (b_low, b_high) = (b.bytes().subrange(0, 16), b.bytes().subrange(16, 32));
        assert(a_low == spec_u128_to_le_bytes(spec_u128_from_le_bytes(a_low)));
        assert(b_low == spec_u128_to_le_bytes(spec_u128_from_le_bytes(b_low)));
        assert(a_high == spec_u128_to_le_bytes(spec_u128_from_le_bytes(a_high)));
        assert(b_high == spec_u128_to_le_bytes(spec_u128_from_le_bytes(b_high)));
        assert(a.bytes() =~= a_low + a_high);
        assert(b.bytes() =~= b_low + b_high);
        match (a, b) {
            (Hash::SHA256(x), Hash::SHA256(y)) => {
                assert(x@ == y@);
                assert(forall|i: int| 0 <= i < 32 ==> x[i] == x@[i] && y[i] == y@[i]);
                assert(x =~= y);
            },
        }
    }
}

/// An array of thirty-two bytes that starts with the first `n` bytes of `bytes`.
proof fn lemma_array_starts_with(bytes: Seq<u8>, n: nat) -> (digest: [u8; 32])
    requires
        bytes.len() == 32,
        n <= 32,
    ensures
        forall|i: int| 0 <= i < n ==> digest@[i] == bytes[i],
    decreases n,
{
    if n == 0 {
        arbitrary()
    } else {
        let shorter = lemma_array_starts_with(bytes, (n - 1) as nat);
        vstd::array::spec_array_update(shorter, n - 1, bytes[n - 1])
    }
}

/// Every key stands for a hash.
pub proof fn lemma_key_is_surjective(key: HashKey) -> (hash: Hash)
    ensures
        hash.spec_key() == key,
{
    lemma_auto_spec_u128_to_from_le_bytes();
    let bytes = spec_u128_to_le_bytes(key.0) + spec_u128_to_le_bytes(key.1);
    let digest = lemma_array_starts_with(bytes, 32);
    assert(digest@ =~= bytes);
    assert(digest@.subrange(0, 16) =~= spec_u128_to_le_bytes(key.0));
    assert(digest@.subrange(16, 32) =~= spec_u128_to_le_bytes(key.1));
    Hash::SHA256(digest)
}

} // verus!
