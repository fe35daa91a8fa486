//! Collections of hashes: a map whose keys are hashes, and a set of hashes.
use std::collections::BTreeMap;
use std::collections::BTreeSet;
use vstd::prelude::*;
use vstd::set_lib::*;
use vstd::std_specs::btree::*;
use vstd::std_specs::iter::*;

use crate::hash;
use crate::hash::HashKey;

verus! {

/// The hash that a key stands for.
spec fn hash_of_key(key: HashKey) -> hash::Hash {
    choose|hash: hash::Hash| hash.spec_key() == key
}

/// A set of hashes is as large as the set of the keys that stand for them.
proof fn lemma_as_many_hashes_as_keys(hashes: Set<hash::Hash>, keys: Set<HashKey>)
    requires
        keys.finite(),
        forall|hash: hash::Hash| #[trigger]
            hashes.contains(hash) <==> keys.contains(hash.spec_key()),
    ensures
        hashes.finite(),
        hashes.len() == keys.len(),
{
    let f = |key: HashKey| hash_of_key(key);
    assert forall|key: HashKey| #[trigger] f(key).spec_key() == key by {
        let _ = hash::lemma_key_is_surjective(key);
    }
    assert(keys.map(f) =~= hashes) by {
        assert forall|hash: hash::Hash| hashes.contains(hash) implies keys.map(f).contains(
            hash,
        ) by {
            hash::lemma_key_is_injective(hash, f(hash.spec_key()));
        }
    }
    assert(vstd::relations::injective_on(f, keys)) by {
        assert forall|a: HashKey, b: HashKey| #[trigger] f(a) == #[trigger] f(b) implies a == b by {
            assert(f(a).spec_key() == a && f(b).spec_key() == b);
        }
    }
    lemma_map_size(keys, hashes, f);
}

/// A map from hashes to values.
pub struct HashIndex<V> {
    entries: BTreeMap<HashKey, V>,
}

impl<V> View for HashIndex<V> {
    type V = Map<hash::Hash, V>;

    closed spec fn view(&self) -> Map<hash::Hash, V> {
        Map::new(
            |hash: hash::Hash| self.entries@.contains_key(hash.spec_key()),
            |hash: hash::Hash| self.entries@[hash.spec_key()],
        )
    }
}

impl<V> HashIndex<V> {
    /// An empty map.
    pub fn new() -> (index: Self)
        ensures
            index@ == Map::<hash::Hash, V>::empty(),
    {
        let index = HashIndex { entries: BTreeMap::new() };
        assert(index@ =~= Map::empty());
        index
    }

    /// The number of hashes that have a value.
    pub fn len(&self) -> (len: usize)
        ensures
            self@.dom().finite(),
            len == self@.len(),
    {
        proof {
            lemma_as_many_hashes_as_keys(self@.dom(), self.entries@.dom());
        }
        self.entries.len()
    }

    /// Whether a hash has a value.
    pub fn contains_key(&self, hash: &hash::Hash) -> (found: bool)
        ensures
            found == self@.contains_key(*hash),
    {
        self.entries.contains_key(&hash.key())
    }

    /// The value of a hash, if it has one.
    pub fn get(&self, hash: &hash::Hash) -> (value: Option<&V>)
        ensures
            match value {
                Some(v) => self@.contains_key(*hash) && *v == self@[*hash],
                None => !self@.contains_key(*hash),
            },
    {
        self.entries.get(&hash.key())
    }

    /// Gives a hash a value, in place of the one that it had.
    pub fn insert(&mut self, hash: hash::Hash, value: V)
        ensures
            final(self)@ == old(self)@.insert(hash, value),
    {
        self.entries.insert(hash.key(), value);
        proof {
            assert forall|other: hash::Hash|
                (#[trigger] other.spec_key() == hash.spec_key()) == (other == hash) by {
                hash::lemma_key_is_injective(other, hash);
            }
            assert(self@ =~= old(self)@.insert(hash, value));
        }
    }
}

/// A set of hashes.
pub struct HashGroup {
    keys: BTreeSet<HashKey>,
}

impl View for HashGroup {
    type V = Set<hash::Hash>;

    closed spec fn view(&self) -> Set<hash::Hash> {
        Set::new(|hash: hash::Hash| self.keys@.contains(hash.spec_key()))
    }
}

impl HashGroup {
    /// An empty set.
    pub fn new() -> (group: Self)
        ensures
            group@ == Set::<hash::Hash>::empty(),
    {
        let group = HashGroup { keys: BTreeSet::new() };
        assert(group@ =~= Set::empty());
        group
    }

    /// Adds a hash; says whether it was missing.
    pub fn insert(&mut self, hash: hash::Hash) -> (added: bool)
        ensures
            final(self)@ == old(self)@.insert(hash),
            added == !old(self)@.contains(hash),
    {
        let added = self.keys.insert(hash.key());
        proof {
            assert forall|other: hash::Hash|
                (#[trigger] other.spec_key() == hash.spec_key()) == (other == hash) by {
                hash::lemma_key_is_injective(other, hash);
            }
            assert(self@ =~= old(self)@.insert(hash));
        }
        added
    }

    /// Whether a hash is in the set.
    pub fn contains(&self, hash: &hash::Hash) -> (found: bool)
        ensures
            found == self@.contains(*hash),
    {
        self.keys.contains(&hash.key())
    }

    /// The number of hashes in the set.
    pub fn len(&self) -> (len: usize)
        ensures
            self@.finite(),
            len == self@.len(),
    {
        proof {
            self.lemma_keys_finite();
            lemma_as_many_hashes_as_keys(self@, self.keys@);
        }
        self.keys.len()
    }

    /// The hashes of the set, each once, in the order of their keys.
    pub fn to_vec(&self) -> (hashes: Vec<hash::Hash>)
        ensures
            forall|i: int, j: int|
                0 <= i < j < hashes@.len() ==> hash::key_before(
                    (#[trigger] hashes@[i]).spec_key(),
                    (#[trigger] hashes@[j]).spec_key(),
                ),
            hashes@.no_duplicates(),
            hashes@.to_set() == self@,
    {
        let mut hashes: Vec<hash::Hash> = Vec::new();
        let ghost listed = self.listed_keys();
        for key in it: self.keys.iter()
            invariant
                it.seq().unref() == listed,
                listed.to_set() == self.keys@,
                listed.no_duplicates(),
                increasing_seq(it.seq()),
                hashes@.len() == it.index(),
                forall|i: int, j: int|
                    0 <= i < j < hashes@.len() ==> hash::key_before(
                        (#[trigger] hashes@[i]).spec_key(),
                        (#[trigger] hashes@[j]).spec_key(),
                    ),
                forall|i: int|
                    0 <= i < hashes@.len() ==> (#[trigger] hashes@[i]).spec_key() == listed[i],
        {
            hashes.push(hash::Hash::from_key(*key));
            proof {
                let n = it.index();
                assert forall|i: int| 0 <= i < n implies hash::key_before(
                    #[trigger] listed[i],
                    listed[n],
                ) by {
                    assert(vstd::std_specs::cmp::OrdSpec::cmp_spec(
                        &it.seq()[i],
                        &it.seq()[n],
                    ) is Less);
                }
            }
        }
        proof {
            assert forall|hash: hash::Hash| self@.contains(hash) implies hashes@.contains(
                hash,
            ) by {
                assert(listed.to_set().contains(hash.spec_key()));
                let i = choose|i: int| 0 <= i < listed.len() && listed[i] == hash.spec_key();
                hash::lemma_key_is_injective(hashes@[i], hash);
            }
            assert forall|hash: hash::Hash| hashes@.contains(hash) implies self@.contains(
                hash,
            ) by {
                let i = choose|i: int| 0 <= i < hashes@.len() && hashes@[i] == hash;
                assert(listed.contains(listed[i]));
            }
            assert(hashes@.to_set() =~= self@);
        }
        hashes
    }

    /// The keys in the order in which the underlying set lists them.
    closed spec fn listed_keys(&self) -> Seq<HashKey> {
        into_iter_btree_keys(spec_btree_keys_iter(&self.keys))
    }

    /// The underlying set of keys is finite.
    proof fn lemma_keys_finite(&self)
        ensures
            self.keys@.finite(),
    {
        assert(IteratorSpec::remaining(&spec_btree_keys_iter(&self.keys)).unref().to_set()
            == self.keys@);
    }
}

} // verus!
