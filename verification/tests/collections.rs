use witnet_chain::hash;
use witnet_chain::hash_index::{HashGroup, HashIndex};

fn digest(first: u8, middle: u8, last: u8) -> hash::Hash {
    let mut bytes = [0u8; 32];
    bytes[0] = first;
    bytes[16] = middle;
    bytes[31] = last;
    hash::Hash::SHA256(bytes)
}

#[test]
fn a_key_is_the_two_halves_of_a_hash() {
    assert_eq!(digest(1, 0, 0).key(), (1, 0));
    assert_eq!(digest(0, 3, 0).key(), (0, 3));
    assert_eq!(digest(0, 0, 1).key(), (0, 1u128 << 120));
    assert_eq!(hash::Hash::SHA256([255; 32]).key(), (u128::MAX, u128::MAX));
}

#[test]
fn a_key_gives_its_hash_back() {
    for hash in [digest(1, 2, 3), digest(0, 0, 0), hash::Hash::SHA256([255; 32])] {
        assert_eq!(hash::Hash::from_key(hash.key()), hash);
    }
    assert_eq!(hash::Hash::from_key((7, 8)).key(), (7, 8));
}

#[test]
fn an_index_holds_one_value_for_each_hash() {
    let mut index: HashIndex<u8> = HashIndex::new();
    assert_eq!(index.len(), 0);
    assert_eq!(index.get(&digest(1, 0, 0)), None);

    index.insert(digest(1, 0, 0), 10);
    index.insert(digest(0, 0, 1), 20);
    index.insert(digest(1, 0, 0), 30);

    assert_eq!(index.len(), 2);
    assert_eq!(index.get(&digest(1, 0, 0)), Some(&30));
    assert_eq!(index.get(&digest(0, 0, 1)), Some(&20));
    assert!(index.contains_key(&digest(0, 0, 1)));
    assert!(!index.contains_key(&digest(0, 1, 0)));
}

#[test]
fn a_group_holds_a_hash_once() {
    let mut group = HashGroup::new();
    assert_eq!(group.len(), 0);
    assert!(group.to_vec().is_empty());

    assert!(group.insert(digest(1, 2, 3)));
    assert!(group.insert(digest(3, 2, 1)));
    assert!(!group.insert(digest(1, 2, 3)));

    assert_eq!(group.len(), 2);
    assert!(group.contains(&digest(1, 2, 3)));
    assert!(group.contains(&digest(3, 2, 1)));
    assert!(!group.contains(&digest(2, 2, 2)));

    // In the order of their keys, whatever the order in which they came
    assert!(group.insert(digest(2, 9, 9)));
    assert_eq!(
        group.to_vec(),
        vec![digest(1, 2, 3), digest(2, 9, 9), digest(3, 2, 1)]
    );
}
