use teller::atm::Key;
use teller::traits::hash;

#[test]
fn test_hash_enum_vec() {
    let input: Vec<Key> = vec![Key::One, Key::Two, Key::Three, Key::Four];

    let hash1 = hash(&input);
    let hash2 = hash(&input);

    assert_eq!(hash1, hash2);
}

#[test]
fn hash_depends_on_order() {
    assert_ne!(hash(&[Key::One, Key::Three]), hash(&[Key::Three, Key::One]));
    assert_ne!(
        hash(&[Key::One, Key::Two, Key::Three, Key::Four]),
        hash(&[Key::Four, Key::Three, Key::Two, Key::One])
    );
}

#[test]
fn hash_of_empty_sequence_is_stable() {
    let empty: Vec<Key> = Vec::new();
    assert_eq!(hash(&empty), hash(&[]));
    assert_ne!(hash(&empty), hash(&[Key::One]));
}

#[test]
fn hash_tells_prefixes_apart() {
    assert_ne!(hash(&[Key::One, Key::Three]), hash(&[Key::One, Key::Two, Key::Three, Key::Four]));
}
