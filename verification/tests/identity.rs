use fleet_sizer::identity::{generate, ALPHABET, IDENTITY_LENGTH};

#[test]
fn alphabet_has_thirty_six_symbols() {
    assert_eq!(ALPHABET.chars().count(), 36);
    assert_eq!(ALPHABET, "abcdefghijklmnopqrstuvwxyz0123456789");
    assert_eq!(IDENTITY_LENGTH, 8);
}

#[test]
fn identity_has_eight_symbols_of_the_alphabet() {
    for _ in 0..200 {
        let identity = generate();
        assert_eq!(identity.chars().count(), 8);
        assert_eq!(identity.len(), 8);
        for c in identity.chars() {
            assert!(c.is_ascii_lowercase() || c.is_ascii_digit());
            assert!(ALPHABET.contains(c));
        }
    }
}

#[test]
fn consecutive_identities_differ() {
    let first = generate();
    let second = generate();
    assert_eq!(first.len(), 8);
    assert_eq!(second.len(), 8);
    assert_ne!(first, second);
}

#[test]
fn identities_are_not_the_alphabet_handed_back() {
    let identity = generate();
    assert_ne!(identity, ALPHABET);
    assert!(identity.len() < ALPHABET.len());
}
