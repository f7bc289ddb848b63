use pwstash::error::StashError;
use pwstash::generate::{generate, password_from_draws, MAX_LENGTH, MIN_LENGTH};

const SYMBOLS: &[u8] = b"!@#$%^&*()-_=+[]{}";

#[test]
fn respects_length() {
    let password = generate(12).unwrap();
    assert_eq!(password.len(), 12);
}

#[test]
fn includes_each_class() {
    let password = generate(20).unwrap();
    assert!(password.chars().any(|c| c.is_ascii_lowercase()));
    assert!(password.chars().any(|c| c.is_ascii_uppercase()));
    assert!(password.chars().any(|c| c.is_ascii_digit()));
    assert!(password.chars().any(|c| SYMBOLS.contains(&(c as u8))));
}

#[test]
fn rejects_too_short() {
    assert!(matches!(
        generate(4),
        Err(StashError::InvalidGenerateLength { .. })
    ));
}

#[test]
fn two_calls_differ() {
    let a = generate(20).unwrap();
    let b = generate(20).unwrap();
    assert_ne!(a, b);
}

#[test]
fn length_bounds_are_inclusive() {
    assert_eq!(generate(MIN_LENGTH).unwrap().len(), 8);
    assert_eq!(generate(MAX_LENGTH).unwrap().len(), 128);
    assert_eq!(
        generate(129),
        Err(StashError::InvalidGenerateLength { min: 8, max: 128 })
    );
    assert_eq!(
        generate(7),
        Err(StashError::InvalidGenerateLength { min: 8, max: 128 })
    );
}

#[test]
fn only_alphabet_characters() {
    let password = generate(128).unwrap();
    assert!(password
        .bytes()
        .all(|b| b.is_ascii_alphanumeric() || SYMBOLS.contains(&b)));
}

const ALPHABET: &[u8] = b"abcdefghijklmnopqrstuvwxyzABCDEFGHIJKLMNOPQRSTUVWXYZ0123456789!@#$%^&*()-_=+[]{}";

#[test]
fn draws_without_swaps_keep_the_picks_in_place() {
    // Class picks a, A, 0, !, fills a b c d, each swap partner the position itself.
    let draws = [0, 0, 0, 0, 0, 1, 2, 3, 7, 6, 5, 4, 3, 2, 1];
    assert_eq!(password_from_draws(8, &draws), "aA0!abcd");
}

#[test]
fn draws_give_the_shuffled_password() {
    let length = 10;
    let draws = [25, 3, 9, 17, 79, 0, 40, 61, 12, 30, 0, 8, 2, 6, 5, 0, 1, 1, 0];
    let classes: [&[u8]; 4] = [
        b"abcdefghijklmnopqrstuvwxyz",
        b"ABCDEFGHIJKLMNOPQRSTUVWXYZ",
        b"0123456789",
        SYMBOLS,
    ];
    let mut chars: Vec<u8> = Vec::new();
    for k in 0..4 {
        chars.push(classes[k][draws[k]]);
    }
    for k in 4..length {
        chars.push(ALPHABET[draws[k]]);
    }
    let mut t = 0;
    for i in (1..length).rev() {
        chars.swap(i, draws[length + t]);
        t += 1;
    }
    let expected = String::from_utf8(chars).unwrap();
    assert_eq!(password_from_draws(length, &draws), expected);
    assert_eq!(expected, "9}}DEaO9mz");
}
