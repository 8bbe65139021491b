use omarchy_hotspot::password::{
    check_strength, generate, validate_user_password, PasswordError, Strength, ALPHABET,
    GENERATED_LEN,
};

#[test]
fn generated_password_is_valid() {
    for _ in 0..200 {
        let s = generate().unwrap();
        let p = s.expose();
        assert_eq!(p.len(), GENERATED_LEN);
        assert!(p.bytes().all(|b| ALPHABET.as_bytes().contains(&b)));
        assert!(!p.contains(['l', '1', 'I', 'O', '0']));
        assert_eq!(validate_user_password(p), Ok(Strength::Strong));
    }
}

#[test]
fn generated_passwords_differ() {
    assert!(generate().unwrap().expose() != generate().unwrap().expose());
}

#[test]
fn alphabet_has_no_lookalikes() {
    assert_eq!(ALPHABET.len(), 57);
    for c in *b"l1IO0" {
        assert!(!ALPHABET.as_bytes().contains(&c));
    }
}

#[test]
fn strength() {
    assert_eq!(check_strength("short"), Strength::TooShort);
    assert_eq!(check_strength("abcdefgh"), Strength::Weak);
    assert_eq!(check_strength("Xy7kQ2mZ"), Strength::Weak);
    assert_eq!(check_strength("aaaaaaaaaaaaaaaa"), Strength::Weak);
    assert_eq!(check_strength("myPassword2024!!"), Strength::Weak);
    assert_eq!(check_strength("123456789012"), Strength::Weak);
    assert_eq!(check_strength("Hk4mZ9pQ2rTw"), Strength::Fair);
    assert_eq!(check_strength("Hk4mZ9pQ2rTwXv7n"), Strength::Strong);
}

#[test]
fn user_password_limits() {
    assert_eq!(validate_user_password("1234567"), Err(PasswordError::TooShort));
    assert_eq!(validate_user_password(&"a".repeat(64)), Err(PasswordError::TooLong));
    assert_eq!(validate_user_password("пароль123456"), Err(PasswordError::NotAscii));
    assert_eq!(validate_user_password("tab\there12"), Err(PasswordError::NotAscii));
    assert!(validate_user_password("with space and ; : \\ \"").is_ok());
}

#[test]
fn sequences_are_weak() {
    assert_eq!(check_strength("abcdefghijklmnop"), Strength::Weak);
    assert_eq!(check_strength("zyxwvutsrqponmlk"), Strength::Weak);
    assert_eq!(validate_user_password(&"a".repeat(63)), Ok(Strength::Weak));
}
