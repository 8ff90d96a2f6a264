use claunote_auth::secrets::{
    has_too_many_lanes, hash_accepts, hash_with_salt, MIN_PASSWORD_CHARS, PASSWORD_TOO_PLAIN, PASSWORD_TOO_SHORT,
};
use claunote_auth::{constant_time_eq, validate_password_strength};

/// The hash of `password` under the salt `somesalt`, with little memory.
const SMALL_HASH: &str =
    "$argon2id$v=19$m=256,t=2,p=1$c29tZXNhbHQ$nf65EOgLrQMR/uIPnA4rEsF5h7TKyQwu9U1bMCHGi/4";

#[test]
fn equal_bytes_are_equal() {
    assert!(constant_time_eq(b"", b""));
    assert!(constant_time_eq(b"secret", b"secret"));
}

#[test]
fn different_bytes_are_different() {
    assert!(!constant_time_eq(b"secret", b"secreT"));
    assert!(!constant_time_eq(b"secret", b"Secret"));
    assert!(!constant_time_eq(&[0x0f, 0xf0], &[0xf0, 0x0f]));
    for bit in 0..8 {
        assert!(!constant_time_eq(&[0], &[1 << bit]));
    }
}

#[test]
fn bytes_of_different_length_are_different() {
    assert!(!constant_time_eq(b"", b"a"));
    assert!(!constant_time_eq(b"a", b""));
    assert!(!constant_time_eq(&[0, 0], &[0]));
    assert!(!constant_time_eq(b"secret", b"secrets"));
}

#[test]
fn strong_password_is_taken() {
    assert_eq!(validate_password_strength("Abcdefg1!x"), Ok(()));
    assert_eq!(validate_password_strength("correct Horse 7 battery-staple"), Ok(()));
    for symbol in ('!'..='~').filter(|c| !c.is_ascii_alphanumeric()) {
        assert_eq!(validate_password_strength(&format!("Abcdefgh1{symbol}")), Ok(()));
    }
}

#[test]
fn short_password_is_refused() {
    assert_eq!(MIN_PASSWORD_CHARS, 10);
    assert_eq!(validate_password_strength(""), Err("password must be at least 10 characters"));
    assert_eq!(validate_password_strength("Abcdef1!x"), Err(PASSWORD_TOO_SHORT));
}

#[test]
fn length_is_counted_in_characters() {
    // Nine characters in sixteen bytes, and ten characters.
    assert_eq!(validate_password_strength("A\u{e9}\u{e9}\u{e9}\u{e9}\u{e9}a1!"), Err(PASSWORD_TOO_SHORT));
    assert_eq!(validate_password_strength("A\u{e9}\u{e9}\u{e9}\u{e9}\u{e9}\u{e9}a1!"), Ok(()));
}

#[test]
fn plain_password_is_refused() {
    for password in [
        "abcdefgh1!",
        "ABCDEFGH1!",
        "Abcdefghi!",
        "Abcdefghi1",
        "Abcdefgh1 ",
        "\u{c9}bcdefgh1!",
        "A\u{e9}\u{e9}\u{e9}\u{e9}\u{e9}\u{e9}\u{e9}1!",
        "Abcdefgh\u{661}!",
        "Abcdefgh1\u{a7}",
        "Abcdefgh1\u{7f}",
    ] {
        assert_eq!(validate_password_strength(password), Err(PASSWORD_TOO_PLAIN), "{password:?}");
    }
    assert_eq!(
        PASSWORD_TOO_PLAIN,
        "password must include at least one uppercase letter, one lowercase letter, \
         one number, and one symbol"
    );
}

#[test]
fn known_hash_accepts_its_password_alone() {
    assert!(hash_accepts(SMALL_HASH, "password"));
    assert!(!hash_accepts(SMALL_HASH, "Password"));
    assert!(!hash_accepts(SMALL_HASH, ""));
    assert!(!hash_accepts(SMALL_HASH, SMALL_HASH));
}

#[test]
fn text_that_is_no_hash_accepts_nothing() {
    for hash in ["", "password", "$argon2id$", "$argon2id$v=19$m=256,t=2,p=1$c29tZXNhbHQ"] {
        assert!(!hash_accepts(hash, "password"), "{hash:?}");
        assert!(!hash_accepts(hash, hash), "{hash:?}");
    }
}

#[test]
fn hash_with_too_many_lanes_accepts_nothing() {
    let tail = "$c29tZXNhbHQ$nf65EOgLrQMR/uIPnA4rEsF5h7TKyQwu9U1bMCHGi/4";
    for (lanes, too_many) in [
        ("p=1", false),
        ("p=16777216", false),
        ("p=99999999", false),
        ("p=100000000", true),
        ("p=536870912", true),
        ("p=4294967295", true),
        ("p=99999999999", true),
        ("p=1,p=536870912", true),
        ("p=536870912,p=1", false),
    ] {
        let hash = format!("$argon2id$v=19$m=256,t=2,{lanes}{tail}");
        assert_eq!(has_too_many_lanes(&hash), too_many, "{lanes}");
        assert_eq!(hash_accepts(&hash, "password"), lanes.ends_with("p=1"), "{lanes}");
    }
}

#[test]
fn lanes_are_found_at_the_end_of_any_text() {
    for text in ["", "p", "=", "p=", "p=12345678", "p=12345678x", "123456789", "x=123456789"] {
        assert!(!has_too_many_lanes(text), "{text:?}");
    }
    assert!(has_too_many_lanes("p=123456789"));
    assert!(has_too_many_lanes("\u{e9}p=1p=1234567890"));
}

#[test]
fn hash_is_argon2id_with_the_salt_in_it() {
    let salt: Vec<u8> = (0..16).collect();
    let hash = hash_with_salt("Abcdefgh1!", &salt).unwrap();
    assert!(hash.starts_with("$argon2id$v=19$m=19456,t=2,p=1$AAECAwQFBgcICQoLDA0ODw$"), "{hash}");
    assert!(!hash.contains("Abcdefgh1!"));
}

#[test]
fn fresh_hash_accepts_its_password_alone() {
    let hash = hash_with_salt("Abcdefgh1!", &[7; 16]).unwrap();
    assert!(hash_accepts(&hash, "Abcdefgh1!"));
    assert!(!hash_accepts(&hash, "Abcdefgh1?"));
}

#[test]
fn hash_depends_on_password_and_salt() {
    let hash = hash_with_salt("Abcdefgh1!", &[7; 16]).unwrap();
    assert_eq!(hash_with_salt("Abcdefgh1!", &[7; 16]).unwrap(), hash);
    assert_ne!(hash_with_salt("Abcdefgh1!", &[8; 16]).unwrap(), hash);
    assert_ne!(hash_with_salt("Abcdefgh1?", &[7; 16]).unwrap(), hash);
}

#[test]
fn empty_text_can_be_hashed() {
    let hash = hash_with_salt("", &[7; 16]).unwrap();
    assert!(hash_accepts(&hash, ""));
}
