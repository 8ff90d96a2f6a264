use claunote_auth::backup::{backup_code, backup_codes_from, generate_backup_codes, CODE_ALPHABET};
use claunote_auth::secrets::hash_accepts;
use claunote_auth::token::token_of;

#[test]
fn token_is_url_safe_base64_without_padding() {
    assert_eq!(token_of(&[0; 32]), "A".repeat(43));
    assert_eq!(token_of(&[0xff; 32]), format!("{}8", "_".repeat(42)));
    let bytes: Vec<u8> = (0..32).collect();
    assert_eq!(token_of(&bytes), "AAECAwQFBgcICQoLDA0ODxAREhMUFRYXGBkaGxwdHh8");
    let mut bytes = [0u8; 32];
    bytes[0] = 0xfb;
    bytes[1] = 0xef;
    bytes[2] = 0xbe;
    assert_eq!(token_of(&bytes), format!("----{}", "A".repeat(39)));
}

#[test]
fn different_bytes_make_different_tokens() {
    let one = token_of(&[1; 32]);
    for i in 0..32 {
        let mut bytes = [1u8; 32];
        bytes[i] = 2;
        assert_ne!(token_of(&bytes), one);
    }
}

#[test]
fn backup_code_is_two_groups_of_four() {
    assert_eq!(backup_code(&[0, 1, 2, 3, 4, 5, 6, 7]), "ABCD-EFGH");
    assert_eq!(backup_code(&[8, 13, 14, 23, 24, 25, 30, 31]), "JPQZ-2389");
    assert_eq!(backup_code(&[32, 63, 64, 255, 128, 200, 31, 96]), "A9A9-AJ9A");
}

#[test]
fn backup_codes_have_no_misread_characters() {
    for b in 0..=255u8 {
        let code = backup_code(&[b; 8]);
        assert_eq!(code.len(), 9);
        assert!(!code.contains(['0', 'O', '1', 'I']), "{code}");
    }
}

#[test]
fn codes_and_hashes_come_of_bytes_and_salts() {
    let raws = vec![vec![0u8; 8], vec![1u8; 8]];
    let salts = vec![vec![5u8; 16], vec![6u8; 16]];
    let (codes, hashes) = backup_codes_from(&raws, &salts).unwrap();
    assert_eq!(codes, ["AAAA-AAAA", "BBBB-BBBB"]);
    assert_eq!(hashes.len(), 2);
    assert!(hash_accepts(&hashes[0], "AAAA-AAAA"));
    assert!(!hash_accepts(&hashes[0], "BBBB-BBBB"));
    assert!(hash_accepts(&hashes[1], "BBBB-BBBB"));
}

#[test]
fn eight_codes_are_issued_at_a_time() {
    let (codes, hashes) = generate_backup_codes().unwrap();
    assert_eq!(codes.len(), 8);
    assert_eq!(hashes.len(), 8);
    for code in &codes {
        let chars: Vec<char> = code.chars().collect();
        assert_eq!(chars.len(), 9);
        assert_eq!(chars[4], '-');
        assert!(chars.iter().enumerate().all(|(i, c)| i == 4 || CODE_ALPHABET.contains(*c)));
    }
    assert!(codes.iter().any(|code| *code != codes[0]));
    assert!(hash_accepts(&hashes[0], &codes[0]));
    assert!(hash_accepts(&hashes[7], &codes[7]));
    assert!(!hashes.contains(&codes[0]));
}
