use std::collections::HashSet;

use secret_send::crypto::{
    ct_eq, encode_random_bytes, generate_api_key, generate_attachment_id, generate_email_token,
    generate_id, generate_send_file_id, get_random_bytes, get_random_string, get_random_string_alphanum,
    get_random_string_numeric, hash_password, hmac_sign, verify_password_hash, OUTPUT_LEN,
};

fn is_lower_hex(s: &str) -> bool {
    s.chars().all(|c| c.is_ascii_digit() || ('a'..='f').contains(&c))
}

#[test]
fn legacy_hash_matches_known_pbkdf2_vector() {
    let h = hash_password(b"passwd", b"salt", 1, 0, 0);
    let expected: Vec<u8> = vec![
        0x55, 0xac, 0x04, 0x6e, 0x56, 0xe3, 0x08, 0x9f, 0xec, 0x16, 0x91, 0xc2, 0x25, 0x44, 0xb6, 0x05,
        0xf9, 0x41, 0x85, 0x21, 0x6d, 0xde, 0x04, 0x65, 0xe6, 0x8b, 0x9d, 0x57, 0xc2, 0x0d, 0xac, 0xbc,
    ];
    assert_eq!(h, expected);
}

#[test]
fn legacy_round_trip() {
    let h = hash_password(b"hunter2", b"pepper-salt", 100, 0, 0);
    assert_eq!(h.len(), OUTPUT_LEN);
    assert!(verify_password_hash(b"hunter2", b"pepper-salt", &h, 100, 0, 0));
    assert!(!verify_password_hash(b"hunter3", b"pepper-salt", &h, 100, 0, 0));
    assert!(!verify_password_hash(b"hunter2", b"other-salt", &h, 100, 0, 0));
    assert!(!verify_password_hash(b"hunter2", b"pepper-salt", &h, 101, 0, 0));
}

#[test]
fn legacy_empty_hash_never_verifies() {
    assert!(!verify_password_hash(b"x", b"salt", &[], 1, 0, 0));
}

#[test]
fn modern_round_trip() {
    let h = hash_password(b"hunter2", b"somesaltsomesalt", 1, 64, 1);
    assert_eq!(h.len(), OUTPUT_LEN);
    assert_ne!(h, hash_password(b"hunter2", b"somesaltsomesalt", 1, 0, 0));
    assert!(verify_password_hash(b"hunter2", b"somesaltsomesalt", &h, 1, 64, 1));
    assert!(!verify_password_hash(b"hunter3", b"somesaltsomesalt", &h, 1, 64, 1));
    assert!(!verify_password_hash(b"hunter2", b"somesaltsomesalt", &h, 2, 64, 1));
}

#[test]
fn tampered_hash_fails_every_bit() {
    let h = hash_password(b"pw", b"saltsalt", 3, 0, 0);
    for i in 0..h.len() {
        for bit in 0..8 {
            let mut t = h.clone();
            t[i] ^= 1 << bit;
            assert!(!verify_password_hash(b"pw", b"saltsalt", &t, 3, 0, 0));
        }
    }
    let m = hash_password(b"pw", b"saltsalt", 1, 32, 2);
    let mut t = m.clone();
    t[5] ^= 0x10;
    assert!(verify_password_hash(b"pw", b"saltsalt", &m, 1, 32, 2));
    assert!(!verify_password_hash(b"pw", b"saltsalt", &t, 1, 32, 2));
}

#[test]
fn hmac_sign_known_vector() {
    assert_eq!(hmac_sign("Jefe", "what do ya want for nothing?"), "effcdf6ae5eb2fa2d27416d5f184df9c259a7c79");
}

#[test]
fn ct_eq_cases() {
    assert!(ct_eq(b"abc", b"abc"));
    assert!(ct_eq(b"", b""));
    assert!(!ct_eq(b"abc", b"abd"));
    assert!(!ct_eq(b"abc", b"abcd"));
    assert!(!ct_eq(b"", b"a"));
}

#[test]
fn random_bytes_have_requested_length_and_vary() {
    let a = get_random_bytes::<32>();
    let b = get_random_bytes::<32>();
    assert_eq!(a.len(), 32);
    assert_ne!(a, b);
}

#[test]
fn encode_random_bytes_uses_given_encoding() {
    let s = encode_random_bytes::<10>(data_encoding::HEXLOWER);
    assert_eq!(s.len(), 20);
    assert!(is_lower_hex(&s));
}

#[test]
fn random_string_draws_from_alphabet() {
    let s = get_random_string(b"ab", 50);
    assert_eq!(s.chars().count(), 50);
    assert!(s.chars().all(|c| c == 'a' || c == 'b'));
    assert_eq!(get_random_string(b"", 0), "");
    assert_eq!(get_random_string(b"z", 3), "zzz");
}

#[test]
fn numeric_and_alphanumeric_strings() {
    let n = get_random_string_numeric(12);
    assert_eq!(n.len(), 12);
    assert!(n.chars().all(|c| c.is_ascii_digit()));
    let a = get_random_string_alphanum(40);
    assert_eq!(a.len(), 40);
    assert!(a.chars().all(|c| c.is_ascii_alphanumeric()));
}

#[test]
fn identifier_lengths() {
    let id = generate_id::<4>();
    assert_eq!(id.len(), 8);
    assert!(is_lower_hex(&id));
    let f = generate_send_file_id();
    assert_eq!(f.len(), 64);
    assert!(is_lower_hex(&f));
    let a = generate_attachment_id();
    assert_eq!(a.0.len(), 20);
    assert!(is_lower_hex(&a.0));
}

#[test]
fn email_token_and_api_key() {
    let t = generate_email_token(6);
    assert_eq!(t.len(), 6);
    assert!(t.chars().all(|c| c.is_ascii_digit()));
    assert_eq!(generate_email_token(0), "");
    let k = generate_api_key();
    assert_eq!(k.len(), 30);
    assert!(k.chars().all(|c| c.is_ascii_alphanumeric()));
}

#[test]
fn ten_thousand_ids_are_unique() {
    let mut seen = HashSet::new();
    for _ in 0..10_000 {
        assert!(seen.insert(generate_send_file_id()));
    }
    let mut short = HashSet::new();
    for _ in 0..10_000 {
        assert!(short.insert(generate_attachment_id().0));
    }
}
