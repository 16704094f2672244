use sharinflame::security::{
    b64_decode, b64_encode, bytes_eq, check_password, decode_token_at, generate_key,
    generate_salt, generate_token, generate_token_at, hash_password, is_stored_password_readable,
    store_password, store_password_with_salt,
};

const TOKEN: &str = "LV NDIAMTcwMDAwMzYwMABzM2NyM3QANwBhY2Nlc3M=.iE3qClhE/wQYXNCB6h0hIgAYiduv8DKuZZQGlJwVZ4I=";

#[test]
fn base64_encodes_and_decodes() {
    assert_eq!(b64_encode(b"hello"), "aGVsbG8=");
    assert_eq!(b64_decode("aGVsbG8=").unwrap(), b"hello".to_vec());
    assert!(b64_decode("a").is_err());
}

#[test]
fn key_is_base64_of_requested_length() {
    let k = generate_key(16).unwrap();
    assert_eq!(k.len(), 24);
    assert_eq!(b64_decode(&k).unwrap().len(), 16);
}

#[test]
fn salts_differ() {
    assert_ne!(generate_salt().unwrap(), generate_salt().unwrap());
}

#[test]
fn password_hash_matches_pbkdf2_vector() {
    let salt: Vec<u8> = (0u8..16).collect();
    let h = hash_password("hunter2", &salt);
    assert_eq!(
        hex_string(&h),
        "cef000bef1c43b047de293e1001f10b2f97e6e5dea7cf4b6719fc559b14912c5"
    );
}

fn hex_string(b: &[u8]) -> String {
    b.iter().map(|x| format!("{:02x}", x)).collect()
}

#[test]
fn stored_password_is_hex_salt_and_hash() {
    let salt: Vec<u8> = (0u8..16).collect();
    assert_eq!(
        store_password_with_salt("hunter2", &salt),
        "000102030405060708090a0b0c0d0e0f$cef000bef1c43b047de293e1001f10b2f97e6e5dea7cf4b6719fc559b14912c5"
    );
}

#[test]
fn password_checks_against_its_stored_form() {
    let stored = store_password("correct horse").unwrap();
    assert!(is_stored_password_readable(&stored));
    assert!(check_password(&stored, "correct horse"));
    assert!(!check_password(&stored, "wrong horse"));
}

#[test]
fn stored_form_without_two_fields_never_checks() {
    assert!(is_stored_password_readable("no-dollar-here"));
    assert!(!check_password("no-dollar-here", "x"));
    assert!(!check_password("a$b$c", "x"));
}

#[test]
fn stored_form_with_bad_hex_is_unreadable() {
    assert!(!is_stored_password_readable("zz$00"));
    assert!(!is_stored_password_readable("0$00"));
}

#[test]
fn bytes_compare() {
    assert!(bytes_eq(&[1, 2], &[1, 2]));
    assert!(!bytes_eq(&[1, 2], &[1, 3]));
    assert!(!bytes_eq(&[1], &[1, 1]));
}

#[test]
fn token_has_expected_form() {
    let t = generate_token_at("42", "access", false, "s3cr3t", "7", "sigkey", 1_700_000_000);
    assert_eq!(t, TOKEN);
}

#[test]
fn long_term_token_lives_thirty_days() {
    let t = generate_token_at("42", "refresh", true, "s3cr3t", "7", "sigkey", 1_700_000_000);
    let d = decode_token_at(&t, Some("refresh"), "sigkey", 1_700_000_000).unwrap();
    assert_eq!(d.expiration_timestamp, 1_700_000_000 + 30 * 24 * 3600);
}

#[test]
fn token_decodes_to_its_fields() {
    let d = decode_token_at(TOKEN, Some("access"), "sigkey", 1_700_000_001).unwrap();
    assert_eq!(d.user_id, "42");
    assert_eq!(d.secret, "s3cr3t");
    assert_eq!(d.session_id, "7");
    assert_eq!(d.key_type, "access");
    assert_eq!(d.expiration_timestamp, 1_700_003_600);
    assert!(!d.is_expired);
    let d2 = decode_token_at(TOKEN, None, "sigkey", 1_700_003_601).unwrap();
    assert!(d2.is_expired);
    let d3 = decode_token_at(TOKEN, None, "sigkey", 1_700_003_600).unwrap();
    assert!(!d3.is_expired);
}

#[test]
fn token_errors() {
    assert_eq!(decode_token_at("Bearer x", None, "sigkey", 0).unwrap_err(), "INVALID_TOKEN");
    assert_eq!(decode_token_at("LV abc", None, "sigkey", 0).unwrap_err(), "INVALID_TOKEN_FORMAT");
    let mut forged = TOKEN.to_string();
    forged.pop();
    forged.push('A');
    assert_eq!(decode_token_at(&forged, None, "sigkey", 0).unwrap_err(), "INVALID_SIGNATURE");
    assert_eq!(decode_token_at(TOKEN, None, "otherkey", 0).unwrap_err(), "INVALID_SIGNATURE");
    assert_eq!(
        decode_token_at("LV !!!!.ETvz/BpSjhrw6+YuPyDE/ZYrEi8f/vbZJOkfGC6bLrs=", None, "sigkey", 0)
            .unwrap_err(),
        "DECODE_ERROR"
    );
    assert_eq!(
        decode_token_at("LV //4=.zaRVKKWqRZe2UNfd/GEroNvpzlqeMeyZO/wP9Y0NwZ8=", None, "sigkey", 0)
            .unwrap_err(),
        "DECODE_ERROR"
    );
    assert_eq!(
        decode_token_at("LV YQBiAGMAZA==.0g4SAvJMi69S8Yx2+IHqBEFoet3Mb3fQ+v0GZCBchtc=", None, "sigkey", 0)
            .unwrap_err(),
        "DECODE_ERROR"
    );
    assert_eq!(
        decode_token_at(
            "LV YQB4eABjAGQAYWNjZXNz.8gqo52qgbVN8fjH/9DTYXX+7EHzM9dvdeRJhOT4kxug=",
            None,
            "sigkey",
            0
        )
        .unwrap_err(),
        "DECODE_ERROR"
    );
    assert_eq!(decode_token_at(TOKEN, Some("refresh"), "sigkey", 0).unwrap_err(), "INVALID_TOKEN");
}

#[test]
fn token_from_the_clock_decodes() {
    let t = generate_token("1", "access", false, "k", "2", "key").unwrap();
    let d = sharinflame::security::decode_token(&t, Some("access"), "key").unwrap();
    assert_eq!(d.user_id, "1");
    assert!(!d.is_expired);
}
