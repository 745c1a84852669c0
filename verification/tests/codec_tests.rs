use aes_gcm::aead::{Aead, KeyInit};
use aes_gcm::{Aes256Gcm, Key, Nonce};
use argon2::password_hash::{PasswordHasher, SaltString};
use argon2::Argon2;
use base64::engine::general_purpose::STANDARD;
use base64::Engine;
use simple_request::blob::{assemble_blob, find_separator, split_blob};
use simple_request::codec::{decrypt_import, encrypt_export, seal_export};
use simple_request::error::CryptoError;

const SALT: &str = "c29tZXNhbHRzb21lc2FsdA";
const NONCE: [u8; 12] = [0, 1, 2, 3, 4, 5, 6, 7, 8, 9, 10, 11];

fn key_for(password: &str, salt: &str) -> Vec<u8> {
    let salt = SaltString::from_b64(salt).unwrap();
    let hash = Argon2::default().hash_password(password.as_bytes(), &salt).unwrap();
    hash.hash.unwrap().as_bytes()[..32].to_vec()
}

fn seal_with(key: &[u8], nonce: &[u8], plain: &[u8]) -> Vec<u8> {
    Aes256Gcm::new(Key::<Aes256Gcm>::from_slice(key)).encrypt(Nonce::from_slice(nonce), plain).unwrap()
}

fn blob_text(salt: &[u8], nonce: &[u8], ciphertext: &[u8]) -> String {
    let mut blob = salt.to_vec();
    blob.push(b':');
    blob.extend_from_slice(nonce);
    blob.extend_from_slice(ciphertext);
    STANDARD.encode(blob)
}

fn wrong_password_fails(size: usize) {
    let data = "x".repeat(size);
    let blob = encrypt_export(&data, "right password").unwrap();
    assert_eq!(decrypt_import(&blob, "wrong password"), Err(CryptoError::AuthenticationFailed));
}

#[test]
fn round_trip_of_a_small_payload() {
    let blob = encrypt_export("{\"a\":1}", "pw").unwrap();
    assert_eq!(decrypt_import(&blob, "pw"), Ok("{\"a\":1}".to_string()));
}

#[test]
fn round_trip_of_an_empty_payload() {
    let blob = encrypt_export("", "pw").unwrap();
    assert_eq!(decrypt_import(&blob, "pw"), Ok(String::new()));
}

#[test]
fn round_trip_of_text_beyond_ascii() {
    let data = "naïve — 秘密 🔑\n\t\u{0}end";
    let blob = encrypt_export(data, "pässwörd 🔒").unwrap();
    assert_eq!(decrypt_import(&blob, "pässwörd 🔒"), Ok(data.to_string()));
}

#[test]
fn round_trip_of_a_large_payload() {
    let data = "0123456789abcdef".repeat(8192);
    let blob = encrypt_export(&data, "pw").unwrap();
    assert_eq!(decrypt_import(&blob, "pw"), Ok(data));
}

#[test]
fn round_trip_with_an_empty_password() {
    let blob = encrypt_export("payload", "").unwrap();
    assert_eq!(decrypt_import(&blob, ""), Ok("payload".to_string()));
}

#[test]
fn round_trip_with_a_payload_full_of_separators() {
    let data = ":::a:b::";
    let blob = encrypt_export(data, "p:w").unwrap();
    assert_eq!(decrypt_import(&blob, "p:w"), Ok(data.to_string()));
}

#[test]
fn wrong_password_fails_on_an_empty_payload() {
    wrong_password_fails(0);
}

#[test]
fn wrong_password_fails_on_one_byte() {
    wrong_password_fails(1);
}

#[test]
fn wrong_password_fails_on_one_block() {
    wrong_password_fails(16);
}

#[test]
fn wrong_password_fails_on_a_large_payload() {
    wrong_password_fails(100_000);
}

#[test]
fn password_differing_in_case_fails() {
    let blob = seal_export("data", "Password", SALT, &NONCE).unwrap();
    assert_eq!(decrypt_import(&blob, "password"), Err(CryptoError::AuthenticationFailed));
}

#[test]
fn blob_has_salt_separator_nonce_and_ciphertext() {
    let text = encrypt_export("{\"a\":1}", "pw").unwrap();
    let blob = STANDARD.decode(&text).expect("standard base64");
    let at = blob.iter().position(|&b| b == b':').expect("a separator");
    let salt = &blob[..at];
    assert_eq!(salt.iter().filter(|&&b| b == b':').count(), 0);
    assert_eq!(salt.len(), 22);
    assert!(salt.iter().all(|b| b.is_ascii_alphanumeric() || *b == b'+' || *b == b'/'));
    assert!(SaltString::from_b64(std::str::from_utf8(salt).unwrap()).is_ok());
    assert!(blob.len() - (at + 1) >= 12);
    assert_eq!(blob.len(), 22 + 1 + 12 + 7 + 16);
}

#[test]
fn blob_text_is_padded_standard_base64() {
    let text = encrypt_export("{\"a\":1}", "pw").unwrap();
    assert_eq!(text.len() % 4, 0);
    assert_eq!(text.len(), (58 + 2) / 3 * 4);
    assert!(text.bytes().all(|b| b.is_ascii_alphanumeric() || b == b'+' || b == b'/' || b == b'='));
}

#[test]
fn export_has_the_documented_lengths() {
    for size in [0usize, 1, 2, 3, 4, 15, 16, 17, 100] {
        let data = "x".repeat(size);
        let text = seal_export(&data, "pw", SALT, &NONCE).unwrap();
        let blob = STANDARD.decode(&text).unwrap();
        assert_eq!(blob.len(), SALT.len() + 1 + 12 + size + 16);
        assert_eq!(text.len(), 4 * ((blob.len() + 2) / 3));
    }
}

#[test]
fn fresh_export_has_the_documented_lengths() {
    let data = "héllo";
    let text = encrypt_export(data, "pw").unwrap();
    let blob = STANDARD.decode(&text).unwrap();
    let at = blob.iter().position(|&b| b == b':').unwrap();
    assert_eq!(blob.len(), at + 1 + 12 + data.len() + 16);
    assert_eq!(text.len(), 4 * ((blob.len() + 2) / 3));
}

#[test]
fn export_succeeds_for_any_small_payload_and_password() {
    for (data, password) in [("", "p"), ("", ""), ("a", "b"), ("{\"k\":[1,2]}", "long password with spaces")] {
        assert!(encrypt_export(data, password).is_ok());
    }
}

#[test]
fn salt_and_nonce_are_fresh_on_every_export() {
    let a = STANDARD.decode(encrypt_export("same", "pw").unwrap()).unwrap();
    let b = STANDARD.decode(encrypt_export("same", "pw").unwrap()).unwrap();
    assert_ne!(a[..22], b[..22]);
    assert_ne!(a[23..35], b[23..35]);
    assert_ne!(a[35..], b[35..]);
}

#[test]
fn seal_with_given_salt_and_nonce_is_exact() {
    let text = seal_export("hello vault", "pw", SALT, &NONCE).unwrap();
    let key = key_for("pw", SALT);
    let ciphertext = seal_with(&key, &NONCE, b"hello vault");
    assert_eq!(text, blob_text(SALT.as_bytes(), &NONCE, &ciphertext));
    assert_eq!(ciphertext.len(), 11 + 16);
    assert_ne!(&ciphertext[..11], b"hello vault");
}

#[test]
fn seal_is_a_function_of_its_arguments() {
    let a = seal_export("hello", "pw", SALT, &NONCE).unwrap();
    let b = seal_export("hello", "pw", SALT, &NONCE).unwrap();
    assert_eq!(a, b);
    let other_nonce = [9u8; 12];
    assert_ne!(seal_export("hello", "pw", SALT, &other_nonce).unwrap(), a);
    assert_ne!(seal_export("hello", "pw", "b3RoZXJzYWx0b3RoZXJzYQ", &NONCE).unwrap(), a);
    assert_ne!(seal_export("hello", "pw2", SALT, &NONCE).unwrap(), a);
    assert_ne!(seal_export("hellp", "pw", SALT, &NONCE).unwrap(), a);
}

#[test]
fn sealed_blob_starts_with_the_salt_text() {
    let text = seal_export("x", "pw", SALT, &NONCE).unwrap();
    let blob = STANDARD.decode(&text).unwrap();
    assert_eq!(&blob[..SALT.len()], SALT.as_bytes());
    assert_eq!(blob[SALT.len()], b':');
    assert_eq!(&blob[SALT.len() + 1..SALT.len() + 13], &NONCE);
    assert_eq!(decrypt_import(&text, "pw"), Ok("x".to_string()));
}

#[test]
fn seal_rejects_a_salt_that_is_no_salt_string() {
    for salt in ["", "abc", "ab:defgh", "with space", "sälty-salt", &"a".repeat(65)] {
        assert_eq!(seal_export("x", "pw", salt, &NONCE), Err(CryptoError::KeyDerivationFailed));
    }
}

#[test]
fn seal_fails_where_the_salt_is_too_short_for_the_hash() {
    assert_eq!(seal_export("x", "pw", "abcd", &NONCE), Err(CryptoError::KeyDerivationFailed));
}

#[test]
fn seal_accepts_the_longest_salt_string() {
    let salt = "a".repeat(64);
    let text = seal_export("x", "pw", &salt, &NONCE).unwrap();
    assert_eq!(decrypt_import(&text, "pw"), Ok("x".to_string()));
}

#[test]
fn import_opens_what_the_crates_sealed() {
    let key = key_for("open sesame", SALT);
    let ciphertext = seal_with(&key, &NONCE, "treasure".as_bytes());
    let text = blob_text(SALT.as_bytes(), &NONCE, &ciphertext);
    assert_eq!(decrypt_import(&text, "open sesame"), Ok("treasure".to_string()));
}

#[test]
fn import_rejects_text_that_is_not_base64() {
    assert_eq!(decrypt_import("not base64 at all!", "pw"), Err(CryptoError::MalformedBlob));
    assert_eq!(decrypt_import("abc", "pw"), Err(CryptoError::MalformedBlob));
    assert_eq!(decrypt_import("YWJj\n", "pw"), Err(CryptoError::MalformedBlob));
}

#[test]
fn import_rejects_an_empty_text() {
    assert_eq!(decrypt_import("", "pw"), Err(CryptoError::MalformedBlob));
}

#[test]
fn import_rejects_a_blob_without_separator() {
    let text = STANDARD.encode(b"c29tZXNhbHRzb21lc2FsdA0123456789abcdefghijklmnop");
    assert_eq!(decrypt_import(&text, "pw"), Err(CryptoError::MalformedBlob));
}

#[test]
fn import_rejects_a_blob_with_a_short_nonce() {
    let text = blob_text(SALT.as_bytes(), &NONCE[..11], &[]);
    assert_eq!(decrypt_import(&text, "pw"), Err(CryptoError::MalformedBlob));
    let text = blob_text(SALT.as_bytes(), &[], &[]);
    assert_eq!(decrypt_import(&text, "pw"), Err(CryptoError::MalformedBlob));
}

#[test]
fn import_rejects_a_salt_that_is_not_text() {
    let text = blob_text(&[0xff, 0xfe, 0xfd, 0xfc, 0xfb], &NONCE, &[0u8; 16]);
    assert_eq!(decrypt_import(&text, "pw"), Err(CryptoError::MalformedBlob));
}

#[test]
fn import_rejects_a_salt_that_is_no_salt_string() {
    for salt in ["", "abc", "with space", "sälty-salt"] {
        let text = blob_text(salt.as_bytes(), &NONCE, &[0u8; 16]);
        assert_eq!(decrypt_import(&text, "pw"), Err(CryptoError::MalformedBlob));
    }
}

#[test]
fn import_fails_where_the_key_cannot_be_derived() {
    let text = blob_text(b"abcd", &NONCE, &[0u8; 16]);
    assert_eq!(decrypt_import(&text, "pw"), Err(CryptoError::KeyDerivationFailed));
}

#[test]
fn import_rejects_a_ciphertext_shorter_than_the_tag() {
    let text = blob_text(SALT.as_bytes(), &NONCE, &[0u8; 15]);
    assert_eq!(decrypt_import(&text, "pw"), Err(CryptoError::AuthenticationFailed));
    let text = blob_text(SALT.as_bytes(), &NONCE, &[]);
    assert_eq!(decrypt_import(&text, "pw"), Err(CryptoError::AuthenticationFailed));
}

#[test]
fn import_rejects_an_altered_blob() {
    let text = seal_export("payload", "pw", SALT, &NONCE).unwrap();
    let blob = STANDARD.decode(&text).unwrap();
    for at in [23, 34, 35, blob.len() - 1] {
        let mut altered = blob.clone();
        altered[at] ^= 1;
        assert_eq!(decrypt_import(&STANDARD.encode(&altered), "pw"), Err(CryptoError::AuthenticationFailed));
    }
    let mut longer = blob.clone();
    longer.push(0);
    assert_eq!(decrypt_import(&STANDARD.encode(&longer), "pw"), Err(CryptoError::AuthenticationFailed));
}

#[test]
fn import_rejects_an_altered_salt() {
    let text = seal_export("payload", "pw", SALT, &NONCE).unwrap();
    let mut blob = STANDARD.decode(&text).unwrap();
    blob[0] = b'd';
    assert_eq!(decrypt_import(&STANDARD.encode(&blob), "pw"), Err(CryptoError::AuthenticationFailed));
}

#[test]
fn import_rejects_a_payload_that_is_not_text() {
    let key = key_for("pw", SALT);
    let ciphertext = seal_with(&key, &NONCE, &[0xff, 0xfe, 0x00]);
    let text = blob_text(SALT.as_bytes(), &NONCE, &ciphertext);
    assert_eq!(decrypt_import(&text, "pw"), Err(CryptoError::MalformedBlob));
}

#[test]
fn import_takes_the_first_separator_as_the_end_of_the_salt() {
    let key = key_for("pw", SALT);
    let nonce = [b':'; 12];
    let ciphertext = seal_with(&key, &nonce, b"colons");
    let text = blob_text(SALT.as_bytes(), &nonce, &ciphertext);
    assert_eq!(decrypt_import(&text, "pw"), Ok("colons".to_string()));
}

#[test]
fn assemble_lays_the_fields_out_in_order() {
    let blob = assemble_blob("abcd", &[1, 2, 3, 4, 5, 6, 7, 8, 9, 10, 11, 12], &[0xaa, 0xbb]);
    assert_eq!(
        blob,
        vec![b'a', b'b', b'c', b'd', b':', 1, 2, 3, 4, 5, 6, 7, 8, 9, 10, 11, 12, 0xaa, 0xbb]
    );
    assert_eq!(assemble_blob("", &[], &[]), vec![b':']);
}

#[test]
fn split_recovers_what_was_assembled() {
    let nonce = [7u8; 12];
    let blob = assemble_blob(SALT, &nonce, &[1, 2, 3]);
    let parts = split_blob(&blob).unwrap();
    assert_eq!(parts.salt, SALT);
    assert_eq!(parts.nonce, nonce.to_vec());
    assert_eq!(parts.ciphertext, vec![1, 2, 3]);
}

#[test]
fn split_accepts_an_empty_ciphertext() {
    let blob = assemble_blob("abcd", &[0u8; 12], &[]);
    let parts = split_blob(&blob).unwrap();
    assert_eq!(parts.salt, "abcd");
    assert_eq!(parts.nonce, vec![0u8; 12]);
    assert!(parts.ciphertext.is_empty());
}

#[test]
fn split_rejects_what_is_not_a_blob() {
    assert_eq!(split_blob(&[]).err(), Some(CryptoError::MalformedBlob));
    assert_eq!(split_blob(b"no separator here, not one").err(), Some(CryptoError::MalformedBlob));
    assert_eq!(split_blob(b"abcd:01234567890").err(), Some(CryptoError::MalformedBlob));
    assert_eq!(split_blob(b"abc:012345678901").err(), Some(CryptoError::MalformedBlob));
    assert_eq!(split_blob(b":012345678901").err(), Some(CryptoError::MalformedBlob));
    assert_eq!(split_blob(b"ab d:012345678901").err(), Some(CryptoError::MalformedBlob));
    assert_eq!(split_blob(&[0xff, b'b', b'c', b'd', b':', 0, 0, 0, 0, 0, 0, 0, 0, 0, 0, 0, 0]).err(),
        Some(CryptoError::MalformedBlob));
    assert!(split_blob(b"abcd:012345678901").is_ok());
    assert!(split_blob(b"a.-+/z09AZ:012345678901").is_ok());
}

#[test]
fn split_rejects_a_salt_longer_than_a_salt_string() {
    let mut blob = vec![b'a'; 65];
    blob.push(b':');
    blob.extend_from_slice(&[0u8; 12]);
    assert_eq!(split_blob(&blob).err(), Some(CryptoError::MalformedBlob));
    let mut blob = vec![b'a'; 64];
    blob.push(b':');
    blob.extend_from_slice(&[0u8; 12]);
    assert!(split_blob(&blob).is_ok());
}

#[test]
fn separator_is_found_at_its_first_place() {
    assert_eq!(find_separator(b"ab:cd:ef"), Some(2));
    assert_eq!(find_separator(b":"), Some(0));
    assert_eq!(find_separator(b"abc"), None);
    assert_eq!(find_separator(b""), None);
    assert_eq!(find_separator(b"abc:"), Some(3));
}
