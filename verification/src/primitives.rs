//! The outside building blocks of the export codec: base64, Argon2,
//! AES-256-GCM, UTF-8 decoding, randomness and the clock.
//!
//! Nothing in this module is proved. Each function states what the crate or
//! std function it calls is documented to do; a result that cannot be written
//! down in a few lines gets a name, and the contract says that the call
//! returns the named value.

use vstd::prelude::*;
use vstd::utf8::{encode_utf8, valid_utf8};
use aes_gcm::aead::{Aead, KeyInit};
use aes_gcm::{Aes256Gcm, Key, Nonce};
use argon2::password_hash::rand_core::OsRng;
use argon2::password_hash::{PasswordHasher, SaltString};
use argon2::Argon2;
use base64::engine::general_purpose::STANDARD;
use base64::Engine;

verus! {

/// Length of an AES-256 key in bytes.
pub const KEY_LEN: usize = 32;

/// Length of an AES-GCM nonce in bytes.
pub const NONCE_LEN: usize = 12;

/// Length of the integrity tag that AES-GCM appends, in bytes.
pub const TAG_LEN: usize = 16;

/// The longest password, in bytes, that Argon2 hashes.
pub const MAX_PASSWORD_LEN: u64 = 0xFFFF_FFFF;

/// The longest plaintext, in bytes, that AES-GCM seals.
pub const MAX_PLAINTEXT_LEN: u64 = 0x10_0000_0000;

/// The standard base64 text, with padding, of `bytes`.
pub uninterp spec fn base64_text(bytes: Seq<u8>) -> Seq<char>;

/// The bytes that standard base64 decoding reads from `text`, if it accepts `text`.
pub uninterp spec fn base64_bytes(text: Seq<char>) -> Option<Seq<u8>>;

/// The Argon2id hash, with default parameters, of `password` under the salt
/// string `salt`; `None` where hashing fails.
pub uninterp spec fn argon2_output(password: Seq<u8>, salt: Seq<char>) -> Option<Seq<u8>>;

/// The AES-256-GCM ciphertext of `plaintext` under `key` and `nonce`, tag
/// appended; `None` where the cipher refuses.
pub uninterp spec fn aes_gcm_sealed(key: Seq<u8>, nonce: Seq<u8>, plaintext: Seq<u8>) -> Option<Seq<u8>>;

/// The plaintext that AES-256-GCM releases for `ciphertext` under `key` and
/// `nonce`; `None` where the tag does not match.
pub uninterp spec fn aes_gcm_opened(key: Seq<u8>, nonce: Seq<u8>, ciphertext: Seq<u8>) -> Option<Seq<u8>>;

/// The bytes of an optional byte vector.
pub open spec fn bytes_of(v: Option<Vec<u8>>) -> Option<Seq<u8>> {
    match v {
        Some(b) => Some(b@),
        None => None,
    }
}

/// The longest a vector may be, in bytes: `isize::MAX`.
pub open spec fn max_allocation() -> int {
    (usize::MAX / 2) as int
}

/// The length of the padded base64 text of `n` bytes: four characters for
/// every three bytes begun.
pub open spec fn base64_len(n: int) -> int {
    4 * ((n + 2) / 3)
}

/// The padded base64 text of `n` bytes is no longer than a string may be.
pub open spec fn base64_fits(n: int) -> bool {
    n / 3 < usize::MAX / 8
}

/// A character that a salt string may hold: a letter, a digit, or one of `/ + . -`.
pub open spec fn is_salt_char(c: char) -> bool {
    ||| 'a' <= c <= 'z'
    ||| 'A' <= c <= 'Z'
    ||| '0' <= c <= '9'
    ||| c == '/'
    ||| c == '+'
    ||| c == '.'
    ||| c == '-'
}

/// A salt string: 4 to 64 salt characters.
pub open spec fn is_salt_text(s: Seq<char>) -> bool {
    &&& 4 <= s.len() <= 64
    &&& forall|i: int| 0 <= i < s.len() ==> is_salt_char(#[trigger] s[i])
}

/// `base64::Engine::encode` of the `STANDARD` engine. The result is the
/// base64 text of `bytes`, four characters for every three bytes begun, and
/// decoding that text gives `bytes` back. The call panics where the text
/// would be too long to allocate, which `requires` rules out.
#[verifier::external_body]
pub(crate) fn encode_base64(bytes: &[u8]) -> (text: String)
    requires
        base64_fits(bytes@.len() as int),
    ensures
        text@ == base64_text(bytes@),
        text@.len() == base64_len(bytes@.len() as int),
        base64_bytes(text@) == Some(bytes@),
{
    STANDARD.encode(bytes)
}

/// `base64::Engine::decode` of the `STANDARD` engine: the decoded bytes, or
/// `None` where the text is not standard base64.
#[verifier::external_body]
pub(crate) fn decode_base64(text: &str) -> (bytes: Option<Vec<u8>>)
    ensures
        bytes_of(bytes) == base64_bytes(text@),
{
    STANDARD.decode(text).ok()
}

/// `SaltString::from_b64`: accepts exactly the strings of 4 to 64 characters
/// from the salt alphabet.
#[verifier::external_body]
pub(crate) fn salt_accepted(salt: &str) -> (accepted: bool)
    ensures
        accepted == is_salt_text(salt@),
{
    SaltString::from_b64(salt).is_ok()
}

/// `PasswordHasher::hash_password` of `Argon2::default()`: the 32 bytes of
/// the hash of `password` under `salt`, or `None` where the salt does not
/// decode or hashing fails. The result depends on the two arguments alone.
#[verifier::external_body]
pub(crate) fn argon2_hash(password: &[u8], salt: &str) -> (hash: Option<Vec<u8>>)
    requires
        is_salt_text(salt@),
    ensures
        bytes_of(hash) == argon2_output(password@, salt@),
        hash matches Some(h) ==> h@.len() == KEY_LEN,
{
    let salt = SaltString::from_b64(salt).ok()?;
    let hashed = Argon2::default().hash_password(password, &salt).ok()?;
    hashed.hash.map(|output| output.as_bytes().to_vec())
}

/// `Aead::encrypt` of `Aes256Gcm`: the ciphertext, as long as the plaintext,
/// with the tag of 16 bytes appended. The cipher refuses only a plaintext of
/// more than 2^36 bytes, and what it seals it opens again under the same key
/// and nonce. The call panics on a key or nonce of another length, and where
/// plaintext and tag together are too long to allocate; `requires` rules
/// both out.
#[verifier::external_body]
pub(crate) fn aes_gcm_seal(key: &[u8], nonce: &[u8], plaintext: &[u8]) -> (sealed: Option<Vec<u8>>)
    requires
        key@.len() == KEY_LEN,
        nonce@.len() == NONCE_LEN,
        plaintext@.len() + TAG_LEN <= max_allocation(),
    ensures
        bytes_of(sealed) == aes_gcm_sealed(key@, nonce@, plaintext@),
        sealed is Some <==> plaintext@.len() <= MAX_PLAINTEXT_LEN,
        sealed matches Some(c) ==> c@.len() == plaintext@.len() + TAG_LEN,
        sealed matches Some(c) ==> aes_gcm_opened(key@, nonce@, c@) == Some(plaintext@),
{
    let cipher = Aes256Gcm::new(Key::<Aes256Gcm>::from_slice(key));
    cipher.encrypt(Nonce::from_slice(nonce), plaintext).ok()
}

/// `Aead::decrypt` of `Aes256Gcm`: the plaintext, or `None` where the tag
/// does not match the ciphertext under this key and nonce; a ciphertext too
/// short to hold a tag is rejected. The call panics on a key or nonce of
/// another length, which `requires` rules out.
#[verifier::external_body]
pub(crate) fn aes_gcm_open(key: &[u8], nonce: &[u8], ciphertext: &[u8]) -> (opened: Option<Vec<u8>>)
    requires
        key@.len() == KEY_LEN,
        nonce@.len() == NONCE_LEN,
    ensures
        bytes_of(opened) == aes_gcm_opened(key@, nonce@, ciphertext@),
        ciphertext@.len() < TAG_LEN ==> opened is None,
{
    let cipher = Aes256Gcm::new(Key::<Aes256Gcm>::from_slice(key));
    cipher.decrypt(Nonce::from_slice(nonce), ciphertext).ok()
}

/// `String::from_utf8`: the string whose UTF-8 bytes are `bytes`, or `None`
/// where `bytes` are not valid UTF-8.
#[verifier::external_body]
pub(crate) fn text_from_utf8(bytes: Vec<u8>) -> (text: Option<String>)
    ensures
        text is Some <==> valid_utf8(bytes@),
        text matches Some(t) ==> encode_utf8(t@) == bytes@,
{
    String::from_utf8(bytes).ok()
}

/// `SaltString::generate` with the operating system's random generator:
/// sixteen random bytes in unpadded base64, which is a salt string. Under
/// such a salt Argon2 hashes every password of at most 2^32 - 1 bytes, to 32
/// bytes: it refuses only a longer password and a salt of fewer than eight
/// bytes. Nothing more is promised of the salt's value.
#[verifier::external_body]
pub(crate) fn fresh_salt() -> (salt: String)
    ensures
        is_salt_text(salt@),
        forall|password: Seq<u8>|
            password.len() <= MAX_PASSWORD_LEN ==> (#[trigger] argon2_output(password, salt@)) is Some
                && argon2_output(password, salt@)->0.len() == KEY_LEN,
{
    SaltString::generate(&mut OsRng).as_str().to_string()
}

/// `rand::random`: twelve fresh random bytes. Nothing is promised of their value.
#[verifier::external_body]
pub(crate) fn fresh_nonce() -> (nonce: [u8; 12]) {
    rand::random()
}

/// `Utc::now` and `DateTime::to_rfc3339` of chrono: the current time as an
/// RFC 3339 timestamp. Nothing is promised of its value.
#[verifier::external_body]
pub(crate) fn current_timestamp() -> (now: String) {
    chrono::Utc::now().to_rfc3339()
}

} // verus!
