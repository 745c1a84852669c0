//! The export codec: packs a payload into a password-protected blob and
//! opens such a blob again.
//!
//! A key of 256 bits is derived from the password and a salt with Argon2id,
//! the payload is sealed with AES-256-GCM under that key and a nonce, and the
//! salt, the nonce and the ciphertext are laid out as one blob, which is
//! base64-encoded.

use vstd::prelude::*;
use vstd::utf8::{decode_utf8, encode_utf8, valid_utf8};
use crate::blob::{assemble_blob, blob_layout, lemma_layout_parses, lemma_salt_bytes, parsed_blob, split_blob};
use crate::error::CryptoError;
use crate::primitives::{
    aes_gcm_open,
    aes_gcm_opened,
    aes_gcm_seal,
    aes_gcm_sealed,
    argon2_hash,
    argon2_output,
    base64_bytes,
    base64_fits,
    base64_len,
    base64_text,
    bytes_of,
    decode_base64,
    encode_base64,
    fresh_nonce,
    fresh_salt,
    is_salt_text,
    salt_accepted,
    text_from_utf8,
    KEY_LEN,
    MAX_PASSWORD_LEN,
    MAX_PLAINTEXT_LEN,
    NONCE_LEN,
    TAG_LEN,
};

verus! {

/// The key for `password` and `salt`: the first 32 bytes of the Argon2 hash
/// of the password's UTF-8 bytes.
pub open spec fn derived_key(password: Seq<char>, salt: Seq<char>) -> Option<Seq<u8>> {
    match argon2_output(encode_utf8(password), salt) {
        Some(hash) => if hash.len() >= KEY_LEN {
            Some(hash.take(KEY_LEN as int))
        } else {
            None
        },
        None => None,
    }
}

/// The length of the blob for a payload of the bytes `plain` under `salt`:
/// salt, separator, nonce, payload and tag.
pub open spec fn blob_len(salt: Seq<char>, plain: Seq<u8>) -> int {
    salt.len() + 1 + NONCE_LEN + plain.len() + TAG_LEN
}

/// A payload of the bytes `plain` can be sealed and its blob encoded,
/// whatever salt string is used.
pub open spec fn payload_fits(plain: Seq<u8>) -> bool {
    &&& plain.len() <= MAX_PLAINTEXT_LEN
    &&& base64_fits(64 + 1 + NONCE_LEN + plain.len() + TAG_LEN)
}

/// The export of `data` under `password` with the given salt and nonce.
pub open spec fn export_text(
    data: Seq<char>,
    password: Seq<char>,
    salt: Seq<char>,
    nonce: Seq<u8>,
) -> Result<Seq<char>, CryptoError> {
    if !is_salt_text(salt) {
        Err(CryptoError::KeyDerivationFailed)
    } else {
        match derived_key(password, salt) {
            None => Err(CryptoError::KeyDerivationFailed),
            Some(key) => if !base64_fits(blob_len(salt, encode_utf8(data))) {
                Err(CryptoError::EncryptionFailed)
            } else {
                match aes_gcm_sealed(key, nonce, encode_utf8(data)) {
                    None => Err(CryptoError::EncryptionFailed),
                    Some(ciphertext) => Ok(base64_text(blob_layout(salt, nonce, ciphertext))),
                }
            },
        }
    }
}

/// What opening the blob text `text` with `password` gives.
pub open spec fn import_text(text: Seq<char>, password: Seq<char>) -> Result<Seq<char>, CryptoError> {
    match base64_bytes(text) {
        None => Err(CryptoError::MalformedBlob),
        Some(blob) => match parsed_blob(blob) {
            None => Err(CryptoError::MalformedBlob),
            Some(fields) => match derived_key(password, fields.salt) {
                None => Err(CryptoError::KeyDerivationFailed),
                Some(key) => match aes_gcm_opened(key, fields.nonce, fields.ciphertext) {
                    None => Err(CryptoError::AuthenticationFailed),
                    Some(plain) => if valid_utf8(plain) {
                        Ok(decode_utf8(plain))
                    } else {
                        Err(CryptoError::MalformedBlob)
                    },
                },
            },
        },
    }
}

/// `text` is the base64 text of a blob that holds `salt`, `nonce` and a ciphertext.
pub open spec fn holds_blob(text: Seq<char>, salt: Seq<char>, nonce: Seq<u8>) -> bool {
    &&& base64_bytes(text) matches Some(blob)
    &&& parsed_blob(blob) matches Some(fields)
    &&& fields.salt == salt
    &&& fields.nonce == nonce
    &&& blob == blob_layout(salt, nonce, fields.ciphertext)
}

/// Opening an export never fails on the layout of the blob, whatever the
/// password: where no key can be derived for the password the outcome is
/// `KeyDerivationFailed`, and otherwise it is `AuthenticationFailed` exactly
/// where the cipher finds the tag wrong under the key of that password.
pub proof fn lemma_opening_with_any_password(
    text: Seq<char>,
    salt: Seq<char>,
    nonce: Seq<u8>,
    password: Seq<char>,
)
    requires
        holds_blob(text, salt, nonce),
    ensures
        derived_key(password, salt) is None ==> import_text(text, password) == Err::<
            Seq<char>,
            CryptoError,
        >(CryptoError::KeyDerivationFailed),
        derived_key(password, salt) matches Some(key) ==> (import_text(text, password) == Err::<
            Seq<char>,
            CryptoError,
        >(CryptoError::AuthenticationFailed) <==> aes_gcm_opened(
            key,
            nonce,
            parsed_blob(base64_bytes(text)->0)->0.ciphertext,
        ) is None),
{
}

/// The ciphertext, tag appended, that an export of `data` under `password`
/// holds for the given salt and nonce.
pub open spec fn sealed_payload(
    data: Seq<char>,
    password: Seq<char>,
    salt: Seq<char>,
    nonce: Seq<u8>,
) -> Seq<u8> {
    aes_gcm_sealed(derived_key(password, salt)->0, nonce, encode_utf8(data))->0
}

/// `text` is the export of `data` under `password` with `salt` and `nonce`:
/// it decodes to the blob of salt, separator, nonce and sealed payload, which
/// has as many bytes as salt, separator, nonce, payload and tag together; the
/// text has four characters for every three bytes of the blob begun; and the
/// blob parses back into its fields.
pub open spec fn is_sealed_as(
    text: Seq<char>,
    data: Seq<char>,
    password: Seq<char>,
    salt: Seq<char>,
    nonce: Seq<u8>,
) -> bool {
    let blob = blob_layout(salt, nonce, sealed_payload(data, password, salt, nonce));
    &&& base64_bytes(text) == Some(blob)
    &&& blob.len() == blob_len(salt, encode_utf8(data))
    &&& text.len() == base64_len(blob_len(salt, encode_utf8(data)))
    &&& holds_blob(text, salt, nonce)
}

/// `outcome` is an export of `data` under `password`, for some salt string
/// and some nonce of twelve bytes; where it is a text, that text is sealed
/// as the export with that salt and nonce.
pub open spec fn is_export_of(
    outcome: Result<Seq<char>, CryptoError>,
    data: Seq<char>,
    password: Seq<char>,
) -> bool {
    exists|salt: Seq<char>, nonce: Seq<u8>|
        {
            &&& is_salt_text(salt)
            &&& nonce.len() == NONCE_LEN
            &&& #[trigger] export_text(data, password, salt, nonce) == outcome
            &&& outcome matches Ok(text) ==> is_sealed_as(text, data, password, salt, nonce)
        }
}

/// The text of a result, with its failure unchanged.
pub open spec fn text_outcome(r: Result<String, CryptoError>) -> Result<Seq<char>, CryptoError> {
    match r {
        Ok(text) => Ok(text@),
        Err(e) => Err(e),
    }
}

/// Derives the key for `password` and `salt`.
fn derive_key(password: &str, salt: &str) -> (key: Option<Vec<u8>>)
    requires
        is_salt_text(salt@),
    ensures
        bytes_of(key) == derived_key(password@, salt@),
        key matches Some(k) ==> k@.len() == KEY_LEN,
{
    match argon2_hash(password.as_bytes(), salt) {
        Some(hash) => {
            let mut key = hash;
            key.truncate(KEY_LEN);
            Some(key)
        },
        None => None,
    }
}

/// Packs `data` under `password` with the salt and the nonce that the caller chose.
///
/// Fails with `KeyDerivationFailed` where `salt` is no salt string or the key
/// cannot be derived, and with `EncryptionFailed` where the payload has more
/// than 2^36 bytes or the blob is too long to be encoded. The text that is
/// returned decodes to salt, separator, nonce and sealed payload, and opens
/// again, under the same password, to `data`.
pub fn seal_export(data: &str, password: &str, salt: &str, nonce: &[u8; 12]) -> (sealed: Result<
    String,
    CryptoError,
>)
    ensures
        text_outcome(sealed) == export_text(data@, password@, salt@, nonce@),
        sealed is Ok <==> ({
            &&& is_salt_text(salt@)
            &&& derived_key(password@, salt@) is Some
            &&& encode_utf8(data@).len() <= MAX_PLAINTEXT_LEN
            &&& base64_fits(blob_len(salt@, encode_utf8(data@)))
        }),
        sealed matches Ok(text) ==> import_text(text@, password@) == Ok::<Seq<char>, CryptoError>(
            data@,
        ),
        sealed matches Ok(text) ==> base64_bytes(text@) == Some(
            blob_layout(
                salt@,
                nonce@,
                aes_gcm_sealed(derived_key(password@, salt@)->0, nonce@, encode_utf8(data@))->0,
            ),
        ),
        sealed matches Ok(text) ==> base64_bytes(text@)->0.len() == blob_len(
            salt@,
            encode_utf8(data@),
        ),
        sealed matches Ok(text) ==> text@.len() == base64_len(blob_len(salt@, encode_utf8(data@))),
        sealed matches Ok(text) ==> holds_blob(text@, salt@, nonce@),
{
    if !salt_accepted(salt) {
        return Err(CryptoError::KeyDerivationFailed);
    }
    proof {
        lemma_salt_bytes(salt@);
    }
    let key = match derive_key(password, salt) {
        Some(key) => key,
        None => { return Err(CryptoError::KeyDerivationFailed); },
    };
    let plain = data.as_bytes();
    let overhead = salt.len() + 1 + NONCE_LEN + TAG_LEN;
    if plain.len() > usize::MAX - overhead || (overhead + plain.len()) / 3 >= usize::MAX / 8 {
        return Err(CryptoError::EncryptionFailed);
    }
    let ciphertext = match aes_gcm_seal(key.as_slice(), nonce.as_slice(), plain) {
        Some(ciphertext) => ciphertext,
        None => { return Err(CryptoError::EncryptionFailed); },
    };
    let blob = assemble_blob(salt, nonce.as_slice(), ciphertext.as_slice());
    proof {
        lemma_layout_parses(salt@, nonce@, ciphertext@);
        vstd::utf8::encode_utf8_valid_utf8(data@);
        vstd::utf8::encode_utf8_decode_utf8(data@);
    }
    Ok(encode_base64(blob.as_slice()))
}

/// Packs `data` under `password` with a fresh random salt and a fresh random nonce.
///
/// Succeeds for every payload that fits and every password of at most
/// 2^32 - 1 bytes. The result is an export of `data` for some salt string and
/// some nonce, sealed in the documented layout, and a blob that is returned
/// opens again, under the same password, to `data`.
pub fn encrypt_export(data: &str, password: &str) -> (sealed: Result<String, CryptoError>)
    ensures
        payload_fits(encode_utf8(data@)) && encode_utf8(password@).len() <= MAX_PASSWORD_LEN
            ==> sealed is Ok,
        payload_fits(encode_utf8(data@)) ==> sealed is Ok || sealed == Err::<String, CryptoError>(
            CryptoError::KeyDerivationFailed,
        ),
        is_export_of(text_outcome(sealed), data@, password@),
        sealed matches Ok(text) ==> import_text(text@, password@) == Ok::<Seq<char>, CryptoError>(
            data@,
        ),
        sealed matches Err(e) ==> e == CryptoError::KeyDerivationFailed || e
            == CryptoError::EncryptionFailed,
{
    let salt = fresh_salt();
    let nonce = fresh_nonce();
    seal_export(data, password, salt.as_str(), &nonce)
}

/// Opens the blob text `encrypted_data` with `password`.
///
/// Fails with `MalformedBlob` where the text is not base64, the blob is not
/// well formed or the payload is not UTF-8; with `KeyDerivationFailed` where
/// the key cannot be derived; with `AuthenticationFailed` where the integrity
/// tag does not match, whether the password is wrong or the blob was altered.
pub fn decrypt_import(encrypted_data: &str, password: &str) -> (opened: Result<String, CryptoError>)
    ensures
        text_outcome(opened) == import_text(encrypted_data@, password@),
        ({
            &&& base64_bytes(encrypted_data@) matches Some(blob)
            &&& parsed_blob(blob) matches Some(fields)
            &&& derived_key(password@, fields.salt) is Some
            &&& fields.ciphertext.len() < TAG_LEN
        }) ==> opened == Err::<String, CryptoError>(CryptoError::AuthenticationFailed),
{
    let blob = match decode_base64(encrypted_data) {
        Some(blob) => blob,
        None => { return Err(CryptoError::MalformedBlob); },
    };
    let parts = match split_blob(blob.as_slice()) {
        Ok(parts) => parts,
        Err(e) => { return Err(e); },
    };
    let key = match derive_key(password, parts.salt.as_str()) {
        Some(key) => key,
        None => { return Err(CryptoError::KeyDerivationFailed); },
    };
    let plain = match aes_gcm_open(key.as_slice(), parts.nonce.as_slice(), parts.ciphertext.as_slice()) {
        Some(plain) => plain,
        None => { return Err(CryptoError::AuthenticationFailed); },
    };
    match text_from_utf8(plain) {
        Some(text) => {
            proof {
                vstd::utf8::encode_utf8_decode_utf8(text@);
            }
            Ok(text)
        },
        None => Err(CryptoError::MalformedBlob),
    }
}

} // verus!
