//! The layout of an export blob before it is base64-encoded:
//! the salt string, a `:`, twelve bytes of nonce, then the ciphertext with its tag.

use vstd::prelude::*;
use vstd::slice::{slice_subrange, slice_to_vec};
use vstd::utf8::{decode_utf8, encode_utf8, is_ascii_chars, valid_utf8};
use crate::error::CryptoError;
use crate::primitives::{is_salt_char, is_salt_text, salt_accepted, text_from_utf8, NONCE_LEN};

verus! {

/// The byte `:` that ends the salt.
pub const SEPARATOR: u8 = 0x3a;

/// The three fields of a blob, as mathematical values.
pub struct BlobFields {
    pub salt: Seq<char>,
    pub nonce: Seq<u8>,
    pub ciphertext: Seq<u8>,
}

/// The three fields of a blob.
#[derive(Debug)]
pub struct BlobParts {
    /// The salt string of the key derivation.
    pub salt: String,
    /// The twelve bytes of the nonce.
    pub nonce: Vec<u8>,
    /// The ciphertext with the integrity tag appended.
    pub ciphertext: Vec<u8>,
}

impl View for BlobParts {
    type V = BlobFields;

    open spec fn view(&self) -> BlobFields {
        BlobFields { salt: self.salt@, nonce: self.nonce@, ciphertext: self.ciphertext@ }
    }
}

/// The bytes of the blob that holds the three fields.
pub open spec fn blob_layout(salt: Seq<char>, nonce: Seq<u8>, ciphertext: Seq<u8>) -> Seq<u8> {
    encode_utf8(salt) + seq![SEPARATOR] + nonce + ciphertext
}

/// The fields of `blob`. A blob is well formed when it holds a `:`, the bytes
/// before the first `:` are the text of a salt string, and at least twelve
/// bytes follow it.
pub open spec fn parsed_blob(blob: Seq<u8>) -> Option<BlobFields> {
    match blob.index_of_first(SEPARATOR) {
        None => None,
        Some(at) => {
            let head = blob.take(at);
            let rest = blob.skip(at + 1);
            if valid_utf8(head) && is_salt_text(decode_utf8(head)) && rest.len() >= NONCE_LEN {
                Some(
                    BlobFields {
                        salt: decode_utf8(head),
                        nonce: rest.take(NONCE_LEN as int),
                        ciphertext: rest.skip(NONCE_LEN as int),
                    },
                )
            } else {
                None
            }
        },
    }
}

/// `at` is the position of the first `:` of `blob`.
pub open spec fn is_first_separator(blob: Seq<u8>, at: int) -> bool {
    &&& 0 <= at < blob.len()
    &&& blob[at] == SEPARATOR
    &&& forall|j: int| 0 <= j < at ==> blob[j] != SEPARATOR
}

/// The first `:` of a blob is where `index_of_first` finds it.
pub proof fn lemma_first_separator(blob: Seq<u8>, at: int)
    requires
        is_first_separator(blob, at),
    ensures
        blob.index_of_first(SEPARATOR) == Some(at),
{
    blob.index_of_first_ensures(SEPARATOR);
    assert(blob.contains(SEPARATOR));
    let found = blob.index_of_first(SEPARATOR).unwrap();
    if found < at {
        assert(blob[found] != SEPARATOR);
    } else if at < found {
        assert(blob[at] != SEPARATOR);
    }
}

/// A salt string is ASCII text without a `:`: its bytes are its characters.
pub proof fn lemma_salt_bytes(salt: Seq<char>)
    requires
        is_salt_text(salt),
    ensures
        encode_utf8(salt).len() == salt.len(),
        forall|i: int| 0 <= i < salt.len() ==> #[trigger] encode_utf8(salt)[i] != SEPARATOR,
        valid_utf8(encode_utf8(salt)),
        decode_utf8(encode_utf8(salt)) == salt,
{
    assert(is_ascii_chars(salt)) by {
        assert forall|i: int| 0 <= i < salt.len() implies '\0' <= #[trigger] salt[i] <= '\u{7f}' by {
            assert(is_salt_char(salt[i]));
        }
    }
    vstd::utf8::is_ascii_chars_encode_utf8(salt);
    vstd::utf8::encode_utf8_valid_utf8(salt);
    vstd::utf8::encode_utf8_decode_utf8(salt);
    assert forall|i: int| 0 <= i < salt.len() implies #[trigger] encode_utf8(salt)[i]
        != SEPARATOR by {
        assert(is_salt_char(salt[i]));
        assert(salt[i] as u8 == encode_utf8(salt)[i]);
    }
}

/// What is laid out is parsed back: the first `:` of the blob ends the salt,
/// at least twelve bytes follow it, and the three fields are recovered.
pub proof fn lemma_layout_parses(salt: Seq<char>, nonce: Seq<u8>, ciphertext: Seq<u8>)
    requires
        is_salt_text(salt),
        nonce.len() == NONCE_LEN,
    ensures
        is_first_separator(blob_layout(salt, nonce, ciphertext), salt.len() as int),
        blob_layout(salt, nonce, ciphertext).len() == salt.len() + 1 + NONCE_LEN + ciphertext.len(),
        parsed_blob(blob_layout(salt, nonce, ciphertext)) == Some(
            BlobFields { salt, nonce, ciphertext },
        ),
{
    let blob = blob_layout(salt, nonce, ciphertext);
    let at = salt.len() as int;
    lemma_salt_bytes(salt);
    assert forall|j: int| 0 <= j < at implies blob[j] != SEPARATOR by {
        assert(blob[j] == encode_utf8(salt)[j]);
    }
    assert(blob[at] == SEPARATOR);
    lemma_first_separator(blob, at);
    assert(blob.take(at) == encode_utf8(salt));
    let rest = blob.skip(at + 1);
    assert(rest == nonce + ciphertext);
    assert(rest.take(NONCE_LEN as int) == nonce);
    assert(rest.skip(NONCE_LEN as int) == ciphertext);
}

/// Lays the three fields out as one blob.
pub fn assemble_blob(salt: &str, nonce: &[u8], ciphertext: &[u8]) -> (blob: Vec<u8>)
    ensures
        blob@ == blob_layout(salt@, nonce@, ciphertext@),
{
    let mut blob: Vec<u8> = Vec::new();
    append_bytes(&mut blob, salt.as_bytes());
    blob.push(SEPARATOR);
    append_bytes(&mut blob, nonce);
    append_bytes(&mut blob, ciphertext);
    blob
}

/// Appends `bytes` to `target`.
fn append_bytes(target: &mut Vec<u8>, bytes: &[u8])
    ensures
        final(target)@ == old(target)@ + bytes@,
{
    let n = bytes.len();
    let mut i: usize = 0;
    while i < n
        invariant
            n == bytes@.len(),
            i <= n,
            target@ == old(target)@ + bytes@.take(i as int),
        decreases n - i,
    {
        target.push(bytes[i]);
        i += 1;
    }
}

/// The position of the first `:` in `blob`.
pub fn find_separator(blob: &[u8]) -> (hit: Option<usize>)
    ensures
        match hit {
            Some(at) => is_first_separator(blob@, at as int) && blob@.index_of_first(SEPARATOR)
                == Some(at as int),
            None => blob@.index_of_first(SEPARATOR) is None,
        },
{
    let n = blob.len();
    let mut i: usize = 0;
    while i < n
        invariant
            n == blob@.len(),
            i <= n,
            forall|j: int| 0 <= j < i ==> blob@[j] != SEPARATOR,
        decreases n - i,
    {
        if blob[i] == SEPARATOR {
            proof {
                lemma_first_separator(blob@, i as int);
            }
            return Some(i);
        }
        i += 1;
    }
    proof {
        blob@.index_of_first_ensures(SEPARATOR);
    }
    None
}

/// Takes a blob apart. Fails with `MalformedBlob` exactly when the blob is not well formed.
pub fn split_blob(blob: &[u8]) -> (parts: Result<BlobParts, CryptoError>)
    ensures
        match parts {
            Ok(p) => parsed_blob(blob@) == Some(p@),
            Err(e) => e == CryptoError::MalformedBlob && parsed_blob(blob@) is None,
        },
{
    let at = match find_separator(blob) {
        Some(at) => at,
        None => { return Err(CryptoError::MalformedBlob); },
    };
    let n = blob.len();
    let head = slice_to_vec(slice_subrange(blob, 0, at));
    let rest = slice_subrange(blob, at + 1, n);
    let salt = match text_from_utf8(head) {
        Some(salt) => salt,
        None => { return Err(CryptoError::MalformedBlob); },
    };
    proof {
        vstd::utf8::encode_utf8_decode_utf8(salt@);
    }
    if !salt_accepted(salt.as_str()) {
        return Err(CryptoError::MalformedBlob);
    }
    if rest.len() < NONCE_LEN {
        return Err(CryptoError::MalformedBlob);
    }
    let nonce = slice_to_vec(slice_subrange(rest, 0, NONCE_LEN));
    let ciphertext = slice_to_vec(slice_subrange(rest, NONCE_LEN, rest.len()));
    Ok(BlobParts { salt, nonce, ciphertext })
}

} // verus!
