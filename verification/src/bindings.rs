use aes_gcm::aead::Aead;
use aes_gcm::aead::KeyInit;
use base64::Engine;
use sha2::Digest;
use vstd::prelude::*;
use vstd::utf8::decode_utf8;
use vstd::utf8::valid_utf8;

verus! {

/// `String::push`: appends one character at the end of the string.
#[verifier::external_body]
pub(crate) fn string_push(s: &mut String, c: char)
    ensures
        final(s)@ == old(s)@.push(c),
{
    s.push(c);
}

/// `String::from_utf8`: succeeds exactly when the bytes are well-formed UTF-8, and then
/// the string holds the characters those bytes encode; the error is dropped here.
#[verifier::external_body]
pub(crate) fn string_from_utf8(bytes: Vec<u8>) -> (r: Option<String>)
    ensures
        r is Some <==> valid_utf8(bytes@),
        r matches Some(s) ==> s@ == decode_utf8(bytes@),
{
    match String::from_utf8(bytes) {
        Ok(s) => Some(s),
        Err(_) => None,
    }
}

/// The byte views of an optional byte vector.
pub open spec fn bytes_view(v: Option<Vec<u8>>) -> Option<Seq<u8>> {
    match v {
        Some(b) => Some(b@),
        None => None,
    }
}

/// What the standard base64 engine of the `base64` crate decodes from `input`, `None`
/// where it reports an error.
pub uninterp spec fn base64_standard_decode(input: Seq<u8>) -> Option<Seq<u8>>;

/// `base64::engine::general_purpose::STANDARD.decode`: its result is named
/// `base64_standard_decode` of the input; nothing more of it is stated here.
#[verifier::external_body]
pub(crate) fn base64_decode(input: &[u8]) -> (r: Option<Vec<u8>>)
    ensures
        bytes_view(r) == base64_standard_decode(input@),
{
    match base64::engine::general_purpose::STANDARD.decode(input) {
        Ok(v) => Some(v),
        Err(_) => None,
    }
}

/// Whether `b` is a character of base64's standard alphabet (`A`-`Z`, `a`-`z`, `0`-`9`,
/// `+`, `/`) or its padding `=`.
pub open spec fn is_base64_byte(b: u8) -> bool {
    (65 <= b <= 90) || (97 <= b <= 122) || (48 <= b <= 57) || b == 43 || b == 47 || b == 61
}

/// What the standard base64 engine of the `base64` crate encodes `input` as.
pub uninterp spec fn base64_standard_encode(input: Seq<u8>) -> Seq<u8>;

/// `base64::engine::general_purpose::STANDARD.encode`: its result is named
/// `base64_standard_encode` of the input. The source and documentation also show that it
/// is padded to 4 characters per started 3 input bytes, that it uses only the standard
/// alphabet and `=`, and that the same engine decodes it back to the input. It panics
/// when the encoded length does not fit in `usize`, hence the `requires`.
#[verifier::external_body]
pub(crate) fn base64_encode(input: &[u8]) -> (r: Vec<u8>)
    requires
        4 * ((input@.len() + 2) / 3) <= usize::MAX,
    ensures
        r@ == base64_standard_encode(input@),
        r@.len() == 4 * ((input@.len() + 2) / 3),
        forall|i: int| 0 <= i < r@.len() ==> is_base64_byte(#[trigger] r@[i]),
        base64_standard_decode(r@) == Some(input@),
{
    base64::engine::general_purpose::STANDARD.encode(input).into_bytes()
}

/// What AES-128-GCM decryption with `key`, the 12-byte `nonce` and no associated data
/// gives for `ciphertext` (the encrypted bytes followed by the 16-byte tag), `None` where
/// the tag does not authenticate.
pub uninterp spec fn aes128_gcm_open(key: Seq<u8>, nonce: Seq<u8>, ciphertext: Seq<u8>) -> Option<Seq<u8>>;

/// `aes_gcm::Aes128Gcm::decrypt` with the cipher made from `key`: its result is named
/// `aes128_gcm_open` of the key, nonce and ciphertext. The source also shows that a
/// success strips the 16-byte tag, so the plaintext is 16 bytes shorter than the input.
/// `Nonce::from_slice` panics unless the nonce has 12 bytes, hence the `requires`.
#[verifier::external_body]
pub(crate) fn aes128_gcm_decrypt(key: &[u8; 16], nonce: &[u8], ciphertext: &[u8]) -> (r: Option<Vec<u8>>)
    requires
        nonce@.len() == 12,
    ensures
        bytes_view(r) == aes128_gcm_open(key@, nonce@, ciphertext@),
        r matches Some(p) ==> ciphertext@.len() >= 16 && p@.len() == ciphertext@.len() - 16,
{
    let cipher = aes_gcm::Aes128Gcm::new(aes_gcm::Key::<aes_gcm::Aes128Gcm>::from_slice(key));
    match cipher.decrypt(aes_gcm::Nonce::from_slice(nonce), ciphertext) {
        Ok(p) => Some(p),
        Err(_) => None,
    }
}

/// What AES-128-GCM encryption with `key`, the 12-byte `nonce` and no associated data
/// gives for `plaintext`: the encrypted bytes followed by the 16-byte tag.
pub uninterp spec fn aes128_gcm_seal(key: Seq<u8>, nonce: Seq<u8>, plaintext: Seq<u8>) -> Seq<u8>;

/// `aes_gcm::Aes128Gcm::encrypt` with the cipher made from `key`: its result is named
/// `aes128_gcm_seal` of the key, nonce and plaintext. The source shows that its only
/// error is a plaintext longer than 2^36 bytes, that it appends the 16-byte tag, and
/// (as for any AEAD) that decryption with the same key and nonce gives the plaintext back.
/// `Nonce::from_slice` panics unless the nonce has 12 bytes.
#[verifier::external_body]
pub(crate) fn aes128_gcm_encrypt(key: &[u8; 16], nonce: &[u8], plaintext: &[u8]) -> (r: Option<Vec<u8>>)
    requires
        nonce@.len() == 12,
    ensures
        r is Some <==> plaintext@.len() <= 0x10_0000_0000,
        r matches Some(c) ==> c@ == aes128_gcm_seal(key@, nonce@, plaintext@),
        r matches Some(c) ==> c@.len() == plaintext@.len() + 16,
        r matches Some(c) ==> aes128_gcm_open(key@, nonce@, c@) == Some(plaintext@),
{
    let cipher = aes_gcm::Aes128Gcm::new(aes_gcm::Key::<aes_gcm::Aes128Gcm>::from_slice(key));
    match cipher.encrypt(aes_gcm::Nonce::from_slice(nonce), plaintext) {
        Ok(c) => Some(c),
        Err(_) => None,
    }
}

/// The SHA-256 digest of `data`.
pub uninterp spec fn sha256(data: Seq<u8>) -> Seq<u8>;

/// `sha2::Sha256::digest`: its result is named `sha256` of the input, and it has
/// 32 bytes.
#[verifier::external_body]
pub(crate) fn sha256_digest(data: &[u8]) -> (r: Vec<u8>)
    ensures
        r@ == sha256(data@),
        r@.len() == 32,
{
    sha2::Sha256::digest(data).to_vec()
}

/// The 128-bit value of the UUID that `uuid::Uuid::parse_str` reads from `text`, `None`
/// where it reports an error.
pub uninterp spec fn uuid_parse(text: Seq<char>) -> Option<u128>;

/// `uuid::Uuid::parse_str` followed by `as_u128`: its result is named `uuid_parse` of
/// the text.
#[verifier::external_body]
pub(crate) fn parse_uuid(text: &str) -> (r: Option<u128>)
    ensures
        r == uuid_parse(text@),
{
    match uuid::Uuid::parse_str(text) {
        Ok(u) => Some(u.as_u128()),
        Err(_) => None,
    }
}

} // verus!
