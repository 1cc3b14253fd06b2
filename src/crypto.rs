//! Passwords at rest: AES-256-GCM under a fixed key, with a fresh random
//! nonce for each encryption, stored as Base64 of nonce followed by ciphertext.
use vstd::prelude::*;
use vstd::string::*;
use vstd::utf8::{decode_utf8, encode_utf8, valid_utf8};
use aes_gcm::aead::{Aead, KeyInit, OsRng};
use aes_gcm::{Aes256Gcm, Nonce};
use base64::Engine;
use rand::RngCore;

verus! {

/// The fixed 32-byte key.
pub const ENCRYPTION_KEY: [u8; 32] = [
    84, 97, 117, 114, 105, 65, 112, 112, 83, 101, 99, 117, 114, 101, 75, 101, 121, 50, 48, 50, 52,
    83, 101, 99, 114, 101, 116, 75, 33, 64, 35, 36,
];

/// Bytes in a nonce.
pub const NONCE_LEN: usize = 12;

/// What AES-256-GCM makes of `plaintext` under `key` and `nonce`
/// (ciphertext followed by its tag), when it accepts the input.
pub uninterp spec fn aes_gcm_sealed(key: Seq<u8>, nonce: Seq<u8>, plaintext: Seq<u8>) -> Option<
    Seq<u8>,
>;

/// The plaintext that AES-256-GCM recovers from `ciphertext` under `key` and
/// `nonce`, when the tag checks.
pub uninterp spec fn aes_gcm_opened(key: Seq<u8>, nonce: Seq<u8>, ciphertext: Seq<u8>) -> Option<
    Seq<u8>,
>;

/// Standard Base64, with padding.
pub uninterp spec fn base64_text(bytes: Seq<u8>) -> Seq<char>;

/// The bytes that standard Base64 text stands for, if it is well formed.
pub uninterp spec fn base64_bytes(text: Seq<char>) -> Option<Seq<u8>>;

/// Relies on `OsRng::try_fill_bytes` (rand_core, as re-exported by aes-gcm's
/// `aead`): twelve bytes from the operating system's generator, or nothing
/// when the generator fails.
#[verifier::external_body]
fn random_nonce() -> (r: Option<Vec<u8>>)
    ensures
        r matches Some(n) ==> n@.len() == NONCE_LEN,
{
    let mut n = [0u8; 12];
    OsRng.try_fill_bytes(&mut n).ok()?;
    Some(n.to_vec())
}

/// The longest plaintext that AES-GCM accepts, in bytes (2^36).
pub const SEAL_MAX_LEN: u64 = 68719476736;

/// Bytes that sealing adds: the authentication tag.
pub const TAG_LEN: usize = 16;

/// Relies on aes-gcm's `Aes256Gcm` (`KeyInit::new_from_slice` on a 32-byte
/// key, then `Aead::encrypt`): the result depends on its arguments alone; it
/// fails only on a plaintext longer than 2^36 bytes; the ciphertext is the
/// plaintext's length plus the 16-byte tag, and opens again to the plaintext.
#[verifier::external_body]
fn seal(key: &[u8], nonce: &[u8], plaintext: &[u8]) -> (r: Option<Vec<u8>>)
    requires
        key@.len() == 32,
        nonce@.len() == NONCE_LEN,
    ensures
        match r {
            Some(c) => aes_gcm_sealed(key@, nonce@, plaintext@) == Some(c@),
            None => aes_gcm_sealed(key@, nonce@, plaintext@) is None,
        },
        plaintext@.len() <= SEAL_MAX_LEN ==> r is Some,
        r matches Some(c) ==> c@.len() == plaintext@.len() + TAG_LEN && aes_gcm_opened(
            key@,
            nonce@,
            c@,
        ) == Some(plaintext@),
{
    let cipher = Aes256Gcm::new_from_slice(key).ok()?;
    cipher.encrypt(Nonce::from_slice(nonce), plaintext).ok()
}

/// Relies on aes-gcm's `Aes256Gcm` (`KeyInit::new_from_slice` on a 32-byte
/// key, then `Aead::decrypt`): the result depends on its arguments alone.
#[verifier::external_body]
fn open(key: &[u8], nonce: &[u8], ciphertext: &[u8]) -> (r: Option<Vec<u8>>)
    requires
        key@.len() == 32,
        nonce@.len() == NONCE_LEN,
    ensures
        match r {
            Some(p) => aes_gcm_opened(key@, nonce@, ciphertext@) == Some(p@),
            None => aes_gcm_opened(key@, nonce@, ciphertext@) is None,
        },
{
    let cipher = Aes256Gcm::new_from_slice(key).ok()?;
    cipher.decrypt(Nonce::from_slice(nonce), ciphertext).ok()
}

/// Relies on base64's `Engine::encode` with the `STANDARD` engine: four
/// characters for every three bytes or part of them (padded), and
/// `Engine::decode` gives the bytes back.
#[verifier::external_body]
fn to_base64(bytes: &[u8]) -> (r: String)
    ensures
        r@ == base64_text(bytes@),
        r@.len() == 4 * ((bytes@.len() + 2) / 3),
        base64_bytes(r@) == Some(bytes@),
{
    base64::engine::general_purpose::STANDARD.encode(bytes)
}

/// Relies on base64's `Engine::decode` with the `STANDARD` engine.
#[verifier::external_body]
fn from_base64(text: &str) -> (r: Option<Vec<u8>>)
    ensures
        match r {
            Some(b) => base64_bytes(text@) == Some(b@),
            None => base64_bytes(text@) is None,
        },
{
    base64::engine::general_purpose::STANDARD.decode(text).ok()
}

/// Relies on `String::from_utf8`: accepts exactly valid UTF-8, and decodes it.
#[verifier::external_body]
fn utf8_to_string(bytes: Vec<u8>) -> (r: Option<String>)
    ensures
        r is Some <==> valid_utf8(bytes@),
        r matches Some(s) ==> s@ == decode_utf8(bytes@),
{
    String::from_utf8(bytes).ok()
}

/// A UTF-8 encoding has at least one byte per character.
proof fn lemma_utf8_len(chars: Seq<char>)
    ensures
        encode_utf8(chars).len() >= chars.len(),
    decreases chars.len(),
{
    if chars.len() > 0 {
        lemma_utf8_len(chars.drop_first());
    }
}

/// An empty password stays empty. Otherwise a fresh nonce is drawn (this
/// alone may fail, when the system's generator does) and the password is
/// sealed under it by `seal_password`.
pub fn encrypt_password(plaintext: &str) -> (r: Result<String, String>)
    ensures
        plaintext@.len() == 0 ==> (r matches Ok(s) && s@.len() == 0),
        plaintext@.len() > 0 ==> (r matches Err(e) && e@ == "Failed to generate nonce"@) || exists|
            n: Seq<u8>,
        |
            #![trigger aes_gcm_sealed(ENCRYPTION_KEY@, n, encode_utf8(plaintext@))]
            n.len() == NONCE_LEN && match aes_gcm_sealed(
                ENCRYPTION_KEY@,
                n,
                encode_utf8(plaintext@),
            ) {
                Some(c) => r matches Ok(s) && s@ == base64_text(n + c),
                None => r matches Err(e) && e@ == "Encryption failed"@,
            },
        plaintext@.len() > 0 && encode_utf8(plaintext@).len() <= SEAL_MAX_LEN ==> (r is Ok || (
        r matches Err(e) && e@ == "Failed to generate nonce"@)),
        plaintext@.len() > 0 ==> (r matches Ok(s) ==> decrypt_error(s@) is None && decrypted(s@)
            == plaintext@ && s@.len() > plaintext@.len()),
{
    broadcast use vstd::utf8::encode_utf8_valid_utf8, vstd::utf8::encode_utf8_decode_utf8;

    if plaintext.unicode_len() == 0 {
        return Ok(String::new());
    }
    let nonce = match random_nonce() {
        Some(n) => n,
        None => {
            return Err(String::from_str("Failed to generate nonce"));
        },
    };
    seal_password(plaintext, &nonce)
}

/// Seals a password under the drawn `nonce`: Base64 of the nonce followed by
/// the sealed password bytes, which decrypts to the password and is longer
/// than it; sealing fails only on a password of more than 2^36 bytes.
pub fn seal_password(plaintext: &str, nonce: &Vec<u8>) -> (r: Result<String, String>)
    requires
        nonce@.len() == NONCE_LEN,
    ensures
        match aes_gcm_sealed(ENCRYPTION_KEY@, nonce@, encode_utf8(plaintext@)) {
            Some(c) => r matches Ok(s) && s@ == base64_text(nonce@ + c),
            None => r matches Err(e) && e@ == "Encryption failed"@,
        },
        encode_utf8(plaintext@).len() <= SEAL_MAX_LEN ==> r is Ok,
        r matches Ok(s) ==> decrypt_error(s@) is None && decrypted(s@) == plaintext@ && s@.len()
            > plaintext@.len(),
{
    broadcast use vstd::utf8::encode_utf8_valid_utf8, vstd::utf8::encode_utf8_decode_utf8;

    let key = ENCRYPTION_KEY;
    match seal(key.as_slice(), nonce.as_slice(), plaintext.as_bytes()) {
        Some(c) => {
            let mut combined = nonce.clone();
            let mut tail = c.clone();
            combined.append(&mut tail);
            assert(combined@ =~= nonce@ + c@);
            let s = to_base64(combined.as_slice());
            proof {
                assert(combined@.take(12) =~= nonce@);
                assert(combined@.skip(12) =~= c@);
                lemma_utf8_len(plaintext@);
                let m = combined@.len();
                assert(4 * ((m + 2) / 3) > m) by (nonlinear_arith)
                    requires
                        m >= 28,
                ;
            }
            Ok(s)
        },
        None => Err(String::from_str("Encryption failed")),
    }
}

/// Why a stored password could not be recovered.
pub open spec fn decrypt_error(ciphertext_b64: Seq<char>) -> Option<Seq<char>> {
    match base64_bytes(ciphertext_b64) {
        None => Some("Base64 decode failed"@),
        Some(b) => if b.len() < NONCE_LEN {
            Some("Invalid ciphertext: too short"@)
        } else {
            match aes_gcm_opened(ENCRYPTION_KEY@, b.take(12), b.skip(12)) {
                None => Some("Decryption failed"@),
                Some(p) => if valid_utf8(p) {
                    None
                } else {
                    Some("UTF-8 decode failed"@)
                },
            }
        },
    }
}

/// The password that a stored value holds, when `decrypt_error` is `None`.
pub open spec fn decrypted(ciphertext_b64: Seq<char>) -> Seq<char> {
    let b = base64_bytes(ciphertext_b64)->0;
    decode_utf8(aes_gcm_opened(ENCRYPTION_KEY@, b.take(12), b.skip(12))->0)
}

/// An empty value stays empty; otherwise the value must be Base64 of a nonce
/// and a ciphertext that opens under the key to UTF-8 text.
pub fn decrypt_password(ciphertext_b64: &str) -> (r: Result<String, String>)
    ensures
        ciphertext_b64@.len() == 0 ==> (r matches Ok(s) && s@.len() == 0),
        ciphertext_b64@.len() > 0 ==> match decrypt_error(ciphertext_b64@) {
            Some(m) => r matches Err(e) && e@ == m,
            None => r matches Ok(s) && s@ == decrypted(ciphertext_b64@),
        },
{
    if ciphertext_b64.unicode_len() == 0 {
        return Ok(String::new());
    }
    let combined = match from_base64(ciphertext_b64) {
        Some(b) => b,
        None => {
            return Err(String::from_str("Base64 decode failed"));
        },
    };
    if combined.len() < NONCE_LEN {
        return Err(String::from_str("Invalid ciphertext: too short"));
    }
    let (nonce, ciphertext) = combined.as_slice().split_at(NONCE_LEN);
    assert(nonce@ =~= combined@.take(12));
    assert(ciphertext@ =~= combined@.skip(12));
    let key = ENCRYPTION_KEY;
    let plain = match open(key.as_slice(), nonce, ciphertext) {
        Some(p) => p,
        None => {
            return Err(String::from_str("Decryption failed"));
        },
    };
    match utf8_to_string(plain) {
        Some(s) => Ok(s),
        None => Err(String::from_str("UTF-8 decode failed")),
    }
}

} // verus!
