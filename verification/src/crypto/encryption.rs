//! AES-256-GCM encryption of block data. An encrypted buffer is the 12-byte
//! nonce followed by the sealed ciphertext (ciphertext and tag).

use aes_gcm::aead::{Aead, KeyInit};
use rand::RngCore;
use vstd::prelude::*;
use vstd::slice::slice_subrange;
use vstd::string::StringSliceAdditionalSpecFns;

use crate::block::hasher::{blake3_digest, blake3_hash};
use crate::utils::errors::HelixError;

verus! {

#[verifier::external_type_specification]
#[verifier::external_body]
pub struct ExAeadError(aes_gcm::Error);

/// The longest plaintext AES-GCM seals: 2^36 bytes.
pub open spec fn gcm_max_plaintext() -> nat {
    0x10_0000_0000
}

/// What AES-256-GCM sealing of `plaintext` under `key` and `nonce` gives:
/// the ciphertext followed by the authentication tag.
pub uninterp spec fn aes256_gcm_sealed(key: Seq<u8>, nonce: Seq<u8>, plaintext: Seq<u8>) -> Seq<u8>;

/// `Aes256Gcm::new(key).encrypt(nonce, plaintext)`: the sealed ciphertext,
/// a function of key, nonce and plaintext: the ciphertext, as long as the
/// plaintext, then the 16-byte tag. It fails exactly when the plaintext is
/// longer than 2^36 bytes (`P_MAX`; no associated data is given).
#[verifier::external_body]
fn aes_gcm_seal(key: &[u8; 32], nonce: &[u8; 12], plaintext: &[u8]) -> (r: Result<Vec<u8>, aes_gcm::Error>)
    ensures
        r is Ok <==> plaintext@.len() <= gcm_max_plaintext(),
        r matches Ok(c) ==> c@ == aes256_gcm_sealed(key@, nonce@, plaintext@) && c@.len() == plaintext@.len() + 16,
{
    let cipher = aes_gcm::Aes256Gcm::new(aes_gcm::Key::<aes_gcm::Aes256Gcm>::from_slice(key));
    cipher.encrypt(aes_gcm::Nonce::from_slice(nonce), plaintext)
}

/// What AES-256-GCM opening of `ciphertext` under `key` and `nonce` gives:
/// the plaintext when the tag authenticates it, else nothing.
pub uninterp spec fn aes256_gcm_opened(key: Seq<u8>, nonce: Seq<u8>, ciphertext: Seq<u8>) -> Option<Seq<u8>>;

/// `Aes256Gcm::new(key).decrypt(nonce, ciphertext)`: opens a sealed
/// ciphertext. The outcome is a function of key, nonce and ciphertext (an
/// error when authentication fails); what sealing some plaintext of at most
/// 2^36 bytes (the longest that seals) under the same key and nonce gave
/// opens to that plaintext. Which other inputs authenticate is left to the
/// name `aes256_gcm_opened`.
#[verifier::external_body]
fn aes_gcm_open(key: &[u8; 32], nonce: &[u8], ciphertext: &[u8]) -> (r: Result<Vec<u8>, aes_gcm::Error>)
    requires
        nonce@.len() == 12,
    ensures
        match aes256_gcm_opened(key@, nonce@, ciphertext@) {
            Some(p) => r matches Ok(v) && v@ == p,
            None => r is Err,
        },
        r is Ok || !exists|p: Seq<u8>| p.len() <= gcm_max_plaintext() && ciphertext@ == #[trigger] aes256_gcm_sealed(
            key@,
            nonce@,
            p,
        ),
        r matches Ok(v) ==> forall|p: Seq<u8>|
            p.len() <= gcm_max_plaintext() && ciphertext@ == #[trigger] aes256_gcm_sealed(key@, nonce@, p) ==> v@ == p,
{
    let cipher = aes_gcm::Aes256Gcm::new(aes_gcm::Key::<aes_gcm::Aes256Gcm>::from_slice(key));
    cipher.decrypt(aes_gcm::Nonce::from_slice(nonce), ciphertext)
}

/// The text of an `aead::Error` (its `Display` writes `aead::Error`).
#[verifier::external_body]
fn aead_error_text(e: &aes_gcm::Error) -> (s: String)
    ensures
        s@ == "aead::Error"@,
{
    e.to_string()
}

/// `rand::thread_rng().fill_bytes(buf)`: fills `buf` with random bytes; which
/// bytes is not stated. The thread's generator is seeded from the operating
/// system on first use and panics if that seeding fails, which no input can
/// cause or prevent.
#[verifier::external_body]
fn fill_random(buf: &mut [u8])
    ensures
        final(buf)@.len() == old(buf)@.len(),
{
    rand::thread_rng().fill_bytes(buf)
}

/// The message of an error that a failed seal or open reports.
pub open spec fn failure_message(prefix: Seq<char>) -> Seq<char> {
    prefix + "aead::Error"@
}

/// `data` is an encrypted buffer of `plaintext` under `key`: a 12-byte nonce,
/// then what sealing the plaintext (of at most 2^36 bytes) under that nonce
/// gives.
pub open spec fn is_encryption_of(key: Seq<u8>, data: Seq<u8>, plaintext: Seq<u8>) -> bool {
    &&& plaintext.len() <= gcm_max_plaintext()
    &&& data.len() >= 12
    &&& data.skip(12) == aes256_gcm_sealed(key, data.take(12), plaintext)
}

/// Encrypts and decrypts with one AES-256 key.
pub struct Encryptor {
    key: [u8; 32],
}

impl Encryptor {
    /// The key in use.
    pub closed spec fn key(&self) -> Seq<u8> {
        self.key@
    }

    pub fn new(key: &[u8; 32]) -> (r: Self)
        ensures
            r.key() == key@,
    {
        Encryptor { key: *key }
    }

    /// A fresh random nonce, then `data` sealed under it: 12 + len + 16
    /// bytes. Fails exactly when `data` is longer than 2^36 bytes.
    pub fn encrypt(&self, data: &[u8]) -> (r: Result<Vec<u8>, HelixError>)
        ensures
            r is Ok <==> data@.len() <= gcm_max_plaintext(),
            r matches Ok(v) ==> is_encryption_of(self.key(), v@, data@) && v@.len() == 12 + data@.len() + 16,
            r matches Err(e) ==> (e matches HelixError::Encryption(m)
                && m@ == failure_message("Encryption failed: "@)),
    {
        let mut nonce = [0u8; 12];
        fill_random(&mut nonce);
        match aes_gcm_seal(&self.key, &nonce, data) {
            Ok(ciphertext) => {
                let mut out: Vec<u8> = Vec::new();
                let mut i: usize = 0;
                while i < 12
                    invariant
                        i <= 12,
                        nonce@.len() == 12,
                        out@ == nonce@.take(i as int),
                    decreases 12 - i,
                {
                    out.push(nonce[i]);
                    assert(nonce@.take(i as int + 1) =~= nonce@.take(i as int).push(nonce@[i as int]));
                    i = i + 1;
                }
                let n = ciphertext.len();
                let mut j: usize = 0;
                while j < n
                    invariant
                        n == ciphertext@.len(),
                        j <= n,
                        out@ == nonce@ + ciphertext@.take(j as int),
                    decreases n - j,
                {
                    out.push(ciphertext[j]);
                    assert(ciphertext@.take(j as int + 1) =~= ciphertext@.take(j as int).push(ciphertext@[j as int]));
                    j = j + 1;
                }
                assert(nonce@.len() == 12);
                assert(out@.take(12) =~= nonce@);
                assert(out@.skip(12) =~= ciphertext@);
                Ok(out)
            },
            Err(e) => {
                let mut m = String::from_str("Encryption failed: ");
                let text = aead_error_text(&e);
                m.append(text.as_str());
                Err(HelixError::Encryption(m))
            },
        }
    }

    /// The plaintext of an encrypted buffer. A buffer under 12 bytes is
    /// refused; a buffer that `encrypt` made under this key opens to its
    /// plaintext.
    pub fn decrypt(&self, data: &[u8]) -> (r: Result<Vec<u8>, HelixError>)
        ensures
            data@.len() < 12 ==> (r matches Err(HelixError::Encryption(m))
                && m@ == "Invalid encrypted data: too short"@),
            forall|p: Seq<u8>| #[trigger] is_encryption_of(self.key(), data@, p) ==> (r matches Ok(v) && v@ == p),
            data@.len() >= 12 ==> match aes256_gcm_opened(self.key(), data@.take(12), data@.skip(12)) {
                Some(p) => r matches Ok(v) && v@ == p,
                None => r matches Err(HelixError::Encryption(m)) && m@ == failure_message("Decryption failed: "@),
            },
    {
        if data.len() < 12 {
            return Err(HelixError::Encryption(String::from_str("Invalid encrypted data: too short")));
        }
        let nonce = slice_subrange(data, 0, 12);
        let ciphertext = slice_subrange(data, 12, data.len());
        assert(nonce@ == data@.take(12));
        assert(ciphertext@ == data@.skip(12));
        match aes_gcm_open(&self.key, nonce, ciphertext) {
            Ok(v) => Ok(v),
            Err(e) => {
                let mut m = String::from_str("Decryption failed: ");
                let text = aead_error_text(&e);
                m.append(text.as_str());
                Err(HelixError::Encryption(m))
            },
        }
    }

    /// A fresh random 256-bit key.
    pub fn generate_key() -> (key: [u8; 32]) {
        let mut key = [0u8; 32];
        fill_random(&mut key);
        key
    }
}

/// A 256-bit key from a password and salt: the BLAKE3 digest of the
/// password's UTF-8 bytes followed by the salt.
pub fn derive_key_from_password(password: &str, salt: &[u8]) -> (key: [u8; 32])
    ensures
        key@ == blake3_digest(password.spec_bytes() + salt@),
{
    let p = password.as_bytes();
    let mut input: Vec<u8> = Vec::new();
    let n = p.len();
    let mut i: usize = 0;
    while i < n
        invariant
            n == p@.len(),
            i <= n,
            input@ == p@.take(i as int),
        decreases n - i,
    {
        input.push(p[i]);
        assert(p@.take(i as int + 1) =~= p@.take(i as int).push(p@[i as int]));
        i = i + 1;
    }
    let m = salt.len();
    let mut j: usize = 0;
    while j < m
        invariant
            m == salt@.len(),
            j <= m,
            input@ == p@ + salt@.take(j as int),
        decreases m - j,
    {
        input.push(salt[j]);
        assert(salt@.take(j as int + 1) =~= salt@.take(j as int).push(salt@[j as int]));
        j = j + 1;
    }
    assert(p@.take(n as int) =~= p@);
    assert(salt@.take(m as int) =~= salt@);
    blake3_hash(input.as_slice())
}

} // verus!
