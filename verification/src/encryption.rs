//! Key derivation and authenticated encryption of opaque strings.
//!
//! The outside primitives (SHA-256, AES-256-GCM, base64, the system RNG) are
//! reached through trusted wrappers; everything around them — the key
//! derivation chain, blob framing, and the round-trip behaviour — is verified.

use vstd::prelude::*;
use crate::errors::StoreError;
use sha2::Digest;
use base64::Engine;
use aes_gcm::aead::{Aead, KeyInit, array::Array};
use rand::Rng;

verus! {

broadcast use vstd::std_specs::vec::group_vec_axioms;

use vstd::string::StringExecFns;
use vstd::utf8::{encode_utf8, decode_utf8, valid_utf8};
use vstd::utf8::{encode_utf8_valid_utf8, encode_utf8_decode_utf8};

/// What SHA-256 returns for the given input bytes.
pub uninterp spec fn sha256_of(data: Seq<u8>) -> Seq<u8>;

/// What base64 (standard alphabet, padded) encoding returns for the given bytes.
pub uninterp spec fn b64_of(data: Seq<u8>) -> Seq<char>;

/// What base64 (standard alphabet, padded) decoding returns for the given text.
pub uninterp spec fn b64_decoded(text: Seq<char>) -> Option<Seq<u8>>;

/// What AES-256-GCM decryption returns for the given key, nonce and
/// ciphertext-with-tag; `None` stands for an authentication failure.
pub uninterp spec fn gcm_open(key: Seq<u8>, nonce: Seq<u8>, ct: Seq<u8>) -> Option<Seq<u8>>;

/// Relies on sha2::Sha256: a 32-byte digest determined by the input alone.
#[verifier::external_body]
fn sha256(data: &[u8]) -> (r: Vec<u8>)
    ensures
        r@ == sha256_of(data@),
        r@.len() == 32,
{
    sha2::Sha256::digest(data).to_vec()
}

/// Relies on base64's STANDARD engine: encoding is determined by the input
/// alone, decoding the result returns the input, and the padded output is
/// four characters for every started group of three bytes.
#[verifier::external_body]
fn b64_encode(data: &[u8]) -> (r: String)
    ensures
        r@ == b64_of(data@),
        b64_decoded(r@) == Some(data@),
        r@.len() == ((data@.len() + 2) / 3) * 4,
{
    base64::engine::general_purpose::STANDARD.encode(data)
}

/// Relies on base64's STANDARD engine: decoding is determined by the input
/// alone and fails exactly on text that is not valid base64.
#[verifier::external_body]
fn b64_decode(text: &str) -> (r: Option<Vec<u8>>)
    ensures
        match r {
            Some(b) => b64_decoded(text@) == Some(b@),
            None => b64_decoded(text@) is None,
        },
{
    base64::engine::general_purpose::STANDARD.decode(text).ok()
}

/// Relies on aes_gcm::Aes256Gcm: a sealed message opens, under the same key
/// and nonce, to exactly the plaintext that was sealed, and carries a
/// postfix 16-byte authentication tag.
#[verifier::external_body]
fn gcm_encrypt(key: &[u8], nonce: &[u8], plaintext: &[u8]) -> (r: Option<Vec<u8>>)
    requires
        key@.len() == 32,
        nonce@.len() == 12,
    ensures
        r matches Some(c) ==> gcm_open(key@, nonce@, c@) == Some(plaintext@) && c@.len()
            == plaintext@.len() + 16,
{
    let mut kb = [0u8; 32];
    kb.copy_from_slice(key);
    let mut nb = [0u8; 12];
    nb.copy_from_slice(nonce);
    let cipher = aes_gcm::Aes256Gcm::new(&Array(kb));
    cipher.encrypt(&Array(nb), plaintext).ok()
}

/// Relies on aes_gcm::Aes256Gcm: decryption is determined by key, nonce and
/// ciphertext, returns the unique plaintext when authentication succeeds, and
/// fails otherwise.
#[verifier::external_body]
fn gcm_decrypt(key: &[u8], nonce: &[u8], ciphertext: &[u8]) -> (r: Option<Vec<u8>>)
    requires
        key@.len() == 32,
        nonce@.len() == 12,
    ensures
        match r {
            Some(p) => gcm_open(key@, nonce@, ciphertext@) == Some(p@),
            None => gcm_open(key@, nonce@, ciphertext@) is None,
        },
{
    let mut kb = [0u8; 32];
    kb.copy_from_slice(key);
    let mut nb = [0u8; 12];
    nb.copy_from_slice(nonce);
    let cipher = aes_gcm::Aes256Gcm::new(&Array(kb));
    cipher.decrypt(&Array(nb), ciphertext).ok()
}

/// Relies on rand::thread_rng: fills a buffer with random bytes; nothing is
/// promised of the values.
#[verifier::external_body]
fn random_bytes(n: usize) -> (r: Vec<u8>)
    ensures
        r@.len() == n as nat,
{
    let mut buf = vec![0u8; n];
    rand::thread_rng().fill(buf.as_mut_slice());
    buf
}

/// Relies on String::from_utf8: succeeds exactly on valid UTF-8 and returns
/// the decoded characters.
#[verifier::external_body]
fn bytes_to_string(v: Vec<u8>) -> (r: Option<String>)
    ensures
        match r {
            Some(s) => vstd::utf8::valid_utf8(v@) && s@ == vstd::utf8::decode_utf8(v@),
            None => !vstd::utf8::valid_utf8(v@),
        },
{
    String::from_utf8(v).ok()
}

/// `n` applications of SHA-256 to `seed`.
pub open spec fn sha256_chain(seed: Seq<u8>, n: nat) -> Seq<u8>
    decreases n,
{
    if n == 0 {
        seed
    } else {
        sha256_of(sha256_chain(seed, (n - 1) as nat))
    }
}

/// The symmetric key derived from a password and salt: a salted SHA-256
/// chain of 10001 rounds over a key-derivation context label.
pub open spec fn derived_key(password: Seq<char>, salt: Seq<char>) -> Seq<u8> {
    sha256_chain(encode_utf8("key:"@ + password + salt), 10001)
}

/// The verification digest stored for a password: the same chain over a
/// distinct context label (so the stored digest never equals the data key),
/// encoded as base64 text.
pub open spec fn password_digest(password: Seq<char>, salt: Seq<char>) -> Seq<char> {
    b64_of(sha256_chain(encode_utf8("verify:"@ + password + salt), 10001))
}

/// The framing that `encrypt` writes: base64 text holding a 12-byte nonce
/// followed by the GCM ciphertext-with-tag.  Opening undoes the framing and
/// authenticates; `None` stands for malformed or inauthentic input.
pub open spec fn open_blob(key: Seq<u8>, blob: Seq<char>) -> Option<Seq<u8>> {
    match b64_decoded(blob) {
        Some(combined) => if combined.len() >= 12 {
            gcm_open(
                key,
                combined.subrange(0, 12),
                combined.subrange(12, combined.len() as int),
            )
        } else {
            None
        },
        None => None,
    }
}

/// What `decrypt` returns for a key and a stored blob: the sealed text when
/// the blob authenticates and decodes as UTF-8, nothing otherwise.
pub open spec fn decrypt_spec(key: Seq<u8>, blob: Seq<char>) -> Option<Seq<char>> {
    match open_blob(key, blob) {
        Some(pt) => if valid_utf8(pt) {
            Some(decode_utf8(pt))
        } else {
            None
        },
        None => None,
    }
}

/// Opening a blob that seals the text `plain` under `key` yields `plain`
/// again: every blob `encrypt` produces decrypts, under the same key, to the
/// exact text that was sealed.
pub proof fn lemma_seal_open_round_trip(key: Seq<u8>, blob: Seq<char>, plain: Seq<char>)
    requires
        open_blob(key, blob) == Some(encode_utf8(plain)),
    ensures
        decrypt_spec(key, blob) == Some(plain),
{
    encode_utf8_valid_utf8(plain);
    encode_utf8_decode_utf8(plain);
}

/// SHA-256 chain of 10001 rounds over the UTF-8 bytes of `seed`.
fn chain_digest(seed: &str) -> (r: Vec<u8>)
    ensures
        r@ == sha256_chain(encode_utf8(seed@), 10001),
        r@.len() == 32,
{
    let mut h = sha256(seed.as_bytes());
    proof {
        assert(sha256_chain(encode_utf8(seed@), 0) == encode_utf8(seed@));
        assert(h@ == sha256_chain(encode_utf8(seed@), 1));
    }
    let mut i: u64 = 0;
    while i < 10000
        invariant
            i <= 10000,
            h@ == sha256_chain(encode_utf8(seed@), (i + 1) as nat),
            h@.len() == 32,
        decreases 10000 - i,
    {
        h = sha256(h.as_slice());
        i = i + 1;
    }
    h
}

/// The cipher held while encryption is active: a derived 32-byte key.
pub struct DatabaseEncryption {
    key: Vec<u8>,
}

impl DatabaseEncryption {
    /// The key is exactly 32 bytes wide.
    pub closed spec fn wf(&self) -> bool {
        self.key@.len() == 32
    }

    /// The derived symmetric key.
    pub closed spec fn spec_key(&self) -> Seq<u8> {
        self.key@
    }

    /// Derive the cipher from a password and salt.  Deterministic: the same
    /// inputs always yield the same key, so an already-encrypted store can be
    /// reopened.
    pub fn new(password: &str, salt: &str) -> (r: Result<Self, StoreError>)
        ensures
            r matches Ok(e) && e.wf() && e.spec_key() == derived_key(password@, salt@),
    {
        let mut seed = String::from_str("key:");
        seed.append(password);
        seed.append(salt);
        proof {
            assert(seed@ =~= "key:"@ + password@ + salt@);
        }
        let key = chain_digest(seed.as_str());
        Ok(DatabaseEncryption { key })
    }

    /// A fresh random salt: 32 bytes drawn from the system RNG, base64
    /// encoded into 44 characters of printable text.  Nothing is promised
    /// of the bytes themselves.
    pub fn generate_salt() -> (r: String)
        ensures
            r@.len() == 44,
            b64_decoded(r@) matches Some(b) && b.len() == 32,
    {
        let salt = random_bytes(32);
        b64_encode(salt.as_slice())
    }

    /// The verification digest for a password and salt: 44 characters of
    /// printable base64 over a fixed 32-byte digest.
    pub fn hash_password(password: &str, salt: &str) -> (r: String)
        ensures
            r@ == password_digest(password@, salt@),
            r@.len() == 44,
    {
        let mut seed = String::from_str("verify:");
        seed.append(password);
        seed.append(salt);
        proof {
            assert(seed@ =~= "verify:"@ + password@ + salt@);
        }
        let digest = chain_digest(seed.as_str());
        b64_encode(digest.as_slice())
    }

    /// A password matches a stored digest exactly when the digest derived
    /// from it under the same salt is the stored one.
    pub fn verify_password(password: &str, salt: &str, stored_hash: &str) -> (r: bool)
        ensures
            r == (stored_hash@ == password_digest(password@, salt@)),
    {
        let computed = Self::hash_password(password, salt);
        let stored = stored_hash.to_owned();
        computed == stored
    }

    /// Seal a text under the held key: a fresh random nonce is drawn, the
    /// text is GCM-encrypted, and nonce plus ciphertext are framed into one
    /// self-contained base64 token.  Every token this returns decrypts,
    /// under the same key, to `data`.
    pub fn encrypt(&self, data: &str) -> (r: Result<String, StoreError>)
        requires
            self.wf(),
        ensures
            r matches Ok(c) ==> decrypt_spec(self.spec_key(), c@) == Some(data@),
            r matches Ok(c) ==> (b64_decoded(c@) matches Some(combined) && combined.len() == 12
                + encode_utf8(data@).len() + 16),
            r matches Err(e) ==> e == StoreError::EncryptError,
    {
        let nonce = random_bytes(12);
        let pt = data.as_bytes();
        match gcm_encrypt(self.key.as_slice(), nonce.as_slice(), pt) {
            Some(ct) => {
                let mut combined = nonce;
                let mut ctv = ct;
                combined.append(&mut ctv);
                let blob = b64_encode(combined.as_slice());
                proof {
                    let whole = combined@;
                    assert(whole.subrange(0, 12) =~= nonce@);
                    assert(whole.subrange(12, whole.len() as int) =~= ct@);
                    assert(open_blob(self.spec_key(), blob@) == Some(encode_utf8(data@)));
                    lemma_seal_open_round_trip(self.spec_key(), blob@, data@);
                }
                Ok(blob)
            },
            None => Err(StoreError::EncryptError),
        }
    }

    /// Open a stored token under the held key.  Fails closed: tampering,
    /// truncation or a wrong key yield `DecryptError`, never garbage.
    pub fn decrypt(&self, blob: &str) -> (r: Result<String, StoreError>)
        requires
            self.wf(),
        ensures
            match r {
                Ok(p) => decrypt_spec(self.spec_key(), blob@) == Some(p@),
                Err(e) => decrypt_spec(self.spec_key(), blob@) is None
                    && e == StoreError::DecryptError,
            },
    {
        let combined = match b64_decode(blob) {
            Some(c) => c,
            None => {
                return Err(StoreError::DecryptError);
            },
        };
        let n = combined.len();
        if n < 12 {
            return Err(StoreError::DecryptError);
        }
        let mut nonce: Vec<u8> = Vec::new();
        let mut i: usize = 0;
        while i < 12
            invariant
                i <= 12,
                n == combined@.len(),
                n >= 12,
                nonce@ =~= combined@.subrange(0, i as int),
            decreases 12 - i,
        {
            nonce.push(combined[i]);
            i = i + 1;
        }
        let mut ct: Vec<u8> = Vec::new();
        let mut j: usize = 12;
        while j < n
            invariant
                12 <= j <= n,
                n == combined@.len(),
                ct@ =~= combined@.subrange(12, j as int),
            decreases n - j,
        {
            ct.push(combined[j]);
            j = j + 1;
        }
        proof {
            assert(nonce@ =~= combined@.subrange(0, 12));
            assert(ct@ =~= combined@.subrange(12, combined@.len() as int));
        }
        match gcm_decrypt(self.key.as_slice(), nonce.as_slice(), ct.as_slice()) {
            Some(pb) => match bytes_to_string(pb) {
                Some(s) => Ok(s),
                None => Err(StoreError::DecryptError),
            },
            None => Err(StoreError::DecryptError),
        }
    }
}

} // verus!
