//! Key derivation, encryption of stored values and token hashing.
//!
//! The primitives come from `argon2`, `hkdf`, `sha2`, `aes-gcm`, `base64` and
//! `rand`; each is called through one trusted item below, whose contract is
//! all that the proofs here rely on.
use vstd::prelude::*;
use vstd::utf8::{decode_utf8, encode_utf8, valid_utf8};
use crate::config::{Config, CryptoConfig};
use crate::storage::{join_path, joined_path};
use crate::error::AppError;
use crate::text::{concat, from_char_range, lemma_starts_with_concat, starts_with, to_chars};

use aes_gcm::aead::{Aead, KeyInit};
use base64::Engine;
use rand::TryRngCore;
use sha2::Digest;
use zeroize::Zeroize;

verus! {

broadcast use vstd::utf8::encode_utf8_valid_utf8, vstd::utf8::encode_utf8_decode_utf8;

/// The length of the master key, in bytes.
pub const MASTER_KEY_LEN: usize = 32;
/// The length of an AES-GCM nonce, in bytes.
pub const NONCE_LEN: usize = 12;

/// The Argon2id output for the given costs, password and salt.
pub uninterp spec fn argon2id_hash(m_cost: u32, t_cost: u32, p_cost: u32, pwd: Seq<u8>, salt: Seq<u8>) -> Seq<u8>;

/// The 32 bytes that HKDF-SHA256 expands from `salt`, `ikm` and `info`.
pub uninterp spec fn hkdf_sha256_expand(salt: Seq<u8>, ikm: Seq<u8>, info: Seq<u8>) -> Seq<u8>;

/// The SHA-256 digest of `data`.
pub uninterp spec fn sha256(data: Seq<u8>) -> Seq<u8>;

/// The AES-256-GCM ciphertext (with its tag) of `plaintext`.
pub uninterp spec fn aes256gcm_seal(key: Seq<u8>, nonce: Seq<u8>, plaintext: Seq<u8>) -> Seq<u8>;

/// The AES-256-GCM decryption of `ciphertext`, if it is authentic.
pub uninterp spec fn aes256gcm_open(key: Seq<u8>, nonce: Seq<u8>, ciphertext: Seq<u8>) -> Option<Seq<u8>>;

/// The URL-safe, unpadded base64 text of `data`.
pub uninterp spec fn base64url_encode(data: Seq<u8>) -> Seq<char>;

/// The bytes that the URL-safe, unpadded base64 `text` stands for, or the
/// text of the error it is refused with.
pub uninterp spec fn base64url_decode(text: Seq<char>) -> Result<Seq<u8>, Seq<char>>;

/// `text` is base64 that decodes to `data`.
pub open spec fn decodes_to(text: Seq<char>, data: Seq<u8>) -> bool {
    base64url_decode(text) == Ok::<Seq<u8>, Seq<char>>(data)
}

/// The text of the error `String::from_utf8` refuses `bytes` with.
pub uninterp spec fn utf8_error_text(bytes: Seq<u8>) -> Seq<char>;

/// The text of the error `argon2::Params::new` refuses the given costs
/// with (for a 32-byte output).
pub uninterp spec fn argon2_params_error(m_cost: u32, t_cost: u32, p_cost: u32) -> Seq<char>;

/// The costs that `argon2::Params::new` accepts (with a 32-byte output).
pub open spec fn argon2_params_valid(m_cost: u32, t_cost: u32, p_cost: u32) -> bool {
    &&& m_cost >= 8
    &&& m_cost as int >= p_cost as int * 8
    &&& t_cost >= 1
    &&& 1 <= p_cost <= 0xFF_FFFF
}

/// Derives a 32-byte key with Argon2id (version 0x13): calls
/// `argon2::Params::new(m_cost, t_cost, p_cost, Some(32))`, `Argon2::new`
/// and `Argon2::hash_password_into`. Claimed: the parameters are refused
/// exactly when `argon2_params_valid` fails (the checks of `Params::new`),
/// and then with the text `argon2_params_error` of the costs, and
/// otherwise hashing succeeds (a 32-byte output, a salt of at least 8
/// bytes) and yields `argon2id_hash` of the arguments.
#[verifier::external_body]
fn argon2id_derive(m_cost: u32, t_cost: u32, p_cost: u32, pwd: &[u8], salt: &[u8]) -> (res: Result<[u8; 32], String>)
    requires
        p_cost as int * 8 <= u32::MAX,
        pwd@.len() <= u32::MAX,
        8 <= salt@.len() <= u32::MAX,
    ensures
        res is Ok <==> argon2_params_valid(m_cost, t_cost, p_cost),
        res matches Ok(k) ==> k@ == argon2id_hash(m_cost, t_cost, p_cost, pwd@, salt@),
        res matches Err(m) ==> m@ == argon2_params_error(m_cost, t_cost, p_cost),
{
    let params = argon2::Params::new(m_cost, t_cost, p_cost, Some(32)).map_err(|e| e.to_string())?;
    let argon2 = argon2::Argon2::new(argon2::Algorithm::Argon2id, argon2::Version::V0x13, params);
    let mut out = [0u8; 32];
    argon2.hash_password_into(pwd, salt, &mut out).map_err(|e| e.to_string())?;
    Ok(out)
}

/// Calls `Hkdf::<Sha256>::new(Some(salt), ikm)` and `expand(info, ..)` into
/// 32 bytes. Claimed: expanding 32 bytes never fails (the limit is 255
/// blocks of 32), and the output is `hkdf_sha256_expand` of the arguments.
#[verifier::external_body]
fn hkdf_sha256(salt: &[u8], ikm: &[u8], info: &[u8]) -> (okm: [u8; 32])
    ensures
        okm@ == hkdf_sha256_expand(salt@, ikm@, info@),
{
    let hk = hkdf::Hkdf::<sha2::Sha256>::new(Some(salt), ikm);
    let mut okm = [0u8; 32];
    let _ = hk.expand(info, &mut okm);
    okm
}

/// Calls `Sha256::new`, `update(a)`, `update(b)` and `finalize`. Claimed:
/// the digest is `sha256` of `a` followed by `b`, and has 32 bytes.
#[verifier::external_body]
fn sha256_of_pair(a: &[u8], b: &[u8]) -> (d: Vec<u8>)
    ensures
        d@ == sha256(a@ + b@),
        d@.len() == 32,
{
    let mut hasher = sha2::Sha256::new();
    hasher.update(a);
    hasher.update(b);
    hasher.finalize().to_vec()
}

/// Calls `Aes256Gcm::new_from_slice(key)` and `encrypt(nonce, plaintext)`.
/// Claimed: with a 32-byte key and a 12-byte nonce, encryption fails only
/// for a plaintext longer than 2^36 bytes; its output is
/// `aes256gcm_seal` of the arguments, 16 bytes longer than the plaintext,
/// and decrypts, with the same key and nonce, back to the plaintext.
#[verifier::external_body]
fn aes_seal(key: &[u8; 32], nonce: &[u8], plaintext: &[u8]) -> (res: Option<Vec<u8>>)
    requires
        nonce@.len() == 12,
    ensures
        res is Some <==> plaintext@.len() <= 0x10_0000_0000,
        res matches Some(c) ==> c@ == aes256gcm_seal(key@, nonce@, plaintext@) && c@.len()
            == plaintext@.len() + 16 && aes256gcm_open(key@, nonce@, c@) == Some(plaintext@),
{
    let cipher = aes_gcm::Aes256Gcm::new_from_slice(key).ok()?;
    cipher.encrypt(aes_gcm::Nonce::from_slice(nonce), plaintext).ok()
}

/// Calls `Aes256Gcm::new_from_slice(key)` and `decrypt(nonce, ciphertext)`.
/// Claimed: the result is `aes256gcm_open` of the arguments.
#[verifier::external_body]
fn aes_open(key: &[u8; 32], nonce: &[u8], ciphertext: &[u8]) -> (res: Option<Vec<u8>>)
    requires
        nonce@.len() == 12,
    ensures
        match res {
            Some(p) => aes256gcm_open(key@, nonce@, ciphertext@) == Some(p@),
            None => aes256gcm_open(key@, nonce@, ciphertext@) is None,
        },
{
    let cipher = aes_gcm::Aes256Gcm::new_from_slice(key).ok()?;
    cipher.decrypt(aes_gcm::Nonce::from_slice(nonce), ciphertext).ok()
}

/// A character of the URL-safe base64 alphabet.
pub open spec fn url_safe_char(c: char) -> bool {
    ||| 'A' <= c <= 'Z'
    ||| 'a' <= c <= 'z'
    ||| '0' <= c <= '9'
    ||| c == '-'
    ||| c == '_'
}

/// Calls `URL_SAFE_NO_PAD.encode(data)`. Claimed: the text is
/// `base64url_encode(data)`, decoding it gives `data` back, it is written
/// in the URL-safe alphabet `A`-`Z`, `a`-`z`, `0`-`9`, `-`, `_`, and,
/// without padding, it has four characters for every three bytes, rounded
/// up.
#[verifier::external_body]
pub(crate) fn b64_encode(data: &[u8]) -> (s: String)
    ensures
        s@ == base64url_encode(data@),
        decodes_to(s@, data@),
        forall|i: int| 0 <= i < s@.len() ==> url_safe_char(#[trigger] s@[i]),
        s@.len() == (4 * data@.len() + 2) / 3,
{
    base64::engine::general_purpose::URL_SAFE_NO_PAD.encode(data)
}

/// Calls `URL_SAFE_NO_PAD.decode(text)`. Claimed: the bytes, or the text
/// of the error, are `base64url_decode(text)`.
#[verifier::external_body]
fn b64_decode(text: &str) -> (res: Result<Vec<u8>, String>)
    ensures
        match base64url_decode(text@) {
            Ok(d) => res matches Ok(v) && v@ == d,
            Err(m) => res matches Err(e) && e@ == m,
        },
{
    base64::engine::general_purpose::URL_SAFE_NO_PAD.decode(text).map_err(|e| e.to_string())
}

/// Calls `rand::rngs::OsRng.try_fill_bytes` on `n` bytes. Claimed only: a
/// success gives `n` bytes; which bytes, and whether it fails, depend on
/// the operating system. The text of a failure is not stated.
#[verifier::external_body]
pub(crate) fn os_random_bytes(n: usize) -> (res: Result<Vec<u8>, String>)
    ensures
        res matches Ok(v) ==> v@.len() == n,
{
    let mut buf = vec![0u8; n];
    rand::rngs::OsRng.try_fill_bytes(&mut buf).map_err(|e| e.to_string())?;
    Ok(buf)
}

/// Calls `String::from_utf8`. Claimed (std's documentation): it succeeds
/// exactly on valid UTF-8 and then holds the characters the bytes encode;
/// a failure's text is `utf8_error_text(bytes)`.
#[verifier::external_body]
fn utf8_to_string(bytes: Vec<u8>) -> (res: Result<String, String>)
    ensures
        res is Ok <==> valid_utf8(bytes@),
        res matches Ok(s) ==> s@ == decode_utf8(bytes@),
        res matches Err(m) ==> m@ == utf8_error_text(bytes@),
{
    String::from_utf8(bytes).map_err(|e| e.to_string())
}

/// Calls `Zeroize::zeroize` on a 32-byte array, which overwrites every
/// byte with zero.
#[verifier::external_body]
pub(crate) fn wipe(v: &mut [u8; 32])
    ensures
        final(v)@ == Seq::new(32, |i: int| 0u8),
{
    v.zeroize();
}

/// Calls `Zeroize::zeroize` on a byte vector, which overwrites every byte
/// with zero and then empties the vector.
#[verifier::external_body]
pub(crate) fn wipe_bytes(v: &mut Vec<u8>)
    ensures
        final(v)@.len() == 0,
{
    v.zeroize();
}

/// The prefix that marks an encrypted value or a token hash.
pub open spec fn cipher_prefix() -> Seq<char> {
    "v1:"@
}

/// The salt of the root-key derivation.
pub open spec fn root_salt() -> Seq<u8> {
    encode_utf8("mia-secret/root-key/v1"@)
}

/// The HKDF `info` of the encryption key.
pub open spec fn enc_info() -> Seq<u8> {
    encode_utf8("mia-secret/aes-256-gcm/v1"@)
}

/// The HKDF `info` of the token-hashing key.
pub open spec fn token_info() -> Seq<u8> {
    encode_utf8("mia-secret/token-hash/v1"@)
}

/// What decrypting `value` with `key` gives: `v1:`, then base64 of a
/// 12-byte nonce followed by the AES-256-GCM ciphertext of UTF-8 text. A
/// failure gives the message it is reported with.
pub open spec fn decrypt_outcome(key: Seq<u8>, value: Seq<char>) -> Result<Seq<char>, Seq<char>> {
    if !starts_with(value, cipher_prefix()) {
        Err("unsupported ciphertext format"@)
    } else {
        match base64url_decode(value.subrange(3, value.len() as int)) {
            Err(m) => Err("ciphertext decode failed: "@ + m),
            Ok(d) => if d.len() <= 12 {
                Err("ciphertext payload too short"@)
            } else {
                match aes256gcm_open(key, d.subrange(0, 12), d.subrange(12, d.len() as int)) {
                    None => Err("decryption failed"@),
                    Some(p) => if valid_utf8(p) {
                        Ok(decode_utf8(p))
                    } else {
                        Err("utf8 decode failed: "@ + utf8_error_text(p))
                    },
                }
            },
        }
    }
}

/// `res` is what decrypting gives for `outcome`: the text, or a crypto
/// error with the message of the failure.
pub open spec fn decrypt_result_matches(res: Result<String, AppError>, outcome: Result<Seq<char>, Seq<char>>) -> bool {
    match outcome {
        Ok(p) => res matches Ok(s) && s@ == p,
        Err(m) => res matches Err(e) && failure_error(e, m),
    }
}

/// `e` is the crypto error with message `m`.
pub open spec fn failure_error(e: AppError, m: Seq<char>) -> bool {
    e is Crypto && e.message_view() == m
}

/// The stored form of `plaintext` encrypted under `key` with `nonce`.
pub open spec fn sealed_value(key: Seq<u8>, nonce: Seq<u8>, plaintext: Seq<char>) -> Seq<char> {
    cipher_prefix() + base64url_encode(nonce + aes256gcm_seal(key, nonce, encode_utf8(plaintext)))
}

/// The stored hash of a token: `v1:`, then base64 of the SHA-256 digest of
/// the token-hashing key followed by the token's UTF-8 bytes.
pub open spec fn token_digest(hash_key: Seq<u8>, token: Seq<char>) -> Seq<char> {
    cipher_prefix() + base64url_encode(sha256(hash_key + encode_utf8(token)))
}

/// `plaintext` is too long for AES-GCM: more than 2^36 bytes of UTF-8.
pub open spec fn too_long(plaintext: Seq<char>) -> bool {
    encode_utf8(plaintext).len() > 0x10_0000_0000
}

/// `e` is an error encrypting `plaintext` can end in: the random source
/// failed, or the text is too long to encrypt.
pub open spec fn encryption_error(plaintext: Seq<char>, e: AppError) -> bool {
    e is Crypto && (starts_with(e.message_view(), "nonce generation failed: "@) || (too_long(plaintext)
        && e.message_view() == "encryption failed"@))
}

/// A draw from the random source holds `n` bytes when it succeeds.
pub open spec fn drawn_len(d: Result<Vec<u8>, String>, n: nat) -> bool {
    d matches Ok(b) ==> b@.len() == n
}

/// What sealing `plaintext` under the drawn nonce `d` gives: the sealed
/// text, or the message of the error (the draw failed, or the text is too
/// long to encrypt).
pub open spec fn sealed_with(key: Seq<u8>, d: Result<Vec<u8>, String>, plaintext: Seq<char>) -> Result<Seq<char>, Seq<char>> {
    match d {
        Err(m) => Err("nonce generation failed: "@ + m@),
        Ok(n) => if too_long(plaintext) {
            Err("encryption failed"@)
        } else {
            Ok(sealed_value(key, n@, plaintext))
        },
    }
}

/// A text has at least as many bytes of UTF-8 as it has characters.
proof fn lemma_utf8_not_shorter(chars: Seq<char>)
    ensures
        encode_utf8(chars).len() >= chars.len(),
    decreases chars.len(),
{
    if chars.len() > 0 {
        lemma_utf8_not_shorter(chars.drop_first());
    }
}

/// Holds the keys derived from the master key, and which optional fields
/// are stored encrypted.
#[derive(Debug, Clone)]
pub struct CryptoService {
    encryption_key: [u8; 32],
    token_hash_key: [u8; 32],
    encrypt_notes: bool,
    encrypt_custom_fields: bool,
}

impl CryptoService {
    /// The AES-256-GCM key.
    pub closed spec fn enc_key(self) -> Seq<u8> {
        self.encryption_key@
    }

    /// The key mixed into token hashes.
    pub closed spec fn hash_key(self) -> Seq<u8> {
        self.token_hash_key@
    }

    /// Whether notes are stored encrypted.
    pub closed spec fn notes_flag(self) -> bool {
        self.encrypt_notes
    }

    /// Whether custom fields are stored encrypted.
    pub closed spec fn custom_fields_flag(self) -> bool {
        self.encrypt_custom_fields
    }

    /// Whether notes are stored encrypted.
    pub fn encrypt_notes(&self) -> (b: bool)
        ensures
            b == self.notes_flag(),
    {
        self.encrypt_notes
    }

    /// Whether custom fields are stored encrypted.
    pub fn encrypt_custom_fields(&self) -> (b: bool)
        ensures
            b == self.custom_fields_flag(),
    {
        self.encrypt_custom_fields
    }

    /// Where the master key is kept: `master.key` in the data directory.
    pub fn master_key_path(cfg: &Config) -> (p: String)
        ensures
            p@ == joined_path(cfg.general.data_dir@, "master.key"@),
    {
        join_path(cfg.general.data_dir.as_str(), "master.key")
    }

    /// The keys for a configuration, given the master key read from
    /// `master_key_path(cfg)`; see `from_master_key`.
    pub fn from_config(cfg: &Config, master_key: &[u8]) -> (res: Result<Self, AppError>)
        requires
            master_key@.len() == 32 ==> cfg.crypto.argon2_parallelism as int * 8 <= u32::MAX,
        ensures
            master_key@.len() != 32 ==> (res matches Err(e) && e is Crypto && e.message_view()
                == "master.key must be 32 bytes"@),
            master_key@.len() == 32 && !argon2_params_valid(
                cfg.crypto.argon2_memory_kb,
                cfg.crypto.argon2_time_cost,
                cfg.crypto.argon2_parallelism,
            ) ==> (res matches Err(e) && e is Crypto && e.message_view() == "invalid argon2 params: "@
                + argon2_params_error(
                cfg.crypto.argon2_memory_kb,
                cfg.crypto.argon2_time_cost,
                cfg.crypto.argon2_parallelism,
            )),
            master_key@.len() == 32 && argon2_params_valid(
                cfg.crypto.argon2_memory_kb,
                cfg.crypto.argon2_time_cost,
                cfg.crypto.argon2_parallelism,
            ) ==> (res matches Ok(s) && {
                let root = argon2id_hash(
                    cfg.crypto.argon2_memory_kb,
                    cfg.crypto.argon2_time_cost,
                    cfg.crypto.argon2_parallelism,
                    master_key@,
                    root_salt(),
                );
                &&& s.enc_key() == hkdf_sha256_expand(master_key@, root, enc_info())
                &&& s.hash_key() == hkdf_sha256_expand(master_key@, root, token_info())
                &&& s.notes_flag() == cfg.crypto.encrypt_notes
                &&& s.custom_fields_flag() == cfg.crypto.encrypt_custom_fields
            }),
    {
        Self::from_master_key(master_key, &cfg.crypto)
    }

    /// Derives the two keys from a 32-byte master key: Argon2id with the
    /// configured costs over the master key and a fixed salt gives a root
    /// key, from which HKDF-SHA256 (salted with the master key) expands the
    /// encryption key and the token-hashing key under two labels.
    pub fn from_master_key(master_key: &[u8], cfg: &CryptoConfig) -> (res: Result<Self, AppError>)
        requires
            master_key@.len() == 32 ==> cfg.argon2_parallelism as int * 8 <= u32::MAX,
        ensures
            master_key@.len() != 32 ==> (res matches Err(e) && e is Crypto && e.message_view()
                == "master.key must be 32 bytes"@),
            master_key@.len() == 32 && !argon2_params_valid(
                cfg.argon2_memory_kb,
                cfg.argon2_time_cost,
                cfg.argon2_parallelism,
            ) ==> (res matches Err(e) && e is Crypto && e.message_view() == "invalid argon2 params: "@
                + argon2_params_error(cfg.argon2_memory_kb, cfg.argon2_time_cost, cfg.argon2_parallelism)),
            master_key@.len() == 32 && argon2_params_valid(
                cfg.argon2_memory_kb,
                cfg.argon2_time_cost,
                cfg.argon2_parallelism,
            ) ==> (res matches Ok(s) && {
                let root = argon2id_hash(
                    cfg.argon2_memory_kb,
                    cfg.argon2_time_cost,
                    cfg.argon2_parallelism,
                    master_key@,
                    root_salt(),
                );
                &&& s.enc_key() == hkdf_sha256_expand(master_key@, root, enc_info())
                &&& s.hash_key() == hkdf_sha256_expand(master_key@, root, token_info())
                &&& s.notes_flag() == cfg.encrypt_notes
                &&& s.custom_fields_flag() == cfg.encrypt_custom_fields
            }),
    {
        if master_key.len() != MASTER_KEY_LEN {
            return Err(AppError::Crypto(String::from_str("master.key must be 32 bytes")));
        }
        let salt = "mia-secret/root-key/v1".as_bytes();
        proof {
            reveal_strlit("mia-secret/root-key/v1");
            assert(vstd::utf8::is_ascii_chars("mia-secret/root-key/v1"@));
            vstd::utf8::is_ascii_chars_encode_utf8("mia-secret/root-key/v1"@);
        }
        assert(salt@.len() == 22);
        let mut root_key = match argon2id_derive(
            cfg.argon2_memory_kb,
            cfg.argon2_time_cost,
            cfg.argon2_parallelism,
            master_key,
            salt,
        ) {
            Ok(k) => k,
            Err(msg) => {
                let m = concat("invalid argon2 params: ", msg.as_str());
                return Err(AppError::Crypto(m));
            },
        };
        let encryption_key = hkdf_sha256(master_key, &root_key, "mia-secret/aes-256-gcm/v1".as_bytes());
        let token_hash_key = hkdf_sha256(master_key, &root_key, "mia-secret/token-hash/v1".as_bytes());
        wipe(&mut root_key);
        Ok(
            CryptoService {
                encryption_key,
                token_hash_key,
                encrypt_notes: cfg.encrypt_notes,
                encrypt_custom_fields: cfg.encrypt_custom_fields,
            },
        )
    }

    /// Seals `plaintext` under `nonce`: `v1:` followed by base64 of the
    /// nonce and the AES-256-GCM ciphertext. The result decrypts back to
    /// `plaintext`.
    pub fn seal_with_nonce(&self, nonce: &[u8], plaintext: &str) -> (s: String)
        requires
            nonce@.len() == 12,
            !too_long(plaintext@),
        ensures
            s@ == sealed_value(self.enc_key(), nonce@, plaintext@),
            decrypt_outcome(self.enc_key(), s@) == Ok::<Seq<char>, Seq<char>>(plaintext@),
            s@.len() == 3 + (4 * (28 + encode_utf8(plaintext@).len()) + 2) / 3,
            s@.len() > plaintext@.len(),
    {
        let bytes = plaintext.as_bytes();
        let ct = match aes_seal(&self.encryption_key, nonce, bytes) {
            Some(c) => c,
            None => {
                assert(false);
                Vec::new()
            },
        };
        let mut combined: Vec<u8> = crate::bytes::copy_bytes(nonce, 0, nonce.len());
        let mut ct2 = ct.clone();
        combined.append(&mut ct2);
        assert(combined@ == nonce@ + ct@);
        let encoded = b64_encode(combined.as_slice());
        let out = concat("v1:", encoded.as_str());
        proof {
            reveal_strlit("v1:");
            let v = out@;
            assert(v.subrange(0, 3) =~= cipher_prefix());
            assert(v.subrange(3, v.len() as int) =~= encoded@);
            let d = combined@;
            assert(d.subrange(0, 12) =~= nonce@);
            assert(d.subrange(12, d.len() as int) =~= ct@);
            assert(out@ == sealed_value(self.enc_key(), nonce@, plaintext@));
            let b = encode_utf8(plaintext@).len();
            lemma_utf8_not_shorter(plaintext@);
            assert(3 + (4 * (28 + b) + 2) / 3 > b) by (nonlinear_arith)
                requires
                    b >= 0,
            ;
        }
        out
    }

    /// Encrypts `plaintext` under the drawn nonce: fails with the random
    /// source's error when the draw failed, or when the text is too long to
    /// encrypt; otherwise gives the text sealed with `seal_with_nonce`.
    pub fn encrypt_with(&self, drawn: &Result<Vec<u8>, String>, plaintext: &str) -> (res: Result<String, AppError>)
        requires
            drawn_len(*drawn, 12),
        ensures
            match sealed_with(self.enc_key(), *drawn, plaintext@) {
                Ok(c) => res matches Ok(s) && s@ == c && s@ != plaintext@ && decrypt_outcome(
                    self.enc_key(),
                    s@,
                ) == Ok::<Seq<char>, Seq<char>>(plaintext@),
                Err(m) => res matches Err(e) && e is Crypto && e.message_view() == m,
            },
    {
        match drawn {
            Err(msg) => Err(AppError::Crypto(concat("nonce generation failed: ", msg.as_str()))),
            Ok(nonce) => {
                let n: u64 = plaintext.as_bytes().len() as u64;
                if n > 0x10_0000_0000u64 {
                    return Err(AppError::Crypto(String::from_str("encryption failed")));
                }
                Ok(self.seal_with_nonce(nonce.as_slice(), plaintext))
            },
        }
    }

    /// Encrypts `plaintext` under a nonce of 12 bytes drawn from the
    /// operating system's random source; see `encrypt_with`.
    pub fn encrypt_string(&self, plaintext: &str) -> (res: Result<String, AppError>)
        ensures
            exists|d: Result<Vec<u8>, String>|
                drawn_len(d, 12) && match #[trigger] sealed_with(self.enc_key(), d, plaintext@) {
                    Ok(c) => res matches Ok(s) && s@ == c,
                    Err(m) => res matches Err(e) && e is Crypto && e.message_view() == m,
                },
            res matches Ok(s) ==> decrypt_outcome(self.enc_key(), s@) == Ok::<Seq<char>, Seq<char>>(plaintext@),
            res matches Ok(s) ==> s@ != plaintext@,
            res matches Err(e) ==> encryption_error(plaintext@, e),
            too_long(plaintext@) ==> res is Err,
    {
        let drawn = os_random_bytes(NONCE_LEN);
        proof {
            if drawn is Err {
                lemma_starts_with_concat("nonce generation failed: "@, drawn->Err_0@);
            }
        }
        self.encrypt_with(&drawn, plaintext)
    }

    /// Decrypts a value made by `encrypt_string`.
    pub fn decrypt_string(&self, value: &str) -> (res: Result<String, AppError>)
        ensures
            decrypt_result_matches(res, decrypt_outcome(self.enc_key(), value@)),
    {
        let chars = to_chars(value);
        proof {
            reveal_strlit("v1:");
        }
        if chars.len() < 3 || !(chars[0] == 'v' && chars[1] == '1' && chars[2] == ':') {
            assert(!starts_with(value@, cipher_prefix())) by {
                if starts_with(value@, cipher_prefix()) {
                    assert(value@.subrange(0, 3)[0] == 'v');
                    assert(value@.subrange(0, 3)[1] == '1');
                    assert(value@.subrange(0, 3)[2] == ':');
                }
            }
            return Err(AppError::Crypto(String::from_str("unsupported ciphertext format")));
        }
        assert(value@.subrange(0, 3) =~= cipher_prefix());
        let encoded = from_char_range(chars.as_slice(), 3, chars.len());
        let decoded = match b64_decode(encoded.as_str()) {
            Ok(d) => d,
            Err(msg) => {
                let m = concat("ciphertext decode failed: ", msg.as_str());
                return Err(AppError::Crypto(m));
            },
        };
        if decoded.len() <= NONCE_LEN {
            return Err(AppError::Crypto(String::from_str("ciphertext payload too short")));
        }
        let nonce = crate::bytes::copy_bytes(decoded.as_slice(), 0, NONCE_LEN);
        let ct = crate::bytes::copy_bytes(decoded.as_slice(), NONCE_LEN, decoded.len());
        let plain = match aes_open(&self.encryption_key, nonce.as_slice(), ct.as_slice()) {
            Some(p) => p,
            None => {
                return Err(AppError::Crypto(String::from_str("decryption failed")));
            },
        };
        match utf8_to_string(plain) {
            Ok(s) => Ok(s),
            Err(msg) => {
                let m = concat("utf8 decode failed: ", msg.as_str());
                Err(AppError::Crypto(m))
            },
        }
    }

    /// Decrypts `value` if it carries the `v1:` prefix, and otherwise gives
    /// it back unchanged (values stored before encryption was turned on).
    pub fn decrypt_auto(&self, value: &str) -> (res: Result<String, AppError>)
        ensures
            starts_with(value@, cipher_prefix()) ==> decrypt_result_matches(
                res,
                decrypt_outcome(self.enc_key(), value@),
            ),
            !starts_with(value@, cipher_prefix()) ==> (res matches Ok(s) && s@ == value@),
    {
        if crate::text::str_starts_with(value, "v1:") {
            self.decrypt_string(value)
        } else {
            Ok(String::from_str(value))
        }
    }

    /// The stored hash of a bearer token.
    pub fn hash_token(&self, token: &str) -> (r: String)
        ensures
            r@ == token_digest(self.hash_key(), token@),
    {
        let digest = sha256_of_pair(&self.token_hash_key, token.as_bytes());
        let encoded = b64_encode(digest.as_slice());
        concat("v1:", encoded.as_str())
    }
}

} // verus!
