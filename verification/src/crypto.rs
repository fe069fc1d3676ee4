//! Cryptographic primitives: Argon2id key derivation and XChaCha20-Poly1305
//! authenticated encryption, through the `argon2` and `chacha20poly1305`
//! crates, with salts and nonces from `rand`.

use chacha20poly1305::aead::{Aead, KeyInit};
use vstd::prelude::*;
use crate::codec::opt_bytes;

verus! {

pub const SALT_LEN: usize = 32;
pub const NONCE_LEN: usize = 24;
pub const KEY_LEN: usize = 32;

/// Argon2 memory cost in KiB (64 MiB).
pub const ARGON2_M_COST: u32 = 65536;
/// Argon2 passes.
pub const ARGON2_T_COST: u32 = 3;
/// Argon2 lanes.
pub const ARGON2_P_COST: u32 = 4;

#[verifier::external_type_specification]
#[verifier::external_body]
pub struct ExArgon2Error(argon2::Error);

#[verifier::external_type_specification]
#[verifier::external_body]
pub struct ExAeadError(chacha20poly1305::aead::Error);

/// The 32-byte Argon2id (version 0x13) output for the given costs,
/// passphrase and salt.
pub uninterp spec fn argon2id_output(m_cost: u32, t_cost: u32, p_cost: u32, passphrase: Seq<u8>, salt: Seq<u8>) -> Seq<u8>;

/// Whether the `argon2` crate accepts the costs (`Params::new` with a
/// 32-byte output) and the input lengths (`hash_password_into`).
pub open spec fn argon2_accepts(m_cost: u32, t_cost: u32, p_cost: u32, pw_len: nat, salt_len: nat) -> bool {
    &&& m_cost >= 8
    &&& m_cost >= p_cost * 8
    &&& t_cost >= 1
    &&& 1 <= p_cost <= 0xFFFFFF
    &&& pw_len <= 0xFFFF_FFFF
    &&& 8 <= salt_len <= 0xFFFF_FFFF
}

/// Argon2id v0x13 through the `argon2` crate: `Params::new(m, t, p,
/// Some(32))`, `Argon2::new(Argon2id, V0x13, params)` and
/// `hash_password_into` as one operation. Succeeds exactly when the crate's
/// checks on costs and lengths pass; the key is then the function's output.
#[verifier::external_body]
fn argon2id_hash(m_cost: u32, t_cost: u32, p_cost: u32, passphrase: &[u8], salt: &[u8]) -> (r: Result<[u8; 32], argon2::Error>)
    requires
        p_cost <= 0x1FFF_FFFF,
    ensures
        r is Ok <==> argon2_accepts(m_cost, t_cost, p_cost, passphrase@.len(), salt@.len()),
        r matches Ok(k) ==> k@ == argon2id_output(m_cost, t_cost, p_cost, passphrase@, salt@),
{
    let params = argon2::Params::new(m_cost, t_cost, p_cost, Some(32))?;
    let mut out = [0u8; 32];
    argon2::Argon2::new(argon2::Algorithm::Argon2id, argon2::Version::V0x13, params)
        .hash_password_into(passphrase, salt, &mut out)?;
    Ok(out)
}

/// The XChaCha20-Poly1305 ciphertext (with its 16-byte tag) of `plaintext`.
pub uninterp spec fn xchacha_seal(key: Seq<u8>, nonce: Seq<u8>, plaintext: Seq<u8>) -> Seq<u8>;

/// The XChaCha20-Poly1305 decryption of `ciphertext`, `None` when the tag
/// does not verify or the length is out of range.
pub uninterp spec fn xchacha_open(key: Seq<u8>, nonce: Seq<u8>, ciphertext: Seq<u8>) -> Option<Seq<u8>>;

/// Whether a message of `len` bytes fits the XChaCha20 keystream that
/// follows the Poly1305 key block: at most 2^32 - 2 blocks of 64 bytes.
/// Longer messages that pass the crate's own length check make the stream
/// cipher panic.
pub open spec fn fits_keystream(len: int) -> bool {
    len <= 64 * (0xFFFF_FFFF - 1)
}

/// `XChaCha20Poly1305::new(key).encrypt(nonce, plaintext)`: for a message
/// that fits the keystream it succeeds (the crate refuses only messages of
/// 2^32 - 1 or more blocks); the ciphertext is the plaintext's length plus
/// the 16-byte tag and decrypts back to the plaintext under the same key
/// and nonce.
#[verifier::external_body]
fn xchacha_encrypt(key: &[u8; 32], nonce: &[u8; 24], plaintext: &[u8]) -> (r: Result<Vec<u8>, chacha20poly1305::aead::Error>)
    requires
        fits_keystream(plaintext@.len() as int),
    ensures
        r is Ok,
        r matches Ok(c) ==> c@ == xchacha_seal(key@, nonce@, plaintext@)
            && c@.len() == plaintext@.len() + 16
            && xchacha_open(key@, nonce@, c@) == Some(plaintext@),
{
    let cipher = chacha20poly1305::XChaCha20Poly1305::new(chacha20poly1305::Key::from_slice(key));
    cipher.encrypt(chacha20poly1305::XNonce::from_slice(nonce), plaintext)
}

/// `XChaCha20Poly1305::new(key).decrypt(nonce, ciphertext)`, `None` on
/// failure; the message part (all but the 16-byte tag) must fit the
/// keystream, else an authentic ciphertext makes the stream cipher panic.
#[verifier::external_body]
fn xchacha_decrypt(key: &[u8; 32], nonce: &[u8; 24], ciphertext: &[u8]) -> (r: Option<Vec<u8>>)
    requires
        fits_keystream(ciphertext@.len() - 16),
    ensures
        opt_bytes(r) == xchacha_open(key@, nonce@, ciphertext@),
{
    let cipher = chacha20poly1305::XChaCha20Poly1305::new(chacha20poly1305::Key::from_slice(key));
    cipher.decrypt(chacha20poly1305::XNonce::from_slice(nonce), ciphertext).ok()
}

/// 32 bytes from the thread-local CSPRNG (`rand::random`).
#[verifier::external_body]
pub(crate) fn random_32() -> (r: [u8; 32]) {
    rand::random()
}

/// 24 bytes from the thread-local CSPRNG (`rand::random`).
#[verifier::external_body]
fn random_24() -> (r: [u8; 24]) {
    rand::random()
}

/// Why a cryptographic operation failed.
#[derive(Clone, Copy, Debug, PartialEq, Eq, Structural)]
pub enum CryptoError {
    /// The passphrase or salt length is out of Argon2's range.
    KeyDerivation,
    /// The plaintext is too long for XChaCha20-Poly1305.
    Encryption,
    /// Wrong key, corrupted data, or failed authentication.
    Decryption,
}

impl CryptoError {
    /// The message reported for the failure.
    pub fn message(&self) -> (r: String)
        ensures
            r@ == match self {
                CryptoError::KeyDerivation => "Argon2 key derivation failed"@,
                CryptoError::Encryption => "Encryption error"@,
                CryptoError::Decryption => "Decryption failed: invalid key, corrupted data, or authentication failure"@,
            },
    {
        match self {
            CryptoError::KeyDerivation => String::from_str("Argon2 key derivation failed"),
            CryptoError::Encryption => String::from_str("Encryption error"),
            CryptoError::Decryption => String::from_str(
                "Decryption failed: invalid key, corrupted data, or authentication failure",
            ),
        }
    }
}

/// The vault key for a passphrase and salt: Argon2id with 64 MiB of memory,
/// 3 passes and 4 lanes.
pub open spec fn vault_key(passphrase: Seq<u8>, salt: Seq<u8>) -> Seq<u8> {
    argon2id_output(ARGON2_M_COST, ARGON2_T_COST, ARGON2_P_COST, passphrase, salt)
}

/// Derives a 256-bit encryption key from a passphrase and salt using Argon2id.
/// Follows OWASP/NIST guidelines (64MB memory, 3 iterations, 4 parallelism).
/// Fails exactly when the salt is shorter than 8 bytes, or the passphrase or
/// salt is longer than 2^32 - 1 bytes.
pub fn derive_key(passphrase: &[u8], salt: &[u8]) -> (r: Result<[u8; KEY_LEN], CryptoError>)
    ensures
        match r {
            Ok(k) => k@ == vault_key(passphrase@, salt@),
            Err(e) => e == CryptoError::KeyDerivation && !(passphrase@.len() <= 0xFFFF_FFFF && 8
                <= salt@.len() <= 0xFFFF_FFFF),
        },
        r is Ok <==> (passphrase@.len() <= 0xFFFF_FFFF && 8 <= salt@.len() <= 0xFFFF_FFFF),
{
    match argon2id_hash(ARGON2_M_COST, ARGON2_T_COST, ARGON2_P_COST, passphrase, salt) {
        Ok(k) => Ok(k),
        Err(_) => Err(CryptoError::KeyDerivation),
    }
}

/// Generates a cryptographically secure random salt.
pub fn generate_salt() -> (r: [u8; SALT_LEN]) {
    random_32()
}

/// Generates a cryptographically secure random nonce for XChaCha20-Poly1305.
pub fn generate_nonce() -> (r: [u8; NONCE_LEN]) {
    random_24()
}

/// Encrypts under `key` with the given nonce; a message that fits the
/// keystream always encrypts.
pub fn encrypt_with_nonce(key: &[u8; KEY_LEN], nonce: &[u8; NONCE_LEN], plaintext: &[u8]) -> (r: Result<Vec<u8>, CryptoError>)
    requires
        fits_keystream(plaintext@.len() as int),
    ensures
        r matches Ok(c) && c@ == xchacha_seal(key@, nonce@, plaintext@)
            && c@.len() == plaintext@.len() + 16
            && xchacha_open(key@, nonce@, c@) == Some(plaintext@),
{
    match xchacha_encrypt(key, nonce, plaintext) {
        Ok(c) => Ok(c),
        Err(_) => Err(CryptoError::Encryption),
    }
}

/// Encrypts plaintext bytes using XChaCha20-Poly1305 AEAD under a fresh
/// random nonce. Returns (nonce, ciphertext_with_tag).
pub fn encrypt_bytes(key: &[u8; KEY_LEN], plaintext: &[u8]) -> (r: Result<([u8; NONCE_LEN], Vec<u8>), CryptoError>)
    requires
        fits_keystream(plaintext@.len() as int),
    ensures
        r matches Ok((n, c)) && c@ == xchacha_seal(key@, n@, plaintext@)
            && c@.len() == plaintext@.len() + 16
            && xchacha_open(key@, n@, c@) == Some(plaintext@),
{
    let nonce = generate_nonce();
    match encrypt_with_nonce(key, &nonce, plaintext) {
        Ok(c) => Ok((nonce, c)),
        Err(e) => Err(e),
    }
}

/// Decrypts ciphertext bytes using XChaCha20-Poly1305 AEAD.
/// Returns the plaintext bytes upon success.
pub fn decrypt_bytes(key: &[u8; KEY_LEN], nonce_bytes: &[u8; NONCE_LEN], ciphertext: &[u8]) -> (r: Result<Vec<u8>, CryptoError>)
    requires
        fits_keystream(ciphertext@.len() - 16),
    ensures
        match xchacha_open(key@, nonce_bytes@, ciphertext@) {
            Some(p) => r matches Ok(v) && v@ == p,
            None => r == Err::<Vec<u8>, CryptoError>(CryptoError::Decryption),
        },
{
    match xchacha_decrypt(key, nonce_bytes, ciphertext) {
        Some(p) => Ok(p),
        None => Err(CryptoError::Decryption),
    }
}

} // verus!
