//! Vault cryptography.
//!
//! Argon2id derives a 32-byte key from the master password and AES-256-GCM
//! encrypts the JSON payload.
//!
//! Argon2id parameters (OWASP 2023 recommendation for backend/interactive):
//! memory 19456 KiB, 2 iterations, parallelism 1, 32 bytes of output.
//! These constants are fixed for the `PWS1` file format.
use vstd::prelude::*;

use aes_gcm::aead::{Aead, KeyInit};
use rand::RngCore;
use zeroize::Zeroize;

use crate::error::{EncryptionError, StashError};

verus! {

pub const SALT_LEN: usize = 16;
pub const NONCE_LEN: usize = 12;
pub const KEY_LEN: usize = 32;

pub const ARGON2_M_KIB: u32 = 19456;
pub const ARGON2_T_COST: u32 = 2;
pub const ARGON2_P_COST: u32 = 1;

/// Largest plaintext that AES-GCM accepts, in bytes.
pub const P_MAX: u64 = 0x10_0000_0000;
/// Length of the AES-GCM authentication tag appended to every ciphertext.
pub const TAG_LEN: usize = 16;

#[verifier::external_type_specification]
#[verifier::external_body]
pub struct ExAeadError(aes_gcm::aead::Error);

#[verifier::external_type_specification]
#[verifier::external_body]
pub struct ExRandError(rand::Error);

/// The output of Argon2id, version 0x13, with the given memory, time and
/// parallelism costs, on the given password and salt bytes.
pub uninterp spec fn argon2id_v13(
    m_cost: u32,
    t_cost: u32,
    p_cost: u32,
    out_len: nat,
    password: Seq<u8>,
    salt: Seq<u8>,
) -> Seq<u8>;

/// The AES-256-GCM ciphertext (with its tag appended) of a plaintext under
/// a key and nonce, with no associated data.
pub uninterp spec fn aes256gcm_seal(key: Seq<u8>, nonce: Seq<u8>, plaintext: Seq<u8>) -> Seq<u8>;

/// The AES-256-GCM plaintext of a ciphertext under a key and nonce, with no
/// associated data, or `None` when the tag does not authenticate it.
pub uninterp spec fn aes256gcm_open(key: Seq<u8>, nonce: Seq<u8>, ciphertext: Seq<u8>) -> Option<
    Seq<u8>,
>;

/// The parameter checks of `argon2::Params::new`.
pub open spec fn argon2_params_valid(m_cost: u32, t_cost: u32, p_cost: u32, out_len: nat) -> bool {
    &&& m_cost >= 8
    &&& m_cost >= p_cost * 8
    &&& t_cost >= 1
    &&& 1 <= p_cost <= 0xFF_FFFF
    &&& 4 <= out_len <= 0xFFFF_FFFF
}

/// The key that `derive_key` derives from a master password and a salt.
pub open spec fn spec_derive_key(password: Seq<char>, salt: Seq<u8>) -> Seq<u8> {
    argon2id_v13(
        ARGON2_M_KIB,
        ARGON2_T_COST,
        ARGON2_P_COST,
        KEY_LEN as nat,
        vstd::utf8::encode_utf8(password),
        salt,
    )
}

/// Why the Argon2 call failed.
pub enum KdfFailure {
    InvalidParams,
    Hash(String),
}

/// Calls `argon2::Params::new` with the costs and the length of `out`,
/// builds an Argon2id v0x13 context and calls its `hash_password_into`.
/// `Params::new` computes `p_cost * 8` in `u32`, so `requires` keeps that
/// product in range.
/// Claims: the parameters are refused exactly when `argon2_params_valid`
/// fails (the checks of `Params::new`); with valid parameters, a password of
/// at most `u32::MAX` bytes and a salt of 8 to `u32::MAX` bytes, hashing
/// succeeds (the checks of `hash_password_into`), and otherwise fails with
/// the error's message; a success writes the
/// Argon2id output into `out`.
#[verifier::external_body]
fn argon2id_hash_into(
    m_cost: u32,
    t_cost: u32,
    p_cost: u32,
    password: &[u8],
    salt: &[u8],
    out: &mut [u8; KEY_LEN],
) -> (res: Result<(), KdfFailure>)
    requires
        p_cost * 8 <= u32::MAX,
    ensures
        (res matches Err(KdfFailure::InvalidParams)) <==> !argon2_params_valid(
            m_cost,
            t_cost,
            p_cost,
            KEY_LEN as nat,
        ),
        argon2_params_valid(m_cost, t_cost, p_cost, KEY_LEN as nat) && password@.len()
            <= 0xFFFF_FFFF && 8 <= salt@.len() <= 0xFFFF_FFFF ==> res is Ok,
        argon2_params_valid(m_cost, t_cost, p_cost, KEY_LEN as nat) && !(password@.len()
            <= 0xFFFF_FFFF && 8 <= salt@.len() <= 0xFFFF_FFFF) ==> res matches Err(
            KdfFailure::Hash(_),
        ),
        res is Ok ==> final(out)@ == argon2id_v13(
            m_cost,
            t_cost,
            p_cost,
            KEY_LEN as nat,
            password@,
            salt@,
        ),
{
    let params = match argon2::Params::new(m_cost, t_cost, p_cost, Some(out.len())) {
        Ok(params) => params,
        Err(_) => return Err(KdfFailure::InvalidParams),
    };
    argon2::Argon2::new(argon2::Algorithm::Argon2id, argon2::Version::V0x13, params)
        .hash_password_into(password, salt, out)
        .map_err(|e| KdfFailure::Hash(e.to_string()))
}

/// Calls `RngCore::try_fill_bytes` on `rand::rngs::OsRng`. What it writes
/// comes from the operating system's random source, so nothing is claimed
/// of the bytes, nor of when it fails.
#[verifier::external_body]
fn os_try_fill_bytes<const N: usize>(buf: &mut [u8; N]) -> (res: Result<(), rand::Error>) {
    rand::rngs::OsRng.try_fill_bytes(buf)
}

/// Calls `Aead::encrypt` of `aes_gcm::Aes256Gcm` built from `key`, with
/// `nonce` and no associated data. Claims (from the crate's source): it
/// fails exactly when the plaintext is longer than `P_MAX`; a success is the
/// sealed ciphertext, `TAG_LEN` bytes longer than the plaintext, and, as
/// every AEAD promises, opening it with the same key and nonce gives the
/// plaintext back.
#[verifier::external_body]
fn aes256gcm_encrypt(key: &[u8; KEY_LEN], nonce: &[u8; NONCE_LEN], plaintext: &[u8]) -> (res:
    Result<Vec<u8>, aes_gcm::aead::Error>)
    ensures
        res is Ok <==> plaintext@.len() <= P_MAX,
        res matches Ok(c) ==> c@ == aes256gcm_seal(key@, nonce@, plaintext@) && c@.len()
            == plaintext@.len() + TAG_LEN,
        res matches Ok(c) ==> aes256gcm_open(key@, nonce@, c@) == Some(plaintext@),
{
    let cipher = aes_gcm::Aes256Gcm::new(aes_gcm::Key::<aes_gcm::Aes256Gcm>::from_slice(key));
    cipher.encrypt(aes_gcm::Nonce::from_slice(nonce), plaintext)
}

/// Calls `Aead::decrypt` of `aes_gcm::Aes256Gcm` built from `key`, with
/// `nonce` and no associated data. Claims: it succeeds exactly when the
/// tag authenticates the ciphertext, giving the opened plaintext; input
/// shorter than a tag fails (a check in the crate's source); and, as every
/// AEAD promises, a ciphertext that this key and nonce sealed opens to the
/// plaintext it sealed.
#[verifier::external_body]
fn aes256gcm_decrypt(key: &[u8; KEY_LEN], nonce: &[u8; NONCE_LEN], ciphertext: &[u8]) -> (res:
    Result<Vec<u8>, aes_gcm::aead::Error>)
    ensures
        res is Ok <==> aes256gcm_open(key@, nonce@, ciphertext@) is Some,
        res matches Ok(p) ==> aes256gcm_open(key@, nonce@, ciphertext@) == Some(p@),
        ciphertext@.len() < TAG_LEN ==> res is Err,
        res matches Ok(q) ==> forall|p: Seq<u8>|
            p.len() <= P_MAX && ciphertext@ == #[trigger] aes256gcm_seal(key@, nonce@, p) ==> q@
                == p,
        res is Err ==> forall|p: Seq<u8>|
            p.len() <= P_MAX ==> ciphertext@ != #[trigger] aes256gcm_seal(key@, nonce@, p),
{
    let cipher = aes_gcm::Aes256Gcm::new(aes_gcm::Key::<aes_gcm::Aes256Gcm>::from_slice(key));
    cipher.decrypt(aes_gcm::Nonce::from_slice(nonce), ciphertext)
}

/// Calls `Zeroize::zeroize` on the array, which writes zero to every byte.
#[verifier::external_body]
fn zeroize_array(key: &mut [u8; KEY_LEN])
    ensures
        final(key)@ == Seq::new(KEY_LEN as nat, |i: int| 0u8),
{
    key.zeroize();
}

/// Fills an array from the operating system's random source.
fn fill_random<const N: usize>() -> (res: Result<[u8; N], StashError>)
    ensures
        res is Err ==> res == Err::<[u8; N], StashError>(
            StashError::EncryptionError(EncryptionError::Random),
        ),
{
    let mut buf = [0u8; N];
    match os_try_fill_bytes(&mut buf) {
        Ok(()) => Ok(buf),
        Err(_) => Err(StashError::EncryptionError(EncryptionError::Random)),
    }
}

/// A fresh random salt. Its bytes come from the OS random source.
pub fn generate_salt() -> (res: Result<[u8; SALT_LEN], StashError>)
    ensures
        res is Err ==> res == Err::<[u8; SALT_LEN], StashError>(
            StashError::EncryptionError(EncryptionError::Random),
        ),
{
    fill_random()
}

/// A fresh random nonce. Its bytes come from the OS random source.
pub fn generate_nonce() -> (res: Result<[u8; NONCE_LEN], StashError>)
    ensures
        res is Err ==> res == Err::<[u8; NONCE_LEN], StashError>(
            StashError::EncryptionError(EncryptionError::Random),
        ),
{
    fill_random()
}

/// Derives the vault key from a master password and a salt with Argon2id.
///
/// A salt of the wrong length is refused; for every password of at most
/// `u32::MAX` bytes the derivation succeeds, and its key is a function of
/// the password and the salt alone.
pub fn derive_key(password: &str, salt: &[u8]) -> (res: Result<[u8; KEY_LEN], StashError>)
    ensures
        salt@.len() != SALT_LEN ==> res == Err::<[u8; KEY_LEN], StashError>(
            StashError::EncryptionError(EncryptionError::InvalidKeyLength),
        ),
        salt@.len() == SALT_LEN && vstd::utf8::encode_utf8(password@).len() <= 0xFFFF_FFFF
            ==> res is Ok,
        salt@.len() == SALT_LEN && !(vstd::utf8::encode_utf8(password@).len() <= 0xFFFF_FFFF)
            ==> res matches Err(StashError::EncryptionError(EncryptionError::KeyDerivation(_))),
        res matches Ok(key) ==> key@ == spec_derive_key(password@, salt@),
{
    if salt.len() != SALT_LEN {
        return Err(StashError::EncryptionError(EncryptionError::InvalidKeyLength));
    }
    let mut key = [0u8; KEY_LEN];
    let pw = password.as_bytes();
    match argon2id_hash_into(ARGON2_M_KIB, ARGON2_T_COST, ARGON2_P_COST, pw, salt, &mut key) {
        Ok(()) => Ok(key),
        Err(KdfFailure::InvalidParams) => Err(
            StashError::EncryptionError(EncryptionError::InvalidKdfParams),
        ),
        Err(KdfFailure::Hash(message)) => Err(
            StashError::EncryptionError(EncryptionError::KeyDerivation(message)),
        ),
    }
}

/// Encrypts a plaintext under the key with a fresh random nonce, and
/// returns the nonce with the ciphertext.
pub fn encrypt(plaintext: &[u8], key: &[u8; KEY_LEN]) -> (res: Result<
    ([u8; NONCE_LEN], Vec<u8>),
    StashError,
>)
    ensures
        res matches Ok((nonce, ciphertext)) ==> ciphertext@ == aes256gcm_seal(
            key@,
            nonce@,
            plaintext@,
        ) && ciphertext@.len() == plaintext@.len() + TAG_LEN,
        res matches Ok(_) ==> plaintext@.len() <= P_MAX,
        res matches Ok((nonce, ciphertext)) ==> aes256gcm_open(key@, nonce@, ciphertext@) == Some(
            plaintext@,
        ),
        res matches Err(e) ==> e == StashError::EncryptionError(EncryptionError::Random) || (e
            == StashError::EncryptionError(EncryptionError::Encrypt) && plaintext@.len() > P_MAX),
{
    let nonce = generate_nonce()?;
    match aes256gcm_encrypt(key, &nonce, plaintext) {
        Ok(ciphertext) => Ok((nonce, ciphertext)),
        Err(_) => Err(StashError::EncryptionError(EncryptionError::Encrypt)),
    }
}

/// Decrypts and authenticates a ciphertext; any failure is reported as
/// `Decrypt`, so a wrong key and a tampered file look the same.
pub fn decrypt(nonce: &[u8; NONCE_LEN], ciphertext: &[u8], key: &[u8; KEY_LEN]) -> (res: Result<
    Vec<u8>,
    StashError,
>)
    ensures
        res is Ok <==> aes256gcm_open(key@, nonce@, ciphertext@) is Some,
        res matches Ok(p) ==> aes256gcm_open(key@, nonce@, ciphertext@) == Some(p@),
        res is Err ==> res == Err::<Vec<u8>, StashError>(
            StashError::EncryptionError(EncryptionError::Decrypt),
        ),
        ciphertext@.len() < TAG_LEN ==> res is Err,
        forall|p: Seq<u8>|
            p.len() <= P_MAX && ciphertext@ == #[trigger] aes256gcm_seal(key@, nonce@, p) ==> (
            res matches Ok(q) && q@ == p),
{
    match aes256gcm_decrypt(key, nonce, ciphertext) {
        Ok(plaintext) => Ok(plaintext),
        Err(_) => Err(StashError::EncryptionError(EncryptionError::Decrypt)),
    }
}

/// Wipes a derived key: every byte becomes zero.
pub fn zeroize_key(key: &mut [u8; KEY_LEN])
    ensures
        final(key)@ == Seq::new(KEY_LEN as nat, |i: int| 0u8),
{
    zeroize_array(key);
}

} // verus!
