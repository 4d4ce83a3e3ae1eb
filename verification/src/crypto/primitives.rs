//! The trusted boundary to the audited cryptography crates: Argon2id key
//! derivation (`argon2`), XChaCha20-Poly1305 (`chacha20poly1305`) and the OS
//! CSPRNG (`rand`). Everything above this file is verified against the
//! contracts stated here.

use argon2::{Algorithm, Argon2, Params, Version};
use chacha20poly1305::aead::{Aead, KeyInit, Payload};
use chacha20poly1305::{XChaCha20Poly1305, XNonce};
use rand::rngs::OsRng;
use rand::RngCore;
use vstd::prelude::*;

verus! {

/// The 32-byte key that Argon2id (version 0x13) derives from a secret and a
/// salt under the given memory, time and parallelism costs.
pub uninterp spec fn argon2id_key(secret: Seq<u8>, salt: Seq<u8>, m_cost: u32, t_cost: u32, p_cost: u32) -> Seq<u8>;

/// The XChaCha20-Poly1305 ciphertext (with its 16-byte tag appended) of `msg`
/// under `key`, `nonce` and associated data `aad`.
pub uninterp spec fn aead_seal(key: Seq<u8>, nonce: Seq<u8>, msg: Seq<u8>, aad: Seq<u8>) -> Seq<u8>;

/// The result of authenticating and decrypting `ct` under `key`, `nonce` and
/// `aad` with XChaCha20-Poly1305: `None` when the tag does not verify.
pub uninterp spec fn aead_open(key: Seq<u8>, nonce: Seq<u8>, ct: Seq<u8>, aad: Seq<u8>) -> Option<Seq<u8>>;

/// Whether `argon2::Params::new` accepts these costs (with a 32-byte output):
/// at least 8 KiB of memory and 8 KiB per lane, at least one pass, and between
/// 1 and 0xFF_FFFF lanes.
pub open spec fn argon2_params_ok(m_cost: u32, t_cost: u32, p_cost: u32) -> bool {
    &&& m_cost >= 8
    &&& m_cost >= p_cost * 8
    &&& t_cost >= 1
    &&& 1 <= p_cost <= 0xFF_FFFF
}

/// The message of the error `argon2::Params::new` reports for rejected costs,
/// in the order in which that constructor checks them (for lane counts whose
/// `p_cost * 8` fits a `u32`, the only ones it is called with).
pub open spec fn argon2_params_error(m_cost: u32, t_cost: u32, p_cost: u32) -> Seq<char> {
    if m_cost < 8 || m_cost < p_cost * 8 {
        "memory cost is too small"@
    } else if t_cost < 1 {
        "time cost is too small"@
    } else if p_cost < 1 {
        "not enough threads"@
    } else {
        "too many threads"@
    }
}

/// Whether Argon2id hashing accepts these input lengths (salt of 8 to
/// 0xFFFF_FFFF bytes, password of at most 0xFFFF_FFFF bytes).
pub open spec fn argon2_inputs_ok(secret_len: nat, salt_len: nat) -> bool {
    secret_len <= 0xFFFF_FFFF && 8 <= salt_len <= 0xFFFF_FFFF
}

/// The message of the error Argon2id hashing reports for rejected inputs.
pub open spec fn argon2_inputs_error(secret_len: nat, salt_len: nat) -> Seq<char> {
    if secret_len > 0xFFFF_FFFF {
        "password is too long"@
    } else if salt_len < 8 {
        "salt is too short"@
    } else {
        "salt is too long"@
    }
}

/// Whether XChaCha20-Poly1305 can encrypt a message of this length (fewer than
/// `u32::MAX` 64-byte blocks).
pub open spec fn aead_msg_ok(len: nat) -> bool {
    len / 64 < 0xFFFF_FFFF
}

/// Whether a decryption result is a success carrying exactly `m`.
pub open spec fn opened_to(r: Result<Vec<u8>, ()>, m: Seq<u8>) -> bool {
    r matches Ok(pt) && pt@ == m
}

/// Why an Argon2id derivation failed: the costs were rejected, or the hashing
/// step rejected its inputs. Each carries the crate's error message.
pub enum Argon2Failure {
    Params(String),
    Hash(String),
}

/// Calls `argon2::Params::new` (with a 32-byte output), `Argon2::new` with
/// Argon2id / version 0x13, and `Argon2::hash_password_into` into a 32-byte
/// buffer. Claimed: the costs are rejected exactly when `argon2_params_ok`
/// fails, with the crate's message; otherwise the inputs are rejected exactly
/// when `argon2_inputs_ok` fails; otherwise the buffer holds
/// `argon2id_key(..)` of the arguments. `p_cost` is bounded because
/// `Params::new` multiplies it by 8 in `u32`. Allocation failure for a huge
/// `m_cost` aborts the process and is not described.
#[verifier::external_body]
pub(crate) fn argon2id_derive(secret: &[u8], salt: &[u8], m_cost: u32, t_cost: u32, p_cost: u32) -> (r: Result<[u8; 32], Argon2Failure>)
    requires
        p_cost <= 0x1FFF_FFFF,
    ensures
        match r {
            Ok(key) => argon2_params_ok(m_cost, t_cost, p_cost) && argon2_inputs_ok(secret@.len(), salt@.len())
                && key@ == argon2id_key(secret@, salt@, m_cost, t_cost, p_cost),
            Err(Argon2Failure::Params(msg)) => !argon2_params_ok(m_cost, t_cost, p_cost)
                && msg@ == argon2_params_error(m_cost, t_cost, p_cost),
            Err(Argon2Failure::Hash(msg)) => argon2_params_ok(m_cost, t_cost, p_cost)
                && !argon2_inputs_ok(secret@.len(), salt@.len())
                && msg@ == argon2_inputs_error(secret@.len(), salt@.len()),
        },
{
    let params = Params::new(m_cost, t_cost, p_cost, Some(32)).map_err(|e| Argon2Failure::Params(e.to_string()))?;
    let mut key = [0u8; 32];
    Argon2::new(Algorithm::Argon2id, Version::V0x13, params)
        .hash_password_into(secret, salt, &mut key)
        .map_err(|e| Argon2Failure::Hash(e.to_string()))?;
    Ok(key)
}

/// Calls `XChaCha20Poly1305::new(key).encrypt(nonce, Payload { msg, aad })`.
/// Claimed: it fails exactly when the message is too long for the cipher;
/// otherwise it returns `aead_seal(..)` of the arguments, which is the message
/// length plus the 16-byte Poly1305 tag.
#[verifier::external_body]
pub(crate) fn xchacha_seal(key: &[u8; 32], nonce: &[u8; 24], msg: &[u8], aad: &[u8]) -> (r: Result<Vec<u8>, ()>)
    ensures
        r is Ok <==> aead_msg_ok(msg@.len()),
        r matches Ok(ct) ==> ct@ == aead_seal(key@, nonce@, msg@, aad@) && ct@.len() == msg@.len() + 16,
{
    XChaCha20Poly1305::new(key.into()).encrypt(XNonce::from_slice(nonce), Payload { msg, aad }).map_err(|_| ())
}

/// Calls `XChaCha20Poly1305::new(key).decrypt(nonce, Payload { msg: ct, aad })`.
/// Claimed: the result is `aead_open(..)` of the arguments, and (AEAD
/// correctness) a ciphertext that is `aead_seal` of some encryptable message
/// under the same key, nonce and associated data opens to that message.
#[verifier::external_body]
pub(crate) fn xchacha_open(key: &[u8; 32], nonce: &[u8; 24], ct: &[u8], aad: &[u8]) -> (r: Result<Vec<u8>, ()>)
    ensures
        match r {
            Ok(pt) => aead_open(key@, nonce@, ct@, aad@) == Some(pt@),
            Err(_) => aead_open(key@, nonce@, ct@, aad@) is None,
        },
        forall|m: Seq<u8>|
            aead_msg_ok(m.len()) && #[trigger] aead_seal(key@, nonce@, m, aad@) == ct@ ==> opened_to(r, m),
{
    XChaCha20Poly1305::new(key.into()).decrypt(XNonce::from_slice(nonce), Payload { msg: ct, aad }).map_err(|_| ())
}

/// Calls `OsRng.fill_bytes(buf)`. Claimed: only that the length is unchanged;
/// the contents are fresh random bytes. `fill_bytes` panics if the operating
/// system's random source fails.
#[verifier::external_body]
pub fn fill_random(buf: &mut [u8])
    ensures
        final(buf)@.len() == old(buf)@.len(),
{
    OsRng.fill_bytes(buf)
}

} // verus!
