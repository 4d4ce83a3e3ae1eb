//! Envelope encryption: wrapping and unwrapping the Vault Encryption Key (VEK).
//!
//! One random VEK encrypts the vault payload; the VEK itself is AEAD-encrypted
//! ("wrapped") under keys derived from user secrets (the master password and,
//! optionally, a recovery key). Either wrap recovers the same VEK on its own.
//! An authentication failure while unwrapping is reported as
//! [`EnvelopeError::WrongCredentials`], so a wrong secret and a tampered wrap
//! are indistinguishable.

use vstd::prelude::*;

use super::primitives::{aead_open, aead_seal, argon2_inputs_error, argon2_params_ok, argon2id_key};
use super::{aead_decrypt, aead_encrypt, derive_key, kdf_accepts, params_error, AeadCiphertext, CryptoError, KdfParams};

verus! {

/// Errors while wrapping or unwrapping the VEK.
#[derive(Debug, Clone, PartialEq, Eq)]
pub enum EnvelopeError {
    /// The AEAD tag failed: a wrong secret or a tampered wrap.
    WrongCredentials,
    /// A cryptographic failure unrelated to credentials.
    Crypto(CryptoError),
    /// The wrap authenticated but did not hold exactly 32 bytes.
    InvalidVek,
}

impl EnvelopeError {
    /// The human-readable description of this error.
    pub fn to_string(&self) -> (s: String)
        ensures
            s@ == self.message(),
    {
        match self {
            EnvelopeError::WrongCredentials => "incorrect master password or recovery key".to_string(),
            EnvelopeError::Crypto(e) => {
                let mut s = "envelope crypto error: ".to_string();
                let inner = e.to_string();
                s.append(inner.as_str());
                s
            },
            EnvelopeError::InvalidVek => "unwrapped key has an invalid length".to_string(),
        }
    }

    /// The text that [`EnvelopeError::to_string`] produces.
    pub open spec fn message(&self) -> Seq<char> {
        match self {
            EnvelopeError::WrongCredentials => "incorrect master password or recovery key"@,
            EnvelopeError::Crypto(e) => "envelope crypto error: "@ + e.message(),
            EnvelopeError::InvalidVek => "unwrapped key has an invalid length"@,
        }
    }
}

impl From<CryptoError> for EnvelopeError {
    fn from(e: CryptoError) -> (r: Self) {
        EnvelopeError::Crypto(e)
    }
}

impl vstd::std_specs::convert::FromSpecImpl<CryptoError> for EnvelopeError {
    open spec fn obeys_from_spec() -> bool {
        true
    }

    open spec fn from_spec(e: CryptoError) -> Self {
        EnvelopeError::Crypto(e)
    }
}

/// The empty associated data used for every VEK wrap.
pub open spec fn no_aad() -> Seq<u8> {
    Seq::empty()
}

/// Whether `wrap` is the AEAD sealing of `vek` under `key` (at its own nonce).
pub open spec fn seals(wrap: AeadCiphertext, key: Seq<u8>, vek: Seq<u8>) -> bool {
    wrap.ciphertext@ == aead_seal(key, wrap.nonce@, vek, no_aad())
}

/// The outcome of unwrapping `wrap` with an already-derived `key`.
pub open spec fn unwrap_result(key: Seq<u8>, wrap: AeadCiphertext) -> Result<Seq<u8>, EnvelopeError> {
    match aead_open(key, wrap.nonce@, wrap.ciphertext@, no_aad()) {
        None => Err(EnvelopeError::WrongCredentials),
        Some(pt) => if pt.len() == 32 { Ok(pt) } else { Err(EnvelopeError::InvalidVek) },
    }
}

/// Wrap the 32-byte `vek` under an already-derived key.
pub fn wrap_vek(derived_key: &[u8; 32], vek: &[u8; 32]) -> (r: Result<AeadCiphertext, EnvelopeError>)
    ensures
        r matches Ok(w) && seals(w, derived_key@, vek@) && w.ciphertext@.len() == 48,
{
    let empty: [u8; 0] = [];
    match aead_encrypt(derived_key, vek.as_slice(), empty.as_slice()) {
        Ok(ct) => {
            assert(empty@ == no_aad());
            Ok(ct)
        },
        Err(e) => Err(EnvelopeError::Crypto(e)),
    }
}

/// Copy an unwrapped plaintext into a fixed-size VEK, checking its length.
fn to_vek_array(plaintext: &[u8]) -> (r: Result<[u8; 32], EnvelopeError>)
    ensures
        match r {
            Ok(v) => plaintext@.len() == 32 && v@ == plaintext@,
            Err(e) => plaintext@.len() != 32 && e == EnvelopeError::InvalidVek,
        },
{
    if plaintext.len() != 32 {
        return Err(EnvelopeError::InvalidVek);
    }
    let mut vek = [0u8; 32];
    let mut i: usize = 0;
    while i < 32
        invariant
            plaintext@.len() == 32,
            0 <= i <= 32,
            forall|j: int| 0 <= j < i ==> vek@[j] == plaintext@[j],
        decreases 32 - i,
    {
        vek[i] = plaintext[i];
        i = i + 1;
    }
    assert(vek@ =~= plaintext@);
    Ok(vek)
}

/// Unwrap a VEK with an already-derived key. An authentication failure is
/// [`EnvelopeError::WrongCredentials`]; a plaintext that is not 32 bytes is
/// [`EnvelopeError::InvalidVek`]. A wrap made by [`wrap_vek`] under the same
/// key gives back exactly the wrapped VEK.
pub fn unwrap_vek(derived_key: &[u8; 32], wrap: &AeadCiphertext) -> (r: Result<[u8; 32], EnvelopeError>)
    ensures
        match (r, unwrap_result(derived_key@, *wrap)) {
            (Ok(v), Ok(k)) => v@ == k,
            (Err(e1), Err(e2)) => e1 == e2,
            _ => false,
        },
        forall|vek: Seq<u8>| vek.len() == 32 && #[trigger] seals(*wrap, derived_key@, vek) ==> (r matches Ok(v) && v@ == vek),
{
    let empty: [u8; 0] = [];
    assert(empty@ == no_aad());
    let plaintext = match aead_decrypt(derived_key, wrap, empty.as_slice()) {
        Ok(pt) => pt,
        Err(CryptoError::Decryption) => {
            return Err(EnvelopeError::WrongCredentials);
        },
        Err(other) => {
            return Err(EnvelopeError::Crypto(other));
        },
    };
    to_vek_array(plaintext.as_slice())
}

/// The key that `secret`, `salt` and `params` derive.
pub open spec fn derived(secret: Seq<u8>, salt: Seq<u8>, params: KdfParams) -> Seq<u8> {
    argon2id_key(secret, salt, params.m_cost, params.t_cost, params.p_cost)
}

/// Whether `e` is the key-derivation error [`derive_key`] reports for these
/// inputs (it fails exactly when `kdf_accepts` does not hold).
pub open spec fn kdf_error(secret: Seq<u8>, salt: Seq<u8>, params: KdfParams, e: EnvelopeError) -> bool {
    if !argon2_params_ok(params.m_cost, params.t_cost, params.p_cost) {
        e matches EnvelopeError::Crypto(CryptoError::InvalidParams(msg))
            && msg@ == params_error(params)
    } else {
        e matches EnvelopeError::Crypto(CryptoError::KeyDerivation(msg))
            && msg@ == argon2_inputs_error(secret.len(), salt.len())
    }
}

/// Derive a key from `secret` and `salt` with Argon2id, then wrap `vek` under
/// it (the create flow's password and recovery wraps).
pub fn wrap_vek_with_secret(secret: &[u8], salt: &[u8], params: KdfParams, vek: &[u8; 32]) -> (r: Result<AeadCiphertext, EnvelopeError>)
    ensures
        r is Ok <==> kdf_accepts(secret@.len(), salt@.len(), params),
        match r {
            Ok(w) => seals(w, derived(secret@, salt@, params), vek@) && w.ciphertext@.len() == 48,
            Err(e) => kdf_error(secret@, salt@, params, e),
        },
{
    let key = match derive_key(secret, salt, params) {
        Ok(k) => k,
        Err(e) => {
            return Err(EnvelopeError::Crypto(e));
        },
    };
    wrap_vek(&key, vek)
}

/// Derive a key from `secret` and `salt` with Argon2id, then unwrap the VEK
/// from `wrap` (the unlock flows). A wrong secret yields
/// [`EnvelopeError::WrongCredentials`]; the secret that made the wrap gives
/// back exactly its VEK.
pub fn unwrap_vek_with_secret(secret: &[u8], salt: &[u8], params: KdfParams, wrap: &AeadCiphertext) -> (r: Result<[u8; 32], EnvelopeError>)
    ensures
        !kdf_accepts(secret@.len(), salt@.len(), params) ==> (r matches Err(e) && kdf_error(secret@, salt@, params, e)),
        kdf_accepts(secret@.len(), salt@.len(), params) ==> match (r, unwrap_result(derived(secret@, salt@, params), *wrap)) {
            (Ok(v), Ok(k)) => v@ == k,
            (Err(e1), Err(e2)) => e1 == e2,
            _ => false,
        },
        forall|vek: Seq<u8>|
            kdf_accepts(secret@.len(), salt@.len(), params) && vek.len() == 32
                && #[trigger] seals(*wrap, derived(secret@, salt@, params), vek) ==> (r matches Ok(v) && v@ == vek),
{
    let key = match derive_key(secret, salt, params) {
        Ok(k) => k,
        Err(e) => {
            return Err(EnvelopeError::Crypto(e));
        },
    };
    unwrap_vek(&key, wrap)
}

} // verus!
