//! Cryptographic parameters, AEAD ciphertext containers and CSPRNG helpers.
//!
//! Key derivation is Argon2id and authenticated encryption is
//! XChaCha20-Poly1305, both from audited crates reached through
//! [`primitives`]. This module sequences those calls, maps their failures onto
//! [`CryptoError`], and implements the unbiased bounded random draw used by the
//! password generator.

pub mod envelope;
pub mod primitives;

use vstd::prelude::*;

use primitives::{
    aead_msg_ok, aead_open, aead_seal, argon2_inputs_error, argon2_inputs_ok, argon2_params_error,
    argon2_params_ok, argon2id_derive, argon2id_key, fill_random, xchacha_open, xchacha_seal,
    Argon2Failure,
};

verus! {

/// Cipher identifier for XChaCha20-Poly1305 (stored as `CIPHER_ID`).
pub const CIPHER_ID_XCHACHA20POLY1305: u8 = 1;

/// KDF identifier for Argon2id (stored as `KDF_ID`).
pub const KDF_ID_ARGON2ID: u8 = 1;

/// Length of a symmetric key / derived key / VEK, in bytes.
pub const KEY_LEN: usize = 32;

/// Length of a KDF salt, in bytes.
pub const SALT_LEN: usize = 16;

/// Length of an XChaCha20-Poly1305 nonce, in bytes.
pub const NONCE_LEN: usize = 24;

/// Length of the Vault Encryption Key, in bytes.
pub const VEK_LEN: usize = 32;

/// Length of the Poly1305 authentication tag appended to every ciphertext.
pub const TAG_LEN: usize = 16;

/// Errors of the cryptographic core. `Decryption` is deliberately opaque: a
/// wrong key, tampered data and a tampered nonce all look the same.
#[derive(Debug, Clone, PartialEq, Eq)]
pub enum CryptoError {
    /// Argon2id key derivation rejected its inputs.
    KeyDerivation(String),
    /// The KDF parameters were rejected.
    InvalidParams(String),
    /// AEAD encryption failed.
    Encryption,
    /// AEAD authentication failed (wrong key or tampered data).
    Decryption,
}

impl CryptoError {
    /// The human-readable description of this error.
    pub fn to_string(&self) -> (s: String)
        ensures
            s@ == self.message(),
    {
        match self {
            CryptoError::KeyDerivation(msg) => {
                let mut s = "key derivation failed: ".to_string();
                s.append(msg.as_str());
                s
            },
            CryptoError::InvalidParams(msg) => {
                let mut s = "invalid KDF parameters: ".to_string();
                s.append(msg.as_str());
                s
            },
            CryptoError::Encryption => "encryption failed".to_string(),
            CryptoError::Decryption => "decryption failed (wrong key or tampered data)".to_string(),
        }
    }

    /// The text that [`CryptoError::to_string`] produces.
    pub open spec fn message(&self) -> Seq<char> {
        match self {
            CryptoError::KeyDerivation(msg) => "key derivation failed: "@ + msg@,
            CryptoError::InvalidParams(msg) => "invalid KDF parameters: "@ + msg@,
            CryptoError::Encryption => "encryption failed"@,
            CryptoError::Decryption => "decryption failed (wrong key or tampered data)"@,
        }
    }
}

/// Argon2id key-derivation parameters (memory in KiB, iterations, lanes).
/// They are stored in the vault header so a vault stays openable when the
/// application's defaults change.
#[derive(Debug, Clone, Copy, PartialEq, Eq, Structural)]
pub struct KdfParams {
    /// Memory size in KiB.
    pub m_cost: u32,
    /// Number of iterations.
    pub t_cost: u32,
    /// Degree of parallelism.
    pub p_cost: u32,
}

impl KdfParams {
    /// The tuned defaults: 64 MiB of memory, 3 iterations, 1 lane.
    pub fn recommended() -> (p: Self)
        ensures
            p == (KdfParams { m_cost: 65536, t_cost: 3, p_cost: 1 }),
    {
        KdfParams { m_cost: 64 * 1024, t_cost: 3, p_cost: 1 }
    }
}

impl Default for KdfParams {
    fn default() -> (p: Self)
        ensures
            p == (KdfParams { m_cost: 65536, t_cost: 3, p_cost: 1 }),
    {
        KdfParams::recommended()
    }
}

/// An AEAD ciphertext with the random nonce used to produce it. The
/// ciphertext carries the 16-byte authentication tag.
#[derive(Debug, Clone, PartialEq, Eq)]
pub struct AeadCiphertext {
    /// The 24-byte XChaCha20-Poly1305 nonce.
    pub nonce: [u8; 24],
    /// Ciphertext with the appended authentication tag.
    pub ciphertext: Vec<u8>,
}

/// The abstract content of an [`AeadCiphertext`]: its nonce and ciphertext bytes.
pub struct AeadCiphertextView {
    pub nonce: Seq<u8>,
    pub ciphertext: Seq<u8>,
}

impl View for AeadCiphertext {
    type V = AeadCiphertextView;

    open spec fn view(&self) -> AeadCiphertextView {
        AeadCiphertextView { nonce: self.nonce@, ciphertext: self.ciphertext@ }
    }
}

/// Whether Argon2id derivation succeeds for these inputs.
pub open spec fn kdf_accepts(secret_len: nat, salt_len: nat, params: KdfParams) -> bool {
    argon2_params_ok(params.m_cost, params.t_cost, params.p_cost) && argon2_inputs_ok(secret_len, salt_len)
}

/// The largest lane count that is handed to Argon2: its memory check
/// multiplies the lane count by 8 in `u32`. Argon2 itself accepts at most
/// 0xFF_FFFF lanes, so every larger request is one it would refuse too.
pub const MAX_LANE_REQUEST: u32 = 0x1FFF_FFFF;

/// The message [`derive_key`] reports for rejected costs: a lane count above
/// [`MAX_LANE_REQUEST`] is refused here as "too many threads" before Argon2
/// is asked; other costs get Argon2's own message.
pub open spec fn params_error(params: KdfParams) -> Seq<char> {
    if params.p_cost > 0x1FFF_FFFF {
        "too many threads"@
    } else {
        argon2_params_error(params.m_cost, params.t_cost, params.p_cost)
    }
}

/// Derive a 256-bit key from `secret` and `salt` with Argon2id. Deterministic:
/// the same secret, salt and parameters give the same key.
pub fn derive_key(secret: &[u8], salt: &[u8], params: KdfParams) -> (r: Result<[u8; 32], CryptoError>)
    ensures
        match r {
            Ok(key) => kdf_accepts(secret@.len(), salt@.len(), params)
                && key@ == argon2id_key(secret@, salt@, params.m_cost, params.t_cost, params.p_cost),
            Err(CryptoError::InvalidParams(msg)) => !argon2_params_ok(params.m_cost, params.t_cost, params.p_cost)
                && msg@ == params_error(params),
            Err(CryptoError::KeyDerivation(msg)) => argon2_params_ok(params.m_cost, params.t_cost, params.p_cost)
                && !argon2_inputs_ok(secret@.len(), salt@.len())
                && msg@ == argon2_inputs_error(secret@.len(), salt@.len()),
            Err(_) => false,
        },
{
    if params.p_cost > MAX_LANE_REQUEST {
        return Err(CryptoError::InvalidParams("too many threads".to_string()));
    }
    match argon2id_derive(secret, salt, params.m_cost, params.t_cost, params.p_cost) {
        Ok(key) => Ok(key),
        Err(Argon2Failure::Params(msg)) => Err(CryptoError::InvalidParams(msg)),
        Err(Argon2Failure::Hash(msg)) => Err(CryptoError::KeyDerivation(msg)),
    }
}

/// Encrypt `plaintext` under `key` with XChaCha20-Poly1305 and a fresh random
/// nonce; `aad` is authenticated but not encrypted.
pub fn aead_encrypt(key: &[u8; 32], plaintext: &[u8], aad: &[u8]) -> (r: Result<AeadCiphertext, CryptoError>)
    ensures
        r is Ok <==> aead_msg_ok(plaintext@.len()),
        match r {
            Ok(ct) => ct.ciphertext@ == aead_seal(key@, ct.nonce@, plaintext@, aad@)
                && ct.ciphertext@.len() == plaintext@.len() + 16,
            Err(e) => e == CryptoError::Encryption,
        },
{
    let nonce = random_nonce();
    match xchacha_seal(key, &nonce, plaintext, aad) {
        Ok(ciphertext) => Ok(AeadCiphertext { nonce, ciphertext }),
        Err(()) => Err(CryptoError::Encryption),
    }
}

/// Authenticate and decrypt `ct` under `key`. Fails with
/// [`CryptoError::Decryption`] when the key or `aad` is wrong or the data was
/// tampered with; opens exactly what [`aead_encrypt`] sealed.
pub fn aead_decrypt(key: &[u8; 32], ct: &AeadCiphertext, aad: &[u8]) -> (r: Result<Vec<u8>, CryptoError>)
    ensures
        match r {
            Ok(pt) => aead_open(key@, ct.nonce@, ct.ciphertext@, aad@) == Some(pt@),
            Err(e) => e == CryptoError::Decryption && aead_open(key@, ct.nonce@, ct.ciphertext@, aad@) is None,
        },
        forall|m: Seq<u8>|
            aead_msg_ok(m.len()) && #[trigger] aead_seal(key@, ct.nonce@, m, aad@) == ct.ciphertext@
                ==> (r matches Ok(pt) && pt@ == m),
{
    match xchacha_open(key, &ct.nonce, ct.ciphertext.as_slice(), aad) {
        Ok(pt) => Ok(pt),
        Err(()) => Err(CryptoError::Decryption),
    }
}

/// A random 16-byte KDF salt.
pub fn random_salt() -> [u8; 16] {
    let mut salt = [0u8; 16];
    fill_random(&mut salt);
    salt
}

/// A random 24-byte XChaCha20-Poly1305 nonce.
pub fn random_nonce() -> [u8; 24] {
    let mut nonce = [0u8; 24];
    fill_random(&mut nonce);
    nonce
}

/// A random 256-bit Vault Encryption Key.
pub fn random_vek() -> [u8; 32] {
    let mut vek = [0u8; 32];
    fill_random(&mut vek);
    vek
}

/// The number of raw 32-bit draws that rejection sampling accepts for
/// `bound`: the largest multiple of `bound` that is at most 2^32.
pub open spec fn draw_limit(bound: u32) -> int {
    0x1_0000_0000 - (0x1_0000_0000int % (bound as int))
}

/// Rejection sampling step: a raw draw below [`draw_limit`] maps to its
/// residue modulo `bound` (every residue then has equally many preimages);
/// any other draw is rejected.
pub fn accept_draw(v: u32, bound: u32) -> (r: Option<u32>)
    requires
        bound > 0,
    ensures
        r == (if (v as int) < draw_limit(bound) { Some((v % bound) as u32) } else { None::<u32> }),
{
    let b = bound as u64;
    let span: u64 = 0x1_0000_0000;
    let limit = span - span % b;
    let w = v as u64;
    if w < limit {
        Some((w % b) as u32)
    } else {
        None
    }
}

/// One raw uniform 32-bit draw from the OS CSPRNG.
fn random_u32() -> u32 {
    let mut buf = [0u8; 4];
    fill_random(&mut buf);
    let v: u64 = buf[0] as u64 + 256 * (buf[1] as u64) + 65536 * (buf[2] as u64) + 16777216 * (buf[3] as u64);
    v as u32
}

/// Whether rejection sampling returns `r` after the raw draws `draws`: every
/// draw but the last was rejected by [`accept_draw`], the last was accepted
/// (or it was the 2^64-th draw), and `r` is the last draw modulo `bound`.
pub open spec fn sampled(draws: Seq<u32>, bound: u32, r: u32) -> bool {
    &&& draws.len() >= 1
    &&& forall|k: int| 0 <= k < draws.len() - 1 ==> (#[trigger] draws[k] as int) >= draw_limit(bound)
    &&& (draws.last() as int) < draw_limit(bound) || draws.len() == 0x1_0000_0000_0000_0000
    &&& r == draws.last() % bound
}

/// Whether `r` comes out of rejection sampling for `bound` for some sequence
/// of raw draws. Which draws the OS returns is not known here, so this pins
/// the procedure, not the value: every `r < bound` has such a sequence.
pub open spec fn sampled_below(bound: u32, r: u32) -> bool {
    exists|draws: Seq<u32>| #[trigger] sampled(draws, bound, r)
}

/// A uniformly distributed random value in `[0, bound)` from the OS CSPRNG,
/// using rejection sampling so that no residue is favoured: raw draws are
/// taken until [`accept_draw`] accepts one. (After 2^64 - 1 rejected draws,
/// which does not happen in practice, the last draw is reduced as is.)
pub fn random_below(bound: u32) -> (r: u32)
    requires
        bound > 0,
    ensures
        r < bound,
        sampled_below(bound, r),
{
    let mut attempts: u64 = 0;
    let ghost mut draws: Seq<u32> = Seq::empty();
    loop
        invariant
            bound > 0,
            draws.len() == attempts,
            forall|k: int| 0 <= k < draws.len() ==> (#[trigger] draws[k] as int) >= draw_limit(bound),
        decreases u64::MAX - attempts,
    {
        let v = random_u32();
        proof {
            draws = draws.push(v);
        }
        match accept_draw(v, bound) {
            Some(x) => {
                assert(sampled(draws, bound, x));
                return x;
            },
            None => {
                if attempts == u64::MAX {
                    assert(sampled(draws, bound, v % bound));
                    return v % bound;
                }
                attempts = attempts + 1;
            },
        }
    }
}

} // verus!
