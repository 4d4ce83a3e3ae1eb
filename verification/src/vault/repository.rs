//! Vault repository: the create, unlock, change-password and save flows.
//!
//! **Create** draws a random vault key (VEK) and master salt, wraps the VEK
//! under the master password, optionally under a freshly generated recovery
//! key as well, and encrypts the serialized empty model under the VEK.
//! **Unlock** decodes the file, unwraps the VEK with the master password or
//! the recovery key, and decrypts the payload. **Save** re-encrypts a new
//! payload under the same VEK with a fresh nonce, keeping every other header
//! field. **Change password** rewrites only the master salt and the password
//! wrap.
//!
//! The flows work on bytes: the caller reads and (atomically) writes the
//! file, and turns the decrypted payload into a [`VaultModel`] and back.

use vstd::prelude::*;
use zeroize::Zeroize;
use vstd::std_specs::convert::FromSpecImpl;

use crate::crypto::envelope::{derived, kdf_error, no_aad, unwrap_vek_with_secret, wrap_vek_with_secret, EnvelopeError};
use crate::crypto::primitives::{aead_msg_ok, aead_open, aead_seal};
use crate::crypto::{aead_decrypt, aead_encrypt, kdf_accepts, random_salt, random_vek, AeadCiphertext, AeadCiphertextView, CryptoError, KdfParams};
use crate::model::{default_settings, VaultModel, VaultModelSpec};
use crate::vault::header::{
    decode, is_newer_version, lemma_layout_unique, lemma_encode_injective, spec_encode, spec_layout, version_of, VaultFile,
    VaultFileView, VaultFormatError, FORMAT_VERSION,
};
use crate::vault::io_error_text;
use crate::vault::recovery_key::{generate_recovery_key, recovery_key_text};

verus! {

/// Errors of turning the vault model into payload bytes and back.
#[derive(Debug, Clone, PartialEq, Eq)]
pub enum ModelError {
    /// The model could not be serialized.
    Serialize(String),
    /// The payload bytes are not a serialized model.
    Deserialize(String),
}

impl ModelError {
    /// The text that [`ModelError::to_string`] produces.
    pub open spec fn message(&self) -> Seq<char> {
        match self {
            ModelError::Serialize(m) => "could not serialize the vault contents: "@ + m@,
            ModelError::Deserialize(m) => "could not read the vault contents: "@ + m@,
        }
    }

    /// The human-readable description of this error.
    pub fn to_string(&self) -> (s: String)
        ensures
            s@ == self.message(),
    {
        match self {
            ModelError::Serialize(m) => {
                let mut s = "could not serialize the vault contents: ".to_string();
                s.append(m.as_str());
                s
            },
            ModelError::Deserialize(m) => {
                let mut s = "could not read the vault contents: ".to_string();
                s.append(m.as_str());
                s
            },
        }
    }
}

/// Errors of the vault flows.
#[derive(Debug)]
pub enum VaultRepoError {
    /// The master password or recovery key could not unwrap the VEK (a wrong
    /// secret and a tampered wrap look the same).
    WrongCredentials,
    /// A recovery-key unlock was attempted on a vault without a recovery key.
    NoRecoverySection,
    /// The VEK unwrapped but the payload failed authentication or parsing.
    Corrupted,
    /// The file is not a readable vault file.
    Format(VaultFormatError),
    /// A wrap or unwrap failure other than wrong credentials.
    Envelope(EnvelopeError),
    /// Serializing or parsing the model failed.
    Model(ModelError),
    /// Payload encryption failed.
    Crypto(CryptoError),
    /// Reading or writing the file failed.
    Io(std::io::Error),
}

impl VaultRepoError {
    /// The human-readable description of this error. The texts of I/O
    /// failures come from the operating system and only their prefix is
    /// stated.
    pub fn to_string(&self) -> (s: String)
        ensures
            match self {
                VaultRepoError::WrongCredentials => s@ == "incorrect master password or recovery key"@,
                VaultRepoError::NoRecoverySection => s@ == "this vault has no recovery key configured"@,
                VaultRepoError::Corrupted => s@ == "this vault file is damaged or not a Keyhaven vault"@,
                VaultRepoError::Format(VaultFormatError::Io(_)) => "vault file I/O error: "@.is_prefix_of(s@),
                VaultRepoError::Format(VaultFormatError::VaultCorrupted) => s@ == "this vault file is damaged or not a Keyhaven vault"@,
                VaultRepoError::Format(VaultFormatError::IncompatibleVersion { found, supported }) => s@
                    == "vault file format version "@ + crate::text::decimal(found as nat)
                    + " is newer than supported version "@ + crate::text::decimal(supported as nat)
                    + "; update Keyhaven to open it"@,
                VaultRepoError::Envelope(e) => s@ == e.message(),
                VaultRepoError::Model(e) => s@ == e.message(),
                VaultRepoError::Crypto(e) => s@ == e.message(),
                VaultRepoError::Io(_) => "vault I/O error: "@.is_prefix_of(s@),
            },
    {
        match self {
            VaultRepoError::WrongCredentials => "incorrect master password or recovery key".to_string(),
            VaultRepoError::NoRecoverySection => "this vault has no recovery key configured".to_string(),
            VaultRepoError::Corrupted => "this vault file is damaged or not a Keyhaven vault".to_string(),
            VaultRepoError::Format(e) => e.to_string(),
            VaultRepoError::Envelope(e) => e.to_string(),
            VaultRepoError::Model(e) => e.to_string(),
            VaultRepoError::Crypto(e) => e.to_string(),
            VaultRepoError::Io(e) => {
                let mut s = "vault I/O error: ".to_string();
                let detail = io_error_text(e);
                s.append(detail.as_str());
                assert("vault I/O error: "@.is_prefix_of(s@)) by {
                    assert(s@.subrange(0, "vault I/O error: "@.len() as int) =~= "vault I/O error: "@);
                }
                s
            },
        }
    }
}

impl From<VaultFormatError> for VaultRepoError {
    fn from(e: VaultFormatError) -> (r: Self) {
        VaultRepoError::Format(e)
    }
}

impl FromSpecImpl<VaultFormatError> for VaultRepoError {
    open spec fn obeys_from_spec() -> bool {
        true
    }

    open spec fn from_spec(e: VaultFormatError) -> Self {
        VaultRepoError::Format(e)
    }
}

impl From<EnvelopeError> for VaultRepoError {
    /// Wrong credentials stay recognisable; every other envelope error is kept.
    fn from(e: EnvelopeError) -> (r: Self) {
        match e {
            EnvelopeError::WrongCredentials => VaultRepoError::WrongCredentials,
            other => VaultRepoError::Envelope(other),
        }
    }
}

impl FromSpecImpl<EnvelopeError> for VaultRepoError {
    open spec fn obeys_from_spec() -> bool {
        true
    }

    open spec fn from_spec(e: EnvelopeError) -> Self {
        match e {
            EnvelopeError::WrongCredentials => VaultRepoError::WrongCredentials,
            other => VaultRepoError::Envelope(other),
        }
    }
}

impl From<ModelError> for VaultRepoError {
    fn from(e: ModelError) -> (r: Self) {
        VaultRepoError::Model(e)
    }
}

impl FromSpecImpl<ModelError> for VaultRepoError {
    open spec fn obeys_from_spec() -> bool {
        true
    }

    open spec fn from_spec(e: ModelError) -> Self {
        VaultRepoError::Model(e)
    }
}

impl From<CryptoError> for VaultRepoError {
    fn from(e: CryptoError) -> (r: Self) {
        VaultRepoError::Crypto(e)
    }
}

impl FromSpecImpl<CryptoError> for VaultRepoError {
    open spec fn obeys_from_spec() -> bool {
        true
    }

    open spec fn from_spec(e: CryptoError) -> Self {
        VaultRepoError::Crypto(e)
    }
}

impl From<std::io::Error> for VaultRepoError {
    fn from(e: std::io::Error) -> (r: Self) {
        VaultRepoError::Io(e)
    }
}

impl FromSpecImpl<std::io::Error> for VaultRepoError {
    open spec fn obeys_from_spec() -> bool {
        true
    }

    open spec fn from_spec(e: std::io::Error) -> Self {
        VaultRepoError::Io(e)
    }
}

/// Calls `<[u8; 32] as Zeroize>::zeroize`. Claimed (zeroize's source): every
/// byte becomes zero.
#[verifier::external_body]
fn wipe_key(k: &mut [u8; 32])
    ensures
        final(k)@ == Seq::new(32, |i: int| 0u8),
{
    k.zeroize()
}

/// The result of authenticating and decrypting wrap `w` with `key`.
pub open spec fn unwrap_view(key: Seq<u8>, w: AeadCiphertextView) -> Result<Seq<u8>, EnvelopeError> {
    match aead_open(key, w.nonce, w.ciphertext, no_aad()) {
        None => Err(EnvelopeError::WrongCredentials),
        Some(pt) => if pt.len() == 32 { Ok(pt) } else { Err(EnvelopeError::InvalidVek) },
    }
}

/// Whether `secret` opens wrap `w` (under `salt` and `params`) to some VEK.
pub open spec fn opens_wrap(w: AeadCiphertextView, secret: Seq<u8>, salt: Seq<u8>, params: KdfParams) -> bool {
    kdf_accepts(secret.len(), salt.len(), params) && unwrap_view(derived(secret, salt, params), w) is Ok
}

/// Whether wrap `w` seals `vek` under the key derived from `secret`.
pub open spec fn wrap_holds(w: AeadCiphertextView, secret: Seq<u8>, salt: Seq<u8>, params: KdfParams, vek: Seq<u8>) -> bool {
    &&& kdf_accepts(secret.len(), salt.len(), params)
    &&& vek.len() == 32
    &&& w.ciphertext == aead_seal(derived(secret, salt, params), w.nonce, vek, no_aad())
}

/// Whether the master password `secret` unwraps `vek` from vault file `f`.
pub open spec fn password_opens(f: VaultFileView, secret: Seq<u8>, vek: Seq<u8>) -> bool {
    wrap_holds(f.pw_wrap, secret, f.master_salt, f.kdf_params, vek)
}

/// Whether the recovery key `secret` unwraps `vek` from vault file `f`.
pub open spec fn recovery_opens(f: VaultFileView, secret: Seq<u8>, vek: Seq<u8>) -> bool {
    f.recovery matches Some((salt, w)) && wrap_holds(w, secret, salt, f.kdf_params, vek)
}

/// Whether the payload of `f` is `pt` encrypted under `vek`.
pub open spec fn payload_holds(f: VaultFileView, vek: Seq<u8>, pt: Seq<u8>) -> bool {
    aead_msg_ok(pt.len()) && f.payload == aead_seal(vek, f.payload_nonce, pt, no_aad())
}

/// Whether `f` is the well-formed vault file stored in `bytes`.
pub open spec fn encodes(f: VaultFileView, bytes: Seq<u8>) -> bool {
    f.wf() && spec_layout(f) == bytes
}

/// Whether `e` is the error [`decode`] reports for `bytes`.
pub open spec fn format_rejects(bytes: Seq<u8>, e: VaultFormatError) -> bool {
    match e {
        VaultFormatError::IncompatibleVersion { found, supported } => is_newer_version(bytes)
            && found == version_of(bytes) && supported == FORMAT_VERSION,
        VaultFormatError::VaultCorrupted => !is_newer_version(bytes)
            && forall|v: VaultFileView| v.wf() ==> #[trigger] spec_layout(v) != bytes,
        VaultFormatError::Io(_) => false,
    }
}

/// Whether `secret` may change the master password of `f`: it opens the
/// password wrap or the recovery wrap.
pub open spec fn secret_accepted(f: VaultFileView, secret: Seq<u8>) -> bool {
    ||| opens_wrap(f.pw_wrap, secret, f.master_salt, f.kdf_params)
    ||| (f.recovery matches Some((salt, w)) && opens_wrap(w, secret, salt, f.kdf_params))
}

/// The abstract content of an [`OpenVault`].
pub struct OpenVaultView {
    pub vek: Seq<u8>,
    pub file: VaultFileView,
    pub model: VaultModelSpec,
    pub path: Seq<char>,
}

/// An unlocked vault: the VEK, the header of the file it came from, the
/// decrypted model and where the file lives.
pub struct OpenVault {
    vek: [u8; 32],
    file: VaultFile,
    model: VaultModel,
    path: String,
}

impl View for OpenVault {
    type V = OpenVaultView;

    closed spec fn view(&self) -> OpenVaultView {
        OpenVaultView { vek: self.vek@, file: self.file@, model: self.model@, path: self.path@ }
    }
}

/// A vault whose VEK was unwrapped and whose payload was decrypted, before
/// the payload is parsed into a model.
pub struct Unlocked {
    /// The recovered vault key.
    pub vek: [u8; 32],
    /// The decoded file.
    pub file: VaultFile,
    /// The decrypted, still serialized, payload.
    pub payload: Vec<u8>,
}

/// Whether `e` is the error of unwrapping wrap `w` of `f` with `secret`: the
/// key derivation rejects its inputs, or the wrap does not open (wrong
/// credentials) or holds no 32-byte key.
pub open spec fn unwrap_fails(f: VaultFileView, w: AeadCiphertextView, secret: Seq<u8>, salt: Seq<u8>, e: VaultRepoError) -> bool {
    if !kdf_accepts(secret.len(), salt.len(), f.kdf_params) {
        e matches VaultRepoError::Envelope(inner) && kdf_error(secret, salt, f.kdf_params, inner)
    } else {
        match unwrap_view(derived(secret, salt, f.kdf_params), w) {
            Ok(_) => false,
            Err(EnvelopeError::WrongCredentials) => e is WrongCredentials,
            Err(other) => e == VaultRepoError::Envelope(other),
        }
    }
}

/// The decrypting step shared by both unlock paths.
fn open_payload(file: VaultFile, vek: [u8; 32]) -> (r: Result<Unlocked, VaultRepoError>)
    ensures
        match r {
            Ok(u) => u.file == file && u.vek == vek
                && aead_open(vek@, file@.payload_nonce, file@.payload, no_aad()) == Some(u.payload@),
            Err(e) => e is Corrupted && aead_open(vek@, file@.payload_nonce, file@.payload, no_aad()) is None,
        },
        forall|pt: Seq<u8>| #[trigger] payload_holds(file@, vek@, pt) ==> (r matches Ok(u) && u.payload@ == pt),
{
    let payload = AeadCiphertext { nonce: file.payload_nonce, ciphertext: vstd::slice::slice_to_vec(file.payload.as_slice()) };
    let empty: [u8; 0] = [];
    assert(empty@ == no_aad());
    match aead_decrypt(&vek, &payload, empty.as_slice()) {
        Ok(pt) => Ok(Unlocked { vek, file, payload: pt }),
        Err(_) => Err(VaultRepoError::Corrupted),
    }
}

/// A copy of a ciphertext container.
fn copy_ciphertext(w: &AeadCiphertext) -> (r: AeadCiphertext)
    ensures
        r@ == w@,
{
    AeadCiphertext { nonce: w.nonce, ciphertext: vstd::slice::slice_to_vec(w.ciphertext.as_slice()) }
}

/// Whether unwrapping `w` of `f` with `secret` gives a VEK under which the
/// payload does not authenticate.
pub open spec fn payload_rejected(f: VaultFileView, w: AeadCiphertextView, secret: Seq<u8>, salt: Seq<u8>) -> bool {
    &&& kdf_accepts(secret.len(), salt.len(), f.kdf_params)
    &&& unwrap_view(derived(secret, salt, f.kdf_params), w) matches Ok(k)
        && aead_open(k, f.payload_nonce, f.payload, no_aad()) is None
}

/// Unwrap the VEK from `wrap` with `secret`, then decrypt the payload of `file`.
fn unwrap_and_open(file: VaultFile, secret: &[u8], salt: [u8; 16], wrap: AeadCiphertext) -> (r: Result<Unlocked, VaultRepoError>)
    ensures
        match r {
            Ok(u) => u.file == file && kdf_accepts(secret@.len(), 16, file.kdf_params)
                && unwrap_view(derived(secret@, salt@, file.kdf_params), wrap@) == Ok::<Seq<u8>, EnvelopeError>(u.vek@)
                && aead_open(u.vek@, file@.payload_nonce, file@.payload, no_aad()) == Some(u.payload@),
            Err(VaultRepoError::Corrupted) => payload_rejected(file@, wrap@, secret@, salt@),
            Err(e) => unwrap_fails(file@, wrap@, secret@, salt@, e),
        },
        forall|vek: Seq<u8>, pt: Seq<u8>|
            #[trigger] wrap_holds(wrap@, secret@, salt@, file.kdf_params, vek) && #[trigger] payload_holds(file@, vek, pt)
                ==> (r matches Ok(u) && u.vek@ == vek && u.payload@ == pt),
{
    let vek = match unwrap_vek_with_secret(secret, salt.as_slice(), file.kdf_params, &wrap) {
        Ok(v) => v,
        Err(e) => {
            proof {
                assert forall|vek: Seq<u8>, pt: Seq<u8>|
                    #[trigger] wrap_holds(wrap@, secret@, salt@, file.kdf_params, vek) && #[trigger] payload_holds(file@, vek, pt)
                        implies false by {
                    assert(crate::crypto::envelope::seals(wrap, derived(secret@, salt@, file.kdf_params), vek));
                }
            }
            return Err(VaultRepoError::from(e));
        },
    };
    let r = open_payload(file, vek);
    proof {
        assert forall|v: Seq<u8>, pt: Seq<u8>|
            #[trigger] wrap_holds(wrap@, secret@, salt@, file.kdf_params, v) && #[trigger] payload_holds(file@, v, pt)
                implies (r matches Ok(u) && u.vek@ == v && u.payload@ == pt) by {
            assert(crate::crypto::envelope::seals(wrap, derived(secret@, salt@, file.kdf_params), v));
            assert(vek@ == v);
            assert(payload_holds(file@, vek@, pt));
        }
    }
    r
}

/// Decode the vault file `bytes`, unwrap its VEK with the master password and
/// decrypt its payload. A wrong password is
/// [`VaultRepoError::WrongCredentials`]; a payload that does not authenticate
/// under the unwrapped VEK is [`VaultRepoError::Corrupted`]. A file whose
/// password wrap holds a VEK for this password and whose payload is sealed
/// under that VEK always unlocks, to exactly that payload.
pub fn unlock_with_password(bytes: &[u8], master_password: &[u8]) -> (r: Result<Unlocked, VaultRepoError>)
    ensures
        match r {
            Ok(u) => encodes(u.file@, bytes@) && kdf_accepts(master_password@.len(), 16, u.file.kdf_params)
                && unwrap_view(derived(master_password@, u.file@.master_salt, u.file.kdf_params), u.file@.pw_wrap)
                    == Ok::<Seq<u8>, EnvelopeError>(u.vek@)
                && aead_open(u.vek@, u.file@.payload_nonce, u.file@.payload, no_aad()) == Some(u.payload@),
            Err(VaultRepoError::Format(e)) => format_rejects(bytes@, e),
            Err(VaultRepoError::Corrupted) => exists|f: VaultFileView| #[trigger] encodes(f, bytes@)
                && payload_rejected(f, f.pw_wrap, master_password@, f.master_salt),
            Err(e) => exists|f: VaultFileView| #[trigger] encodes(f, bytes@)
                && unwrap_fails(f, f.pw_wrap, master_password@, f.master_salt, e),
        },
        forall|f: VaultFileView, vek: Seq<u8>, pt: Seq<u8>|
            #[trigger] encodes(f, bytes@) && #[trigger] password_opens(f, master_password@, vek)
                && #[trigger] payload_holds(f, vek, pt)
                ==> (r matches Ok(u) && u.file@ == f && u.vek@ == vek && u.payload@ == pt),
{
    let file = match decode(bytes) {
        Ok(f) => f,
        Err(e) => {
            proof {
                assert forall|f: VaultFileView, vek: Seq<u8>, pt: Seq<u8>|
                    #[trigger] encodes(f, bytes@) && #[trigger] password_opens(f, master_password@, vek)
                        && #[trigger] payload_holds(f, vek, pt) implies false by {
                    lemma_layout_unique(f);
                }
            }
            return Err(VaultRepoError::Format(e));
        },
    };
    let salt = file.master_salt;
    let wrap = copy_ciphertext(&file.pw_wrap);
    let ghost fv = file@;
    let r = unwrap_and_open(file, master_password, salt, wrap);
    proof {
        assert(encodes(fv, bytes@));
        assert forall|f: VaultFileView, vek: Seq<u8>, pt: Seq<u8>|
            #[trigger] encodes(f, bytes@) && #[trigger] password_opens(f, master_password@, vek)
                && #[trigger] payload_holds(f, vek, pt)
                implies (r matches Ok(u) && u.file@ == f && u.vek@ == vek && u.payload@ == pt) by {
            lemma_encode_injective(f, fv);
            assert(wrap_holds(wrap@, master_password@, salt@, fv.kdf_params, vek));
        }
    }
    r
}

/// Decode the vault file `bytes`, unwrap its VEK with the recovery key and
/// decrypt its payload. A vault created without a recovery key is
/// [`VaultRepoError::NoRecoverySection`]; otherwise this behaves as
/// [`unlock_with_password`] with the recovery wrap and salt.
pub fn unlock_with_recovery_key(bytes: &[u8], recovery_key: &[u8]) -> (r: Result<Unlocked, VaultRepoError>)
    ensures
        match r {
            Ok(u) => encodes(u.file@, bytes@) && (u.file@.recovery matches Some((salt, w))
                && kdf_accepts(recovery_key@.len(), 16, u.file.kdf_params)
                && unwrap_view(derived(recovery_key@, salt, u.file.kdf_params), w) == Ok::<Seq<u8>, EnvelopeError>(u.vek@))
                && aead_open(u.vek@, u.file@.payload_nonce, u.file@.payload, no_aad()) == Some(u.payload@),
            Err(VaultRepoError::Format(e)) => format_rejects(bytes@, e),
            Err(VaultRepoError::NoRecoverySection) => exists|f: VaultFileView| #[trigger] encodes(f, bytes@)
                && f.recovery is None,
            Err(VaultRepoError::Corrupted) => exists|f: VaultFileView| #[trigger] encodes(f, bytes@)
                && (f.recovery matches Some((salt, w)) && payload_rejected(f, w, recovery_key@, salt)),
            Err(e) => exists|f: VaultFileView| #[trigger] encodes(f, bytes@)
                && (f.recovery matches Some((salt, w)) && unwrap_fails(f, w, recovery_key@, salt, e)),
        },
        forall|f: VaultFileView, vek: Seq<u8>, pt: Seq<u8>|
            #[trigger] encodes(f, bytes@) && #[trigger] recovery_opens(f, recovery_key@, vek)
                && #[trigger] payload_holds(f, vek, pt)
                ==> (r matches Ok(u) && u.file@ == f && u.vek@ == vek && u.payload@ == pt),
{
    let file = match decode(bytes) {
        Ok(f) => f,
        Err(e) => {
            proof {
                assert forall|f: VaultFileView, vek: Seq<u8>, pt: Seq<u8>|
                    #[trigger] encodes(f, bytes@) && #[trigger] recovery_opens(f, recovery_key@, vek)
                        && #[trigger] payload_holds(f, vek, pt) implies false by {
                    lemma_layout_unique(f);
                }
            }
            return Err(VaultRepoError::Format(e));
        },
    };
    let ghost fv = file@;
    let (salt, wrap) = match &file.recovery {
        Some((s, w)) => (*s, copy_ciphertext(w)),
        None => {
            proof {
                assert(encodes(fv, bytes@));
                assert forall|f: VaultFileView, vek: Seq<u8>, pt: Seq<u8>|
                    #[trigger] encodes(f, bytes@) && #[trigger] recovery_opens(f, recovery_key@, vek)
                        && #[trigger] payload_holds(f, vek, pt) implies false by {
                    lemma_encode_injective(f, fv);
                }
            }
            return Err(VaultRepoError::NoRecoverySection);
        },
    };
    assert(fv.recovery == Some((salt@, wrap@)));
    let r = unwrap_and_open(file, recovery_key, salt, wrap);
    proof {
        assert(encodes(fv, bytes@));
        assert forall|f: VaultFileView, vek: Seq<u8>, pt: Seq<u8>|
            #[trigger] encodes(f, bytes@) && #[trigger] recovery_opens(f, recovery_key@, vek)
                && #[trigger] payload_holds(f, vek, pt)
                implies (r matches Ok(u) && u.file@ == f && u.vek@ == vek && u.payload@ == pt) by {
            lemma_encode_injective(f, fv);
            assert(wrap_holds(wrap@, recovery_key@, salt@, fv.kdf_params, vek));
        }
    }
    r
}

/// Complete an unlock with the model parsed from the decrypted payload:
/// no model (the payload did not parse) is [`VaultRepoError::Corrupted`].
pub fn finish_unlock(path: String, unlocked: Unlocked, model: Option<VaultModel>) -> (r: Result<OpenVault, VaultRepoError>)
    ensures
        match model {
            Some(m) => r matches Ok(v) && v@ == (OpenVaultView {
                vek: unlocked.vek@,
                file: unlocked.file@,
                model: m@,
                path: path@,
            }),
            None => r matches Err(e) && e is Corrupted,
        },
{
    match model {
        Some(m) => Ok(OpenVault { vek: unlocked.vek, file: unlocked.file, model: m, path }),
        None => Err(VaultRepoError::Corrupted),
    }
}

impl OpenVault {
    /// The decrypted model.
    pub fn model(&self) -> (m: &VaultModel)
        ensures
            m@ == self@.model,
    {
        &self.model
    }

    /// The decrypted model, for changes before the next [`OpenVault::save`].
    pub fn model_mut(&mut self) -> (m: &mut VaultModel)
        ensures
            m@ == old(self)@.model,
            final(self)@ == (OpenVaultView { model: final(m)@, ..old(self)@ }),
    {
        &mut self.model
    }

    /// Replace the model wholesale.
    pub fn set_model(&mut self, model: VaultModel)
        ensures
            final(self)@ == (OpenVaultView { model: model@, ..old(self)@ }),
    {
        self.model = model;
    }

    /// The vault key recovered at create or unlock time.
    pub fn vek(&self) -> (k: &[u8; 32])
        ensures
            k@ == self@.vek,
    {
        &self.vek
    }

    /// Whether this vault has a recovery key.
    pub fn has_recovery(&self) -> (b: bool)
        ensures
            b == self@.file.recovery is Some,
    {
        self.file.recovery.is_some()
    }

    /// The key-derivation parameters recorded in the header.
    pub fn kdf_params(&self) -> (p: KdfParams)
        ensures
            p == self@.file.kdf_params,
    {
        self.file.kdf_params
    }

    /// Where this vault was created or opened.
    pub fn path(&self) -> (p: &str)
        ensures
            p@ == self@.path,
    {
        self.path.as_str()
    }

    /// Wipe the vault key and the texts of the decrypted model in place, as
    /// is done before an open vault is dropped.
    pub fn wipe(&mut self)
        ensures
            final(self)@.vek == Seq::new(32, |i: int| 0u8),
            crate::session::wiped_model(old(self)@.model, final(self)@.model),
            final(self)@.file == old(self)@.file,
            final(self)@.path == old(self)@.path,
    {
        crate::session::zeroize_model(&mut self.model);
        wipe_key(&mut self.vek);
    }

    /// The current file bytes (header and encrypted payload).
    pub fn encoded(&self) -> (bytes: Vec<u8>)
        ensures
            bytes@ == spec_encode(self@.file),
    {
        self.file.encode()
    }

    /// Whether `secret` can currently open this vault, through the password
    /// wrap or the recovery wrap.
    fn verify_secret(&self, secret: &[u8]) -> (ok: bool)
        ensures
            ok == secret_accepted(self@.file, secret@),
    {
        if unwrap_vek_with_secret(secret, self.file.master_salt.as_slice(), self.file.kdf_params, &self.file.pw_wrap).is_ok() {
            return true;
        }
        match &self.file.recovery {
            Some((rec_salt, rec_wrap)) => {
                unwrap_vek_with_secret(secret, rec_salt.as_slice(), self.file.kdf_params, rec_wrap).is_ok()
            },
            None => false,
        }
    }

    /// Change the master password. `current_secret` must open the vault
    /// through the password wrap or the recovery wrap; otherwise this is
    /// [`VaultRepoError::WrongCredentials`] and nothing changes. The same VEK
    /// is wrapped under `new_password` with a fresh salt and the file's own KDF
    /// parameters; only the master salt and the password wrap change. Returns
    /// the new file bytes, to be written in place.
    pub fn change_master_password(&mut self, current_secret: &[u8], new_password: &[u8]) -> (r: Result<Vec<u8>, VaultRepoError>)
        ensures
            match r {
                Ok(bytes) => {
                    &&& secret_accepted(old(self)@.file, current_secret@)
                    &&& final(self)@ == (OpenVaultView {
                        file: VaultFileView {
                            master_salt: final(self)@.file.master_salt,
                            pw_wrap: final(self)@.file.pw_wrap,
                            ..old(self)@.file
                        },
                        ..old(self)@
                    })
                    &&& final(self)@.file.master_salt.len() == 16
                    &&& final(self)@.file.pw_wrap.nonce.len() == 24
                    &&& old(self)@.file.wf() ==> final(self)@.file.wf()
                    &&& password_opens(final(self)@.file, new_password@, old(self)@.vek)
                    &&& bytes@ == spec_encode(final(self)@.file)
                },
                Err(VaultRepoError::WrongCredentials) => !secret_accepted(old(self)@.file, current_secret@)
                    && final(self)@ == old(self)@,
                Err(VaultRepoError::Envelope(e)) => secret_accepted(old(self)@.file, current_secret@)
                    && kdf_error(new_password@, final(self)@.file.master_salt, old(self)@.file.kdf_params, e)
                    && final(self)@ == old(self)@,
                Err(_) => false,
            },
            r is Ok <==> secret_accepted(old(self)@.file, current_secret@)
                && kdf_accepts(new_password@.len(), 16, old(self)@.file.kdf_params),
    {
        if !self.verify_secret(current_secret) {
            return Err(VaultRepoError::WrongCredentials);
        }
        let new_salt = random_salt();
        let new_wrap = match wrap_vek_with_secret(new_password, new_salt.as_slice(), self.file.kdf_params, &self.vek) {
            Ok(w) => w,
            Err(e) => {
                return Err(VaultRepoError::Envelope(e));
            },
        };
        self.file.master_salt = new_salt;
        self.file.pw_wrap = new_wrap;
        Ok(self.file.encode())
    }

    /// Encrypt `payload` (the serialized model) under the VEK with a fresh
    /// nonce, keeping every other header field, and return the new file
    /// bytes. Fails, changing nothing, only when the payload is too long for
    /// the cipher.
    pub fn save(&mut self, payload: &[u8]) -> (r: Result<Vec<u8>, VaultRepoError>)
        ensures
            r is Ok <==> aead_msg_ok(payload@.len()),
            match r {
                Ok(bytes) => {
                    &&& final(self)@ == (OpenVaultView {
                        file: VaultFileView {
                            payload_nonce: final(self)@.file.payload_nonce,
                            payload: final(self)@.file.payload,
                            ..old(self)@.file
                        },
                        ..old(self)@
                    })
                    &&& final(self)@.file.payload_nonce.len() == 24
                    &&& old(self)@.file.wf() ==> final(self)@.file.wf() == (payload@.len() + 16 <= u32::MAX)
                    &&& payload_holds(final(self)@.file, old(self)@.vek, payload@)
                    &&& bytes@ == spec_encode(final(self)@.file)
                },
                Err(e) => e == VaultRepoError::Crypto(CryptoError::Encryption) && final(self)@ == old(self)@,
            },
    {
        let empty: [u8; 0] = [];
        assert(empty@ == no_aad());
        let sealed = match aead_encrypt(&self.vek, payload, empty.as_slice()) {
            Ok(ct) => ct,
            Err(e) => {
                return Err(VaultRepoError::Crypto(e));
            },
        };
        self.file.payload_nonce = sealed.nonce;
        self.file.payload = sealed.ciphertext;
        Ok(self.file.encode())
    }
}

/// Whether `v` is a freshly created vault for `master_password`: the empty
/// model with default settings, the current format with `params`, the VEK
/// wrapped under the password, and `payload` sealed under the VEK.
pub open spec fn freshly_created(v: OpenVaultView, path: Seq<char>, master_password: Seq<u8>, params: KdfParams, payload: Seq<u8>) -> bool {
    &&& v.model.entries.len() == 0
    &&& v.model.custom_services.len() == 0
    &&& v.model.settings == default_settings()
    &&& v.path == path
    &&& v.file.format_ver == FORMAT_VERSION
    &&& v.file.cipher_id == 1
    &&& v.file.kdf_id == 1
    &&& v.file.kdf_params == params
    &&& v.file.master_salt.len() == 16
    &&& v.file.pw_wrap.nonce.len() == 24
    &&& v.file.payload_nonce.len() == 24
    &&& password_opens(v.file, master_password, v.vek)
    &&& payload_holds(v.file, v.vek, payload)
}

/// Create a vault protected by `master_password` and, when
/// `generate_recovery`, by a freshly generated recovery key too, which is
/// returned (this is the only time it is ever available). The vault starts
/// unlocked with an empty model; `empty_payload` is that model serialized.
/// Both wraps hold the same random VEK. Fails when Argon2id rejects the
/// password or the parameters, or the payload is too long for the cipher.
pub fn create_vault(
    path: &str,
    master_password: &[u8],
    generate_recovery: bool,
    params: KdfParams,
    empty_payload: &[u8],
) -> (r: Result<(OpenVault, Option<String>), VaultRepoError>)
    ensures
        r is Ok <==> kdf_accepts(master_password@.len(), 16, params) && aead_msg_ok(empty_payload@.len()),
        match r {
            Ok((v, key)) => {
                &&& freshly_created(v@, path@, master_password@, params, empty_payload@)
                &&& generate_recovery <==> key is Some
                &&& generate_recovery <==> v@.file.recovery is Some
                &&& key matches Some(k) ==> {
                    &&& recovery_opens(v@.file, vstd::utf8::encode_utf8(k@), v@.vek)
                    &&& exists|raw: Seq<u8>| raw.len() == 20 && k@ == #[trigger] recovery_key_text(raw)
                }
                &&& v@.file.recovery matches Some((salt, w)) ==> salt.len() == 16 && w.nonce.len() == 24
                &&& v@.file.wf() == (empty_payload@.len() + 16 <= u32::MAX)
            },
            Err(VaultRepoError::Envelope(e)) => exists|salt: Seq<u8>| salt.len() == 16
                && #[trigger] kdf_error(master_password@, salt, params, e),
            Err(VaultRepoError::Crypto(e)) => e == CryptoError::Encryption && !aead_msg_ok(empty_payload@.len()),
            Err(_) => false,
        },
{
    let vek = random_vek();
    let master_salt = random_salt();
    let pw_wrap = match wrap_vek_with_secret(master_password, master_salt.as_slice(), params, &vek) {
        Ok(w) => w,
        Err(e) => {
            return Err(VaultRepoError::Envelope(e));
        },
    };
    let mut key: Option<String> = None;
    let mut recovery: Option<([u8; 16], AeadCiphertext)> = None;
    if generate_recovery {
        let k = generate_recovery_key();
        let rec_salt = random_salt();
        let k_str = k.as_str();
        let k_bytes = k_str.as_bytes();
        proof {
            vstd::string::is_ascii_spec_bytes(k_str);
        }
        assert(k_bytes@.len() == 39);
        let rec_wrap = match wrap_vek_with_secret(k_bytes, rec_salt.as_slice(), params, &vek) {
            Ok(w) => w,
            Err(e) => {
                return Err(VaultRepoError::Envelope(e));
            },
        };
        recovery = Some((rec_salt, rec_wrap));
        key = Some(k);
    }
    let empty: [u8; 0] = [];
    assert(empty@ == no_aad());
    let sealed = match aead_encrypt(&vek, empty_payload, empty.as_slice()) {
        Ok(ct) => ct,
        Err(e) => {
            return Err(VaultRepoError::Crypto(e));
        },
    };
    let file = VaultFile::new(params, master_salt, pw_wrap, recovery, sealed.nonce, sealed.ciphertext);
    let model = VaultModel::new();
    let v = OpenVault { vek, file, model, path: path.to_string() };
    Ok((v, key))
}

/// Changing the master password leaves the other credential and the data
/// alone: a file that differs from `before` only in its master salt and
/// password wrap still opens with the recovery key to the same VEK, and
/// holds the same payload.
pub proof fn lemma_password_change_isolation(before: VaultFileView, after: VaultFileView, recovery_key: Seq<u8>, vek: Seq<u8>, pt: Seq<u8>)
    requires
        after == (VaultFileView { master_salt: after.master_salt, pw_wrap: after.pw_wrap, ..before }),
    ensures
        recovery_opens(before, recovery_key, vek) ==> recovery_opens(after, recovery_key, vek),
        payload_holds(before, vek, pt) ==> payload_holds(after, vek, pt),
        after.recovery == before.recovery,
        after.payload == before.payload && after.payload_nonce == before.payload_nonce,
{
}

/// Saving keeps both credentials: a file that differs from `before` only in
/// its payload and payload nonce opens with the same password and the same
/// recovery key to the same VEK.
pub proof fn lemma_save_keeps_credentials(before: VaultFileView, after: VaultFileView, secret: Seq<u8>, vek: Seq<u8>)
    requires
        after == (VaultFileView { payload_nonce: after.payload_nonce, payload: after.payload, ..before }),
    ensures
        password_opens(before, secret, vek) ==> password_opens(after, secret, vek),
        recovery_opens(before, secret, vek) ==> recovery_opens(after, secret, vek),
{
}

} // verus!
