//! The versioned binary vault-file format (`.khv`).
//!
//! A plaintext, secret-free header followed by the encrypted payload; all
//! integers are little-endian and variable-length fields carry a `u32` length
//! prefix:
//!
//! ```text
//! MAGIC "KHVAULT\0" (8) | FORMAT_VER u16 | CIPHER_ID u8 | KDF_ID u8
//! m_cost u32 | t_cost u32 | p_cost u32 | MASTER_SALT (16)
//! PW_NONCE (24) | PW_CT_LEN u32 | PW_CT
//! HAS_RECOVERY u8 (0 or 1) [ REC_SALT (16) | REC_NONCE (24) | REC_CT_LEN u32 | REC_CT ]
//! PAYLOAD_NONCE (24) | PAYLOAD_LEN u32 | PAYLOAD
//! ```
//!
//! [`decode`] is total. It reports a newer format version as
//! [`VaultFormatError::IncompatibleVersion`] and every other input that is not
//! the encoding of a well-formed vault file as
//! [`VaultFormatError::VaultCorrupted`].

use vstd::bytes::{
    lemma_auto_spec_u16_to_from_le_bytes, lemma_auto_spec_u32_to_from_le_bytes, spec_u16_from_le_bytes,
    spec_u16_to_le_bytes, spec_u32_from_le_bytes, spec_u32_to_le_bytes, u16_from_le_bytes, u16_to_le_bytes,
    u32_from_le_bytes, u32_to_le_bytes,
};
use vstd::prelude::*;
use vstd::slice::{slice_subrange, slice_to_vec};

use vstd::std_specs::cmp::PartialEqSpecImpl;
use vstd::std_specs::convert::FromSpecImpl;

use crate::text::{decimal, push_decimal};
use crate::vault::io_error_text;
use crate::crypto::{AeadCiphertext, AeadCiphertextView, KdfParams, CIPHER_ID_XCHACHA20POLY1305, KDF_ID_ARGON2ID};

verus! {

/// File magic identifying a Keyhaven vault: `"KHVAULT\0"`.
pub const MAGIC: [u8; 8] = [0x4B, 0x48, 0x56, 0x41, 0x55, 0x4C, 0x54, 0x00];

/// The highest file-format version this build reads and writes.
pub const FORMAT_VERSION: u16 = 1;

/// The bytes of [`MAGIC`].
pub open spec fn magic_bytes() -> Seq<u8> {
    seq![0x4Bu8, 0x48u8, 0x56u8, 0x41u8, 0x55u8, 0x4Cu8, 0x54u8, 0x00u8]
}

/// Errors of the vault-file format layer.
#[derive(Debug)]
pub enum VaultFormatError {
    /// Not a structurally valid Keyhaven vault (bad magic, truncated or
    /// oversized field, trailing bytes, unknown cipher/KDF identifier).
    VaultCorrupted,
    /// The file's format version is newer than this build supports.
    IncompatibleVersion { found: u16, supported: u16 },
    /// An I/O error while reading or writing the file stream.
    Io(std::io::Error),
}

/// The abstract content of a [`VaultFile`].
pub struct VaultFileView {
    pub format_ver: u16,
    pub cipher_id: u8,
    pub kdf_id: u8,
    pub kdf_params: KdfParams,
    pub master_salt: Seq<u8>,
    pub pw_wrap: AeadCiphertextView,
    pub recovery: Option<(Seq<u8>, AeadCiphertextView)>,
    pub payload_nonce: Seq<u8>,
    pub payload: Seq<u8>,
}

/// A complete parsed vault file: the plaintext header plus the encrypted
/// payload bytes. The wraps and payload are already-encrypted blobs.
#[derive(Debug, Clone, PartialEq, Eq)]
pub struct VaultFile {
    /// File-format version.
    pub format_ver: u16,
    /// Cipher identifier.
    pub cipher_id: u8,
    /// KDF identifier.
    pub kdf_id: u8,
    /// Argon2id parameters used to derive the wrapping keys.
    pub kdf_params: KdfParams,
    /// Salt for the master-password KDF.
    pub master_salt: [u8; 16],
    /// The VEK wrapped by the master-password-derived key.
    pub pw_wrap: AeadCiphertext,
    /// Optional recovery section `(REC_SALT, REC_WRAP)`.
    pub recovery: Option<([u8; 16], AeadCiphertext)>,
    /// Nonce used to encrypt the payload.
    pub payload_nonce: [u8; 24],
    /// AEAD ciphertext of the serialized vault model.
    pub payload: Vec<u8>,
}

/// The abstract content of a recovery section.
pub open spec fn recovery_view(r: Option<([u8; 16], AeadCiphertext)>) -> Option<(Seq<u8>, AeadCiphertextView)> {
    match r {
        None => None,
        Some((salt, wrap)) => Some((salt@, wrap@)),
    }
}

impl View for VaultFile {
    type V = VaultFileView;

    open spec fn view(&self) -> VaultFileView {
        VaultFileView {
            format_ver: self.format_ver,
            cipher_id: self.cipher_id,
            kdf_id: self.kdf_id,
            kdf_params: self.kdf_params,
            master_salt: self.master_salt@,
            pw_wrap: self.pw_wrap@,
            recovery: recovery_view(self.recovery),
            payload_nonce: self.payload_nonce@,
            payload: self.payload@,
        }
    }
}

/// A wrap with a 24-byte nonce and a ciphertext whose length fits the `u32`
/// length prefix.
pub open spec fn wrap_wf(w: AeadCiphertextView) -> bool {
    w.nonce.len() == 24 && w.ciphertext.len() <= u32::MAX
}

impl VaultFileView {
    /// A vault file that [`decode`] can return: a supported version, the known
    /// cipher and KDF identifiers, correctly sized salts and nonces, and
    /// variable-length fields that fit their `u32` length prefixes.
    pub open spec fn wf(self) -> bool {
        &&& self.format_ver <= 1
        &&& self.cipher_id == 1
        &&& self.kdf_id == 1
        &&& self.master_salt.len() == 16
        &&& wrap_wf(self.pw_wrap)
        &&& match self.recovery {
            None => true,
            Some((salt, w)) => salt.len() == 16 && wrap_wf(w),
        }
        &&& self.payload_nonce.len() == 24
        &&& self.payload.len() <= u32::MAX
    }
}

/// The bytes of a length-prefixed wrap: nonce, `u32` length, ciphertext.
pub open spec fn wrap_bytes(w: AeadCiphertextView) -> Seq<u8> {
    w.nonce + (spec_u32_to_le_bytes(w.ciphertext.len() as u32) + w.ciphertext)
}

/// The bytes of the recovery section, starting with the `HAS_RECOVERY` flag.
pub open spec fn recovery_bytes(r: Option<(Seq<u8>, AeadCiphertextView)>) -> Seq<u8> {
    match r {
        None => seq![0u8],
        Some((salt, w)) => seq![1u8] + (salt + wrap_bytes(w)),
    }
}

/// The fixed-size header: magic, version, identifiers, KDF costs, master salt.
pub open spec fn header_bytes(v: VaultFileView) -> Seq<u8> {
    magic_bytes() + spec_u16_to_le_bytes(v.format_ver) + seq![v.cipher_id, v.kdf_id]
        + spec_u32_to_le_bytes(v.kdf_params.m_cost) + spec_u32_to_le_bytes(v.kdf_params.t_cost)
        + spec_u32_to_le_bytes(v.kdf_params.p_cost) + v.master_salt
}

/// The payload section: nonce, `u32` length, ciphertext.
pub open spec fn tail_bytes(nonce: Seq<u8>, payload: Seq<u8>) -> Seq<u8> {
    nonce + (spec_u32_to_le_bytes(payload.len() as u32) + payload)
}

/// The bytes that hold a vault file with the version stored as given: what
/// [`decode`] reads.
pub open spec fn spec_layout(v: VaultFileView) -> Seq<u8> {
    header_bytes(v) + (wrap_bytes(v.pw_wrap) + (recovery_bytes(v.recovery) + tail_bytes(v.payload_nonce, v.payload)))
}

/// `v` at the current [`FORMAT_VERSION`], every other field kept.
pub open spec fn at_current_version(v: VaultFileView) -> VaultFileView {
    VaultFileView { format_ver: 1, ..v }
}

/// The bytes that [`VaultFile::encode`] writes: the layout of the file, with
/// the version always written as [`FORMAT_VERSION`].
pub open spec fn spec_encode(v: VaultFileView) -> Seq<u8> {
    spec_layout(at_current_version(v))
}

/// Whether `s` starts with [`MAGIC`].
pub open spec fn magic_ok(s: Seq<u8>) -> bool {
    s.len() >= 8 && s.subrange(0, 8) == magic_bytes()
}

/// The little-endian `u16` format version stored after the magic.
pub open spec fn version_of(s: Seq<u8>) -> u16 {
    spec_u16_from_le_bytes(s.subrange(8, 10))
}

/// Whether `s` is a Keyhaven vault whose format version is newer than
/// [`FORMAT_VERSION`].
pub open spec fn is_newer_version(s: Seq<u8>) -> bool {
    magic_ok(s) && s.len() >= 10 && version_of(s) > 1
}

/// The little-endian `u32` at position `i`.
pub open spec fn u32_at(s: Seq<u8>, i: int) -> u32 {
    spec_u32_from_le_bytes(s.subrange(i, i + 4))
}

/// The wrap at position `pos` and the position after it, if it fits.
pub open spec fn wrap_at(s: Seq<u8>, pos: int) -> Option<(AeadCiphertextView, int)> {
    if pos + 28 > s.len() {
        None
    } else {
        let n = u32_at(s, pos + 24) as int;
        if pos + 28 + n > s.len() {
            None
        } else {
            Some((AeadCiphertextView { nonce: s.subrange(pos, pos + 24), ciphertext: s.subrange(pos + 28, pos + 28 + n) }, pos + 28 + n))
        }
    }
}

/// The recovery section at position `pos` and the position after it, if the
/// flag is 0 or 1 and the section fits.
pub open spec fn recovery_at(s: Seq<u8>, pos: int) -> Option<(Option<(Seq<u8>, AeadCiphertextView)>, int)> {
    if pos + 1 > s.len() {
        None
    } else if s[pos] == 0 {
        Some((None, pos + 1))
    } else if s[pos] == 1 {
        if pos + 17 > s.len() {
            None
        } else {
            match wrap_at(s, pos + 17) {
                None => None,
                Some((w, p)) => Some((Some((s.subrange(pos + 1, pos + 17), w)), p)),
            }
        }
    } else {
        None
    }
}

/// The vault file read from `s` after its magic and version, if the rest of
/// `s` is exactly one well-formed body.
pub open spec fn body_of(s: Seq<u8>) -> Option<VaultFileView> {
    if s.len() < 40 || s[10] != 1 || s[11] != 1 {
        None
    } else {
        match wrap_at(s, 40) {
            None => None,
            Some((pw, p1)) => match recovery_at(s, p1) {
                None => None,
                Some((rec, p2)) => if p2 + 28 > s.len() {
                    None
                } else {
                    let n = u32_at(s, p2 + 24) as int;
                    if p2 + 28 + n != s.len() {
                        None
                    } else {
                        Some(VaultFileView {
                            format_ver: version_of(s),
                            cipher_id: s[10],
                            kdf_id: s[11],
                            kdf_params: KdfParams { m_cost: u32_at(s, 12), t_cost: u32_at(s, 16), p_cost: u32_at(s, 20) },
                            master_salt: s.subrange(24, 40),
                            pw_wrap: pw,
                            recovery: rec,
                            payload_nonce: s.subrange(p2, p2 + 24),
                            payload: s.subrange(p2 + 28, s.len() as int),
                        })
                    }
                },
            },
        }
    }
}

/// Splitting a suffix of `s` that is known to be `a + b`.
proof fn lemma_advance(s: Seq<u8>, pos: int, a: Seq<u8>, b: Seq<u8>)
    requires
        0 <= pos <= s.len(),
        s.subrange(pos, s.len() as int) == a + b,
    ensures
        pos + a.len() <= s.len(),
        s.subrange(pos, pos + a.len()) == a,
        s.subrange(pos + a.len(), s.len() as int) == b,
{
    assert((a + b).len() == a.len() + b.len());
    assert(s.subrange(pos, pos + a.len()) =~= a) by {
        assert forall|i: int| 0 <= i < a.len() implies s.subrange(pos, pos + a.len())[i] == a[i] by {
            assert(s.subrange(pos, s.len() as int)[i] == (a + b)[i]);
        }
    }
    assert(s.subrange(pos + a.len(), s.len() as int) =~= b) by {
        assert forall|i: int| 0 <= i < b.len() implies s.subrange(pos + a.len(), s.len() as int)[i] == b[i] by {
            let k: int = a.len() + i;
            assert(s.subrange(pos, s.len() as int)[k] == (a + b)[k]);
            assert(s.subrange(pos, s.len() as int)[k] == s[pos + k]);
            assert((a + b)[k] == b[i]);
        }
    }
}

/// Joining two adjacent pieces of `s` back into the suffix they form.
proof fn lemma_join(s: Seq<u8>, pos: int, mid: int)
    requires
        0 <= pos <= mid <= s.len(),
    ensures
        s.subrange(pos, s.len() as int) == s.subrange(pos, mid) + s.subrange(mid, s.len() as int),
{
    assert(s.subrange(pos, s.len() as int) =~= s.subrange(pos, mid) + s.subrange(mid, s.len() as int));
}

/// A well-formed wrap followed by `rest` parses back at `pos`.
proof fn lemma_wrap_at_encoded(s: Seq<u8>, pos: int, w: AeadCiphertextView, rest: Seq<u8>)
    requires
        0 <= pos <= s.len(),
        wrap_wf(w),
        s.subrange(pos, s.len() as int) == wrap_bytes(w) + rest,
    ensures
        wrap_at(s, pos) == Some((w, pos + 28 + w.ciphertext.len())),
        s.subrange(pos + 28 + w.ciphertext.len(), s.len() as int) == rest,
{
    lemma_auto_spec_u32_to_from_le_bytes();
    let le = spec_u32_to_le_bytes(w.ciphertext.len() as u32);
    assert(le.len() == 4);
    assert(wrap_bytes(w) + rest =~= w.nonce + (le + (w.ciphertext + rest)));
    lemma_advance(s, pos, w.nonce, le + (w.ciphertext + rest));
    lemma_advance(s, pos + 24, le, w.ciphertext + rest);
    lemma_advance(s, pos + 28, w.ciphertext, rest);
    assert(u32_at(s, pos + 24) == w.ciphertext.len() as u32);
}

/// A wrap that parses at `pos` is well formed and re-encodes to its bytes.
proof fn lemma_wrap_at_parsed(s: Seq<u8>, pos: int)
    requires
        0 <= pos <= s.len(),
        wrap_at(s, pos) is Some,
    ensures
        wrap_wf(wrap_at(s, pos).unwrap().0),
        s.subrange(pos, s.len() as int) == wrap_bytes(wrap_at(s, pos).unwrap().0) + s.subrange(wrap_at(s, pos).unwrap().1, s.len() as int),
{
    lemma_auto_spec_u32_to_from_le_bytes();
    let (w, p) = wrap_at(s, pos).unwrap();
    let n = u32_at(s, pos + 24);
    assert(w.ciphertext.len() == n as int);
    assert(spec_u32_to_le_bytes(w.ciphertext.len() as u32) == s.subrange(pos + 24, pos + 28));
    lemma_join(s, pos, pos + 24);
    lemma_join(s, pos + 24, pos + 28);
    lemma_join(s, pos + 28, p);
    assert(s.subrange(pos, s.len() as int) =~= wrap_bytes(w) + s.subrange(p, s.len() as int));
}

/// A well-formed recovery section followed by `rest` parses back at `pos`.
proof fn lemma_recovery_at_encoded(s: Seq<u8>, pos: int, r: Option<(Seq<u8>, AeadCiphertextView)>, rest: Seq<u8>)
    requires
        0 <= pos <= s.len(),
        match r {
            None => true,
            Some((salt, w)) => salt.len() == 16 && wrap_wf(w),
        },
        s.subrange(pos, s.len() as int) == recovery_bytes(r) + rest,
    ensures
        recovery_at(s, pos) == Some((r, pos + recovery_bytes(r).len())),
        s.subrange(pos + recovery_bytes(r).len(), s.len() as int) == rest,
{
    match r {
        None => {
            lemma_advance(s, pos, seq![0u8], rest);
            assert(s[pos] == s.subrange(pos, pos + 1)[0]);
        },
        Some((salt, w)) => {
            assert(recovery_bytes(r) + rest =~= seq![1u8] + (salt + (wrap_bytes(w) + rest)));
            lemma_advance(s, pos, seq![1u8], salt + (wrap_bytes(w) + rest));
            assert(s[pos] == s.subrange(pos, pos + 1)[0]);
            lemma_advance(s, pos + 1, salt, wrap_bytes(w) + rest);
            lemma_wrap_at_encoded(s, pos + 17, w, rest);
        },
    }
}

/// A recovery section that parses at `pos` is well formed and re-encodes to
/// its bytes.
proof fn lemma_recovery_at_parsed(s: Seq<u8>, pos: int)
    requires
        0 <= pos <= s.len(),
        recovery_at(s, pos) is Some,
    ensures
        match recovery_at(s, pos).unwrap().0 {
            None => true,
            Some((salt, w)) => salt.len() == 16 && wrap_wf(w),
        },
        s.subrange(pos, s.len() as int) == recovery_bytes(recovery_at(s, pos).unwrap().0) + s.subrange(recovery_at(s, pos).unwrap().1, s.len() as int),
{
    let (r, p) = recovery_at(s, pos).unwrap();
    lemma_join(s, pos, pos + 1);
    if s[pos] == 0 {
        assert(s.subrange(pos, pos + 1) =~= seq![0u8]);
    } else {
        assert(s.subrange(pos, pos + 1) =~= seq![1u8]);
        lemma_wrap_at_parsed(s, pos + 17);
        lemma_join(s, pos + 1, pos + 17);
        assert(s.subrange(pos, s.len() as int) =~= recovery_bytes(r) + s.subrange(p, s.len() as int));
    }
}

/// The fixed header is 40 bytes and determines the magic, version,
/// identifiers, costs and master salt read back from it.
proof fn lemma_header(v: VaultFileView, s: Seq<u8>, rest: Seq<u8>)
    requires
        v.master_salt.len() == 16,
        s == header_bytes(v) + rest,
    ensures
        header_bytes(v).len() == 40,
        magic_ok(s),
        s.len() >= 40,
        version_of(s) == v.format_ver,
        s[10] == v.cipher_id,
        s[11] == v.kdf_id,
        u32_at(s, 12) == v.kdf_params.m_cost,
        u32_at(s, 16) == v.kdf_params.t_cost,
        u32_at(s, 20) == v.kdf_params.p_cost,
        s.subrange(24, 40) == v.master_salt,
        s.subrange(40, s.len() as int) == rest,
{
    lemma_auto_spec_u16_to_from_le_bytes();
    lemma_auto_spec_u32_to_from_le_bytes();
    let h = header_bytes(v);
    assert(h.len() == 40);
    assert(s.subrange(0, 8) =~= magic_bytes());
    assert(s.subrange(8, 10) =~= spec_u16_to_le_bytes(v.format_ver));
    assert(s.subrange(12, 16) =~= spec_u32_to_le_bytes(v.kdf_params.m_cost));
    assert(s.subrange(16, 20) =~= spec_u32_to_le_bytes(v.kdf_params.t_cost));
    assert(s.subrange(20, 24) =~= spec_u32_to_le_bytes(v.kdf_params.p_cost));
    assert(s.subrange(24, 40) =~= v.master_salt);
    assert(s.subrange(40, s.len() as int) =~= rest);
}

/// Parsing the layout of a well-formed vault file gives back that file.
pub proof fn lemma_parse_encoded(v: VaultFileView)
    requires
        v.wf(),
    ensures
        magic_ok(spec_layout(v)),
        spec_layout(v).len() >= 10,
        version_of(spec_layout(v)) == v.format_ver,
        body_of(spec_layout(v)) == Some(v),
{
    lemma_auto_spec_u32_to_from_le_bytes();
    let s = spec_layout(v);
    let r1 = wrap_bytes(v.pw_wrap) + (recovery_bytes(v.recovery) + tail_bytes(v.payload_nonce, v.payload));
    lemma_header(v, s, r1);
    let p1: int = 68 + v.pw_wrap.ciphertext.len() as int;
    lemma_wrap_at_encoded(s, 40, v.pw_wrap, recovery_bytes(v.recovery) + tail_bytes(v.payload_nonce, v.payload));
    lemma_recovery_at_encoded(s, p1, v.recovery, tail_bytes(v.payload_nonce, v.payload));
    let p2: int = p1 + recovery_bytes(v.recovery).len() as int;
    let le = spec_u32_to_le_bytes(v.payload.len() as u32);
    lemma_advance(s, p2, v.payload_nonce, le + v.payload);
    lemma_advance(s, p2 + 24, le, v.payload);
    assert(u32_at(s, p2 + 24) == v.payload.len() as u32);
    assert(body_of(s) == Some(v));
}

/// A file body that parses is well formed and is exactly the layout of the
/// parsed file.
pub proof fn lemma_encode_parsed(s: Seq<u8>)
    requires
        magic_ok(s),
        s.len() >= 10,
        version_of(s) <= 1,
        body_of(s) is Some,
    ensures
        body_of(s).unwrap().wf(),
        spec_layout(body_of(s).unwrap()) == s,
{
    lemma_auto_spec_u16_to_from_le_bytes();
    lemma_auto_spec_u32_to_from_le_bytes();
    let v = body_of(s).unwrap();
    let (pw, p1) = wrap_at(s, 40).unwrap();
    let (rec, p2) = recovery_at(s, p1).unwrap();
    lemma_wrap_at_parsed(s, 40);
    lemma_recovery_at_parsed(s, p1);
    let n = u32_at(s, p2 + 24);
    assert(v.payload.len() == n as int);
    assert(spec_u32_to_le_bytes(v.payload.len() as u32) == s.subrange(p2 + 24, p2 + 28));
    lemma_join(s, p2, p2 + 24);
    lemma_join(s, p2 + 24, p2 + 28);
    assert(s.subrange(p2, s.len() as int) =~= tail_bytes(v.payload_nonce, v.payload));
    assert(spec_u16_to_le_bytes(v.format_ver) == s.subrange(8, 10));
    assert(spec_u32_to_le_bytes(v.kdf_params.m_cost) == s.subrange(12, 16));
    assert(spec_u32_to_le_bytes(v.kdf_params.t_cost) == s.subrange(16, 20));
    assert(spec_u32_to_le_bytes(v.kdf_params.p_cost) == s.subrange(20, 24));
    assert(s.subrange(0, 40) =~= header_bytes(v));
    lemma_join(s, 0, 40);
    assert(s.subrange(0, s.len() as int) =~= s);
    assert(spec_layout(v) =~= s);
}

/// Two well-formed vault files with the same layout are the same file.
pub proof fn lemma_encode_injective(a: VaultFileView, b: VaultFileView)
    requires
        a.wf(),
        b.wf(),
        spec_layout(a) == spec_layout(b),
    ensures
        a == b,
{
    lemma_parse_encoded(a);
    lemma_parse_encoded(b);
}

impl VaultFormatError {
    /// The human-readable description of this error.
    pub fn to_string(&self) -> (s: String)
        ensures
            match self {
                VaultFormatError::VaultCorrupted => s@ == "this vault file is damaged or not a Keyhaven vault"@,
                VaultFormatError::IncompatibleVersion { found, supported } => s@ == "vault file format version "@
                    + decimal(*found as nat) + " is newer than supported version "@ + decimal(*supported as nat)
                    + "; update Keyhaven to open it"@,
                VaultFormatError::Io(_) => "vault file I/O error: "@.is_prefix_of(s@),
            },
    {
        match self {
            VaultFormatError::VaultCorrupted => "this vault file is damaged or not a Keyhaven vault".to_string(),
            VaultFormatError::IncompatibleVersion { found, supported } => {
                let mut s = "vault file format version ".to_string();
                push_decimal(&mut s, *found as u64);
                s.append(" is newer than supported version ");
                push_decimal(&mut s, *supported as u64);
                s.append("; update Keyhaven to open it");
                s
            },
            VaultFormatError::Io(e) => {
                let mut s = "vault file I/O error: ".to_string();
                let detail = io_error_text(e);
                s.append(detail.as_str());
                assert("vault file I/O error: "@.is_prefix_of(s@)) by {
                    assert(s@.subrange(0, "vault file I/O error: "@.len() as int) =~= "vault file I/O error: "@);
                }
                s
            },
        }
    }
}

impl PartialEq for VaultFormatError {
    fn eq(&self, other: &Self) -> (r: bool) {
        match (self, other) {
            (VaultFormatError::VaultCorrupted, VaultFormatError::VaultCorrupted) => true,
            (
                VaultFormatError::IncompatibleVersion { found: a, supported: b },
                VaultFormatError::IncompatibleVersion { found: c, supported: d },
            ) => *a == *c && *b == *d,
            _ => false,
        }
    }
}

impl PartialEqSpecImpl for VaultFormatError {
    open spec fn obeys_eq_spec() -> bool {
        true
    }

    /// Two corruption errors are equal; two version errors are equal when both
    /// versions match; I/O errors are never equal.
    open spec fn eq_spec(&self, other: &Self) -> bool {
        match (self, other) {
            (VaultFormatError::VaultCorrupted, VaultFormatError::VaultCorrupted) => true,
            (
                VaultFormatError::IncompatibleVersion { found: a, supported: b },
                VaultFormatError::IncompatibleVersion { found: c, supported: d },
            ) => a == c && b == d,
            _ => false,
        }
    }
}

impl From<std::io::Error> for VaultFormatError {
    fn from(e: std::io::Error) -> (r: Self) {
        VaultFormatError::Io(e)
    }
}

impl FromSpecImpl<std::io::Error> for VaultFormatError {
    open spec fn obeys_from_spec() -> bool {
        true
    }

    open spec fn from_spec(e: std::io::Error) -> Self {
        VaultFormatError::Io(e)
    }
}

/// Append `bytes` to `out`.
fn push_bytes(out: &mut Vec<u8>, bytes: &[u8])
    ensures
        final(out)@ == old(out)@ + bytes@,
{
    let mut i: usize = 0;
    while i < bytes.len()
        invariant
            0 <= i <= bytes@.len(),
            out@ == old(out)@ + bytes@.subrange(0, i as int),
        decreases bytes@.len() - i,
    {
        out.push(bytes[i]);
        assert(bytes@.subrange(0, (i + 1) as int) =~= bytes@.subrange(0, i as int).push(bytes@[i as int]));
        i = i + 1;
    }
    assert(bytes@.subrange(0, bytes@.len() as int) =~= bytes@);
}

/// Append a length-prefixed wrap (nonce, `u32` length, ciphertext).
fn write_wrap(out: &mut Vec<u8>, wrap: &AeadCiphertext)
    ensures
        final(out)@ == old(out)@ + wrap_bytes(wrap@),
{
    push_bytes(out, wrap.nonce.as_slice());
    let len_bytes = u32_to_le_bytes(wrap.ciphertext.len() as u32);
    push_bytes(out, len_bytes.as_slice());
    push_bytes(out, wrap.ciphertext.as_slice());
    assert(out@ =~= old(out)@ + wrap_bytes(wrap@));
}

impl VaultFile {
    /// A vault file at the current [`FORMAT_VERSION`] with the standard cipher
    /// and KDF identifiers.
    pub fn new(
        kdf_params: KdfParams,
        master_salt: [u8; 16],
        pw_wrap: AeadCiphertext,
        recovery: Option<([u8; 16], AeadCiphertext)>,
        payload_nonce: [u8; 24],
        payload: Vec<u8>,
    ) -> (f: Self)
        ensures
            f.format_ver == FORMAT_VERSION,
            f.cipher_id == CIPHER_ID_XCHACHA20POLY1305,
            f.kdf_id == KDF_ID_ARGON2ID,
            f.kdf_params == kdf_params,
            f.master_salt == master_salt,
            f.pw_wrap == pw_wrap,
            f.recovery == recovery,
            f.payload_nonce == payload_nonce,
            f.payload == payload,
    {
        VaultFile {
            format_ver: FORMAT_VERSION,
            cipher_id: CIPHER_ID_XCHACHA20POLY1305,
            kdf_id: KDF_ID_ARGON2ID,
            kdf_params,
            master_salt,
            pw_wrap,
            recovery,
            payload_nonce,
            payload,
        }
    }

    /// The encoded length, saturated at `usize::MAX` (a capacity hint).
    fn encoded_len_hint(&self) -> (n: usize)
        ensures
            n as int == if spec_layout(self@).len() <= usize::MAX { spec_layout(self@).len() as int } else { usize::MAX as int },
    {
        proof {
            lemma_auto_spec_u16_to_from_le_bytes();
            lemma_auto_spec_u32_to_from_le_bytes();
        }
        let rec_len: usize = match &self.recovery {
            Some((_, w)) => 45usize.saturating_add(w.ciphertext.len()),
            None => 1,
        };
        let n = 96usize.saturating_add(self.pw_wrap.ciphertext.len()).saturating_add(rec_len).saturating_add(self.payload.len());
        n
    }

    /// Serialize this vault file to its on-disk bytes. The version is always
    /// written as [`FORMAT_VERSION`], whatever `format_ver` holds.
    pub fn encode(&self) -> (out: Vec<u8>)
        ensures
            out@ == spec_encode(self@),
    {
        let mut out: Vec<u8> = Vec::with_capacity(self.encoded_len_hint());
        let magic: [u8; 8] = [0x4B, 0x48, 0x56, 0x41, 0x55, 0x4C, 0x54, 0x00];
        push_bytes(&mut out, magic.as_slice());
        assert(magic@ =~= magic_bytes());
        let ver = u16_to_le_bytes(FORMAT_VERSION);
        push_bytes(&mut out, ver.as_slice());
        out.push(self.cipher_id);
        out.push(self.kdf_id);
        let m = u32_to_le_bytes(self.kdf_params.m_cost);
        push_bytes(&mut out, m.as_slice());
        let t = u32_to_le_bytes(self.kdf_params.t_cost);
        push_bytes(&mut out, t.as_slice());
        let p = u32_to_le_bytes(self.kdf_params.p_cost);
        push_bytes(&mut out, p.as_slice());
        push_bytes(&mut out, self.master_salt.as_slice());
        assert(out@ =~= header_bytes(at_current_version(self@)));
        let ghost h = out@;

        write_wrap(&mut out, &self.pw_wrap);
        let ghost hw = out@;
        match &self.recovery {
            Some((rec_salt, rec_wrap)) => {
                out.push(1);
                push_bytes(&mut out, rec_salt.as_slice());
                write_wrap(&mut out, rec_wrap);
                assert(out@ =~= hw + recovery_bytes(recovery_view(self.recovery)));
            },
            None => {
                out.push(0);
                assert(out@ =~= hw + recovery_bytes(recovery_view(self.recovery)));
            },
        }
        let ghost hwr = out@;
        push_bytes(&mut out, self.payload_nonce.as_slice());
        let plen = u32_to_le_bytes(self.payload.len() as u32);
        push_bytes(&mut out, plen.as_slice());
        push_bytes(&mut out, self.payload.as_slice());
        assert(out@ =~= hwr + tail_bytes(self.payload_nonce@, self.payload@));
        assert(out@ =~= spec_encode(self@));
        out
    }
}

/// A bounds-checked cursor over the input bytes.
struct Reader<'a> {
    buf: &'a [u8],
    pos: usize,
}

impl<'a> Reader<'a> {
    fn new(buf: &'a [u8]) -> (r: Self)
        ensures
            r.buf@ == buf@,
            r.pos == 0,
    {
        Reader { buf, pos: 0 }
    }

    fn is_empty(&self) -> (b: bool)
        ensures
            b == (self.pos >= self.buf@.len()),
    {
        self.pos >= self.buf.len()
    }

    /// Borrow exactly `n` bytes, advancing the cursor; too few bytes is
    /// corruption.
    fn take(&mut self, n: usize) -> (r: Result<&'a [u8], VaultFormatError>)
        requires
            old(self).pos <= old(self).buf@.len(),
        ensures
            final(self).buf@ == old(self).buf@,
            final(self).pos <= final(self).buf@.len(),
            match r {
                Ok(sl) => old(self).pos + n <= old(self).buf@.len()
                    && sl@ == old(self).buf@.subrange(old(self).pos as int, old(self).pos + n)
                    && final(self).pos == old(self).pos + n,
                Err(e) => old(self).pos + n > old(self).buf@.len() && e is VaultCorrupted,
            },
    {
        let blen = self.buf.len();
        let end = match self.pos.checked_add(n) {
            Some(end) => end,
            None => {
                assert(blen == self.buf@.len());
                return Err(VaultFormatError::VaultCorrupted);
            },
        };
        if end > self.buf.len() {
            return Err(VaultFormatError::VaultCorrupted);
        }
        let slice = slice_subrange(self.buf, self.pos, end);
        self.pos = end;
        Ok(slice)
    }

    fn u8(&mut self) -> (r: Result<u8, VaultFormatError>)
        requires
            old(self).pos <= old(self).buf@.len(),
        ensures
            final(self).buf@ == old(self).buf@,
            final(self).pos <= final(self).buf@.len(),
            match r {
                Ok(b) => old(self).pos + 1 <= old(self).buf@.len() && b == old(self).buf@[old(self).pos as int]
                    && final(self).pos == old(self).pos + 1,
                Err(e) => old(self).pos + 1 > old(self).buf@.len() && e is VaultCorrupted,
            },
    {
        let b = self.take(1)?;
        Ok(b[0])
    }

    fn u16(&mut self) -> (r: Result<u16, VaultFormatError>)
        requires
            old(self).pos <= old(self).buf@.len(),
        ensures
            final(self).buf@ == old(self).buf@,
            final(self).pos <= final(self).buf@.len(),
            match r {
                Ok(x) => old(self).pos + 2 <= old(self).buf@.len()
                    && x == spec_u16_from_le_bytes(old(self).buf@.subrange(old(self).pos as int, old(self).pos + 2))
                    && final(self).pos == old(self).pos + 2,
                Err(e) => old(self).pos + 2 > old(self).buf@.len() && e is VaultCorrupted,
            },
    {
        let b = self.take(2)?;
        Ok(u16_from_le_bytes(b))
    }

    fn u32(&mut self) -> (r: Result<u32, VaultFormatError>)
        requires
            old(self).pos <= old(self).buf@.len(),
        ensures
            final(self).buf@ == old(self).buf@,
            final(self).pos <= final(self).buf@.len(),
            match r {
                Ok(x) => old(self).pos + 4 <= old(self).buf@.len() && x == u32_at(old(self).buf@, old(self).pos as int)
                    && final(self).pos == old(self).pos + 4,
                Err(e) => old(self).pos + 4 > old(self).buf@.len() && e is VaultCorrupted,
            },
    {
        let b = self.take(4)?;
        Ok(u32_from_le_bytes(b))
    }

    fn salt(&mut self) -> (r: Result<[u8; 16], VaultFormatError>)
        requires
            old(self).pos <= old(self).buf@.len(),
        ensures
            final(self).buf@ == old(self).buf@,
            final(self).pos <= final(self).buf@.len(),
            match r {
                Ok(a) => old(self).pos + 16 <= old(self).buf@.len()
                    && a@ == old(self).buf@.subrange(old(self).pos as int, old(self).pos + 16)
                    && final(self).pos == old(self).pos + 16,
                Err(e) => old(self).pos + 16 > old(self).buf@.len() && e is VaultCorrupted,
            },
    {
        let b = self.take(16)?;
        let mut a = [0u8; 16];
        let mut i: usize = 0;
        while i < 16
            invariant
                b@.len() == 16,
                0 <= i <= 16,
                forall|j: int| 0 <= j < i ==> a@[j] == b@[j],
            decreases 16 - i,
        {
            a[i] = b[i];
            i = i + 1;
        }
        assert(a@ =~= b@);
        Ok(a)
    }

    fn nonce(&mut self) -> (r: Result<[u8; 24], VaultFormatError>)
        requires
            old(self).pos <= old(self).buf@.len(),
        ensures
            final(self).buf@ == old(self).buf@,
            final(self).pos <= final(self).buf@.len(),
            match r {
                Ok(a) => old(self).pos + 24 <= old(self).buf@.len()
                    && a@ == old(self).buf@.subrange(old(self).pos as int, old(self).pos + 24)
                    && final(self).pos == old(self).pos + 24,
                Err(e) => old(self).pos + 24 > old(self).buf@.len() && e is VaultCorrupted,
            },
    {
        let b = self.take(24)?;
        let mut a = [0u8; 24];
        let mut i: usize = 0;
        while i < 24
            invariant
                b@.len() == 24,
                0 <= i <= 24,
                forall|j: int| 0 <= j < i ==> a@[j] == b@[j],
            decreases 24 - i,
        {
            a[i] = b[i];
            i = i + 1;
        }
        assert(a@ =~= b@);
        Ok(a)
    }

    /// Read a length-prefixed wrap; the length is checked against the
    /// remaining bytes, so an oversized prefix is corruption.
    fn wrap(&mut self) -> (r: Result<AeadCiphertext, VaultFormatError>)
        requires
            old(self).pos <= old(self).buf@.len(),
        ensures
            final(self).buf@ == old(self).buf@,
            final(self).pos <= final(self).buf@.len(),
            match r {
                Ok(w) => wrap_at(old(self).buf@, old(self).pos as int) == Some((w@, final(self).pos as int)),
                Err(e) => wrap_at(old(self).buf@, old(self).pos as int) is None && e is VaultCorrupted,
            },
    {
        let nonce = self.nonce()?;
        let len = self.u32()?;
        let ct = self.take(len as usize)?;
        let ciphertext = slice_to_vec(ct);
        Ok(AeadCiphertext { nonce, ciphertext })
    }
}

/// Whether `s` parses as a complete, supported vault file.
pub open spec fn parses(s: Seq<u8>) -> bool {
    magic_ok(s) && s.len() >= 10 && version_of(s) <= 1 && body_of(s) is Some
}

/// Bytes that do not parse are the layout of no well-formed vault file.
proof fn lemma_no_encoding(s: Seq<u8>)
    requires
        !parses(s),
    ensures
        forall|v: VaultFileView| v.wf() ==> #[trigger] spec_layout(v) != s,
{
    assert forall|v: VaultFileView| v.wf() implies #[trigger] spec_layout(v) != s by {
        if spec_layout(v) == s {
            lemma_parse_encoded(v);
        }
    }
}

/// Read the body after the magic and a supported version.
fn decode_body(r: &mut Reader, format_ver: u16) -> (res: Result<VaultFile, VaultFormatError>)
    requires
        old(r).pos == 10,
        old(r).buf@.len() >= 10,
        format_ver == version_of(old(r).buf@),
    ensures
        match res {
            Ok(f) => body_of(old(r).buf@) == Some(f@),
            Err(e) => body_of(old(r).buf@) is None && e is VaultCorrupted,
        },
{
    let ghost s = r.buf@;
    let cipher_id = r.u8()?;
    if cipher_id != CIPHER_ID_XCHACHA20POLY1305 {
        return Err(VaultFormatError::VaultCorrupted);
    }
    let kdf_id = r.u8()?;
    if kdf_id != KDF_ID_ARGON2ID {
        return Err(VaultFormatError::VaultCorrupted);
    }
    let m_cost = r.u32()?;
    let t_cost = r.u32()?;
    let p_cost = r.u32()?;
    let kdf_params = KdfParams { m_cost, t_cost, p_cost };
    let master_salt = r.salt()?;
    let pw_wrap = r.wrap()?;
    let ghost p1 = r.pos as int;

    let has_recovery = r.u8()?;
    let recovery = if has_recovery == 0 {
        None
    } else if has_recovery == 1 {
        let rec_salt = r.salt()?;
        let rec_wrap = r.wrap()?;
        Some((rec_salt, rec_wrap))
    } else {
        return Err(VaultFormatError::VaultCorrupted);
    };
    assert(recovery_at(s, p1) == Some((recovery_view(recovery), r.pos as int)));
    let ghost p2 = r.pos as int;

    let payload_nonce = r.nonce()?;
    let payload_len = r.u32()?;
    let payload_slice = r.take(payload_len as usize)?;
    if !r.is_empty() {
        return Err(VaultFormatError::VaultCorrupted);
    }
    let payload = slice_to_vec(payload_slice);
    let f = VaultFile { format_ver, cipher_id, kdf_id, kdf_params, master_salt, pw_wrap, recovery, payload_nonce, payload };
    assert(body_of(s) == Some(f@));
    Ok(f)
}

/// Parse a vault file from its on-disk bytes. Total: it never panics.
///
/// - `Ok(f)`: `f` is well formed and `bytes` is exactly its layout (the version
///   as stored, which is at most [`FORMAT_VERSION`]).
/// - `IncompatibleVersion`: the magic matches and the stored version is newer
///   than [`FORMAT_VERSION`].
/// - `VaultCorrupted`: otherwise, and then `bytes` is the layout of no
///   well-formed vault file.
pub fn decode(bytes: &[u8]) -> (r: Result<VaultFile, VaultFormatError>)
    ensures
        match r {
            Ok(f) => f@.wf() && spec_layout(f@) == bytes@,
            Err(VaultFormatError::IncompatibleVersion { found, supported }) => is_newer_version(bytes@)
                && found == version_of(bytes@) && supported == FORMAT_VERSION,
            Err(VaultFormatError::VaultCorrupted) => !is_newer_version(bytes@)
                && forall|v: VaultFileView| v.wf() ==> #[trigger] spec_layout(v) != bytes@,
            Err(VaultFormatError::Io(_)) => false,
        },
{
    let mut r = Reader::new(bytes);
    let magic = match r.take(8) {
        Ok(m) => m,
        Err(e) => {
            proof { lemma_no_encoding(bytes@); }
            return Err(e);
        },
    };
    if magic[0] != 0x4B || magic[1] != 0x48 || magic[2] != 0x56 || magic[3] != 0x41 || magic[4] != 0x55
        || magic[5] != 0x4C || magic[6] != 0x54 || magic[7] != 0x00 {
        proof {
            assert(!magic_ok(bytes@)) by {
                if magic_ok(bytes@) {
                    assert(magic@ == magic_bytes());
                }
            }
            lemma_no_encoding(bytes@);
        }
        return Err(VaultFormatError::VaultCorrupted);
    }
    assert(magic@ =~= magic_bytes());
    let format_ver = match r.u16() {
        Ok(v) => v,
        Err(e) => {
            proof { lemma_no_encoding(bytes@); }
            return Err(e);
        },
    };
    if format_ver > FORMAT_VERSION {
        return Err(VaultFormatError::IncompatibleVersion { found: format_ver, supported: FORMAT_VERSION });
    }
    match decode_body(&mut r, format_ver) {
        Ok(f) => {
            proof { lemma_encode_parsed(bytes@); }
            Ok(f)
        },
        Err(e) => {
            proof { lemma_no_encoding(bytes@); }
            Err(e)
        },
    }
}

/// The layout of a well-formed vault file is not mistaken for a newer
/// version, and no other well-formed file has the same layout, so [`decode`]
/// of those bytes gives back exactly that file.
pub proof fn lemma_layout_unique(v: VaultFileView)
    requires
        v.wf(),
    ensures
        !is_newer_version(spec_layout(v)),
        forall|w: VaultFileView| w.wf() && #[trigger] spec_layout(w) == spec_layout(v) ==> w == v,
{
    lemma_parse_encoded(v);
    assert forall|w: VaultFileView| w.wf() && #[trigger] spec_layout(w) == spec_layout(v) implies w == v by {
        lemma_encode_injective(w, v);
    }
}

/// Round trip: [`decode`] of what [`VaultFile::encode`] writes for a
/// well-formed file is never a version error, and gives back exactly that
/// file at the current [`FORMAT_VERSION`].
pub proof fn lemma_decode_encode_round_trip(v: VaultFileView)
    requires
        v.wf(),
    ensures
        !is_newer_version(spec_encode(v)),
        forall|w: VaultFileView| w.wf() && #[trigger] spec_layout(w) == spec_encode(v) ==> w == at_current_version(v),
        at_current_version(v).format_ver == FORMAT_VERSION,
{
    lemma_layout_unique(at_current_version(v));
}

/// Reads within the first `cut` bytes agree between `s` and its prefix.
proof fn lemma_prefix_reads(s: Seq<u8>, cut: int)
    requires
        0 <= cut <= s.len(),
    ensures
        forall|i: int| 0 <= i && i + 4 <= cut ==> #[trigger] u32_at(s.subrange(0, cut), i) == u32_at(s, i),
        forall|pos: int| 0 <= pos && #[trigger] wrap_at(s.subrange(0, cut), pos) is Some
            ==> wrap_at(s, pos) == wrap_at(s.subrange(0, cut), pos),
        forall|pos: int| 0 <= pos && #[trigger] recovery_at(s.subrange(0, cut), pos) is Some
            ==> recovery_at(s, pos) == recovery_at(s.subrange(0, cut), pos),
{
    let p = s.subrange(0, cut);
    assert forall|i: int| 0 <= i && i + 4 <= cut implies #[trigger] u32_at(p, i) == u32_at(s, i) by {
        assert(p.subrange(i, i + 4) =~= s.subrange(i, i + 4));
    }
    assert forall|pos: int| 0 <= pos && #[trigger] wrap_at(p, pos) is Some implies wrap_at(s, pos) == wrap_at(p, pos) by {
        assert(u32_at(p, pos + 24) == u32_at(s, pos + 24));
        let n = u32_at(s, pos + 24) as int;
        assert(p.subrange(pos, pos + 24) =~= s.subrange(pos, pos + 24));
        assert(p.subrange(pos + 28, pos + 28 + n) =~= s.subrange(pos + 28, pos + 28 + n));
    }
    assert forall|pos: int| 0 <= pos && #[trigger] recovery_at(p, pos) is Some implies recovery_at(s, pos) == recovery_at(p, pos) by {
        if p[pos] == 1 {
            assert(wrap_at(p, pos + 17) is Some);
            assert(p.subrange(pos + 1, pos + 17) =~= s.subrange(pos + 1, pos + 17));
        }
    }
}

/// No strict prefix of the layout of a well-formed vault file is itself the
/// layout of one, nor a newer-version vault.
proof fn lemma_layout_prefix_rejected(v: VaultFileView, cut: int)
    requires
        v.wf(),
        0 <= cut < spec_layout(v).len(),
    ensures
        !is_newer_version(spec_layout(v).subrange(0, cut)),
        forall|w: VaultFileView| w.wf() ==> #[trigger] spec_layout(w) != spec_layout(v).subrange(0, cut),
{
    let s = spec_layout(v);
    let p = s.subrange(0, cut);
    lemma_parse_encoded(v);
    lemma_prefix_reads(s, cut);
    if p.len() >= 10 {
        assert(p.subrange(8, 10) =~= s.subrange(8, 10));
    }
    if body_of(p) is Some {
        let (pw, p1) = wrap_at(p, 40).unwrap();
        let (rec, p2) = recovery_at(p, p1).unwrap();
        assert(wrap_at(s, 40) == wrap_at(p, 40));
        assert(recovery_at(s, p1) == recovery_at(p, p1));
        assert(u32_at(p, p2 + 24) == u32_at(s, p2 + 24));
        assert(p.len() == s.len());
    }
    assert(!parses(p));
    lemma_no_encoding(p);
}

/// Truncation: [`decode`] of any strict prefix of what [`VaultFile::encode`]
/// writes for a well-formed file is neither a vault nor a newer-version
/// vault, so it is reported as [`VaultFormatError::VaultCorrupted`].
pub proof fn lemma_truncated_encoding_rejected(v: VaultFileView, cut: int)
    requires
        v.wf(),
        0 <= cut < spec_encode(v).len(),
    ensures
        !is_newer_version(spec_encode(v).subrange(0, cut)),
        forall|w: VaultFileView| w.wf() ==> #[trigger] spec_layout(w) != spec_encode(v).subrange(0, cut),
{
    lemma_layout_prefix_rejected(at_current_version(v), cut);
}

} // verus!
