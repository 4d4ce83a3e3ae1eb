//! Wrapping and unwrapping the vault key.

use keyhaven::crypto::envelope::{unwrap_vek, unwrap_vek_with_secret, wrap_vek, wrap_vek_with_secret, EnvelopeError};
use keyhaven::crypto::{aead_encrypt, random_salt, random_vek, CryptoError, KdfParams, VEK_LEN};

/// Cheap KDF parameters so tests stay fast while still exercising Argon2id.
fn fast_params() -> KdfParams {
    KdfParams {
        m_cost: 512, // 512 KiB
        t_cost: 1,
        p_cost: 1,
    }
}

#[test]
fn wrap_then_unwrap_round_trip_recovers_exact_vek() {
    let derived = [42u8; VEK_LEN];
    let vek = random_vek();

    let wrap = wrap_vek(&derived, &vek).unwrap();
    let recovered = unwrap_vek(&derived, &wrap).unwrap();

    assert_eq!(recovered, vek, "unwrapped VEK must equal the wrapped one");
    // A wrap must not expose the VEK in the clear, and carries the 16-byte tag.
    assert_ne!(&wrap.ciphertext[..], vek.as_slice());
    assert_eq!(wrap.ciphertext.len(), VEK_LEN + 16);
}

#[test]
fn unwrap_with_correct_key_succeeds() {
    let derived = [7u8; VEK_LEN];
    let vek = random_vek();

    let wrap = wrap_vek(&derived, &vek).unwrap();
    let recovered = unwrap_vek(&derived, &wrap).expect("correct key must unwrap");

    assert_eq!(recovered, vek);
}

#[test]
fn unwrap_with_wrong_key_returns_wrong_credentials() {
    let derived = [1u8; VEK_LEN];
    let wrong = [2u8; VEK_LEN];
    let vek = random_vek();

    let wrap = wrap_vek(&derived, &vek).unwrap();
    let err = unwrap_vek(&wrong, &wrap).unwrap_err();

    assert_eq!(err, EnvelopeError::WrongCredentials);
}

#[test]
fn tampered_wrap_fails_as_wrong_credentials() {
    let derived = [8u8; VEK_LEN];
    let vek = random_vek();

    // Tamper with the ciphertext.
    let mut wrap = wrap_vek(&derived, &vek).unwrap();
    wrap.ciphertext[0] ^= 0x01;
    assert_eq!(
        unwrap_vek(&derived, &wrap).unwrap_err(),
        EnvelopeError::WrongCredentials,
        "a tampered wrap must be rejected and indistinguishable from a wrong key"
    );

    // Tamper with the nonce.
    let mut wrap2 = wrap_vek(&derived, &vek).unwrap();
    wrap2.nonce[0] ^= 0x01;
    assert_eq!(
        unwrap_vek(&derived, &wrap2).unwrap_err(),
        EnvelopeError::WrongCredentials
    );
}

#[test]
fn wrap_unwrap_with_secret_round_trip() {
    let secret = b"master password";
    let salt = random_salt();
    let params = fast_params();
    let vek = random_vek();

    let wrap = wrap_vek_with_secret(secret, &salt, params, &vek).unwrap();
    let recovered = unwrap_vek_with_secret(secret, &salt, params, &wrap).unwrap();

    assert_eq!(recovered, vek);
}

#[test]
fn unwrap_with_secret_wrong_password_returns_wrong_credentials() {
    let salt = random_salt();
    let params = fast_params();
    let vek = random_vek();

    let wrap = wrap_vek_with_secret(b"correct password", &salt, params, &vek).unwrap();
    let err = unwrap_vek_with_secret(b"wrong password", &salt, params, &wrap).unwrap_err();

    assert_eq!(err, EnvelopeError::WrongCredentials);
}

/// Either-key independence: with both a password wrap and a
/// recovery wrap over the same VEK, each secret independently recovers the
/// exact same VEK, and neither requires the other.
#[test]
fn either_key_independently_recovers_same_vek() {
    let master_password = b"the master password";
    let recovery_key = b"RECOVERY-KEY-ABCD-1234-WXYZ";
    let master_salt = random_salt();
    let rec_salt = random_salt();
    let params = fast_params();

    // One VEK, wrapped twice under two independently derived keys.
    let vek = random_vek();
    let pw_wrap = wrap_vek_with_secret(master_password, &master_salt, params, &vek).unwrap();
    let rec_wrap = wrap_vek_with_secret(recovery_key, &rec_salt, params, &vek).unwrap();

    // Password path recovers the VEK on its own.
    let from_pw = unwrap_vek_with_secret(master_password, &master_salt, params, &pw_wrap)
        .expect("master password must unwrap the password wrap");
    // Recovery path recovers the VEK on its own.
    let from_rec = unwrap_vek_with_secret(recovery_key, &rec_salt, params, &rec_wrap)
        .expect("recovery key must unwrap the recovery wrap");

    assert_eq!(from_pw, vek, "password wrap must recover the wrapped VEK");
    assert_eq!(from_rec, vek, "recovery wrap must recover the wrapped VEK");
    assert_eq!(from_pw, from_rec, "both paths must yield the identical VEK");
}

/// Wrong-secret rejection: unwrapping with an incorrect secret
/// fails and never yields a usable VEK — confirmed here against a recovery
/// wrap as well as the password wrap.
#[test]
fn wrong_secret_never_unwraps_either_wrap() {
    let master_password = b"the master password";
    let recovery_key = b"RECOVERY-KEY-ABCD-1234-WXYZ";
    let master_salt = random_salt();
    let rec_salt = random_salt();
    let params = fast_params();

    let vek = random_vek();
    let pw_wrap = wrap_vek_with_secret(master_password, &master_salt, params, &vek).unwrap();
    let rec_wrap = wrap_vek_with_secret(recovery_key, &rec_salt, params, &vek).unwrap();

    // Recovery key cannot open the password wrap (different salt + secret).
    assert_eq!(
        unwrap_vek_with_secret(recovery_key, &master_salt, params, &pw_wrap).unwrap_err(),
        EnvelopeError::WrongCredentials
    );
    // Master password cannot open the recovery wrap.
    assert_eq!(
        unwrap_vek_with_secret(master_password, &rec_salt, params, &rec_wrap).unwrap_err(),
        EnvelopeError::WrongCredentials
    );
    // An entirely unrelated guess opens neither.
    assert_eq!(
        unwrap_vek_with_secret(b"guess", &master_salt, params, &pw_wrap).unwrap_err(),
        EnvelopeError::WrongCredentials
    );
    assert_eq!(
        unwrap_vek_with_secret(b"guess", &rec_salt, params, &rec_wrap).unwrap_err(),
        EnvelopeError::WrongCredentials
    );
}

#[test]
fn invalid_length_plaintext_maps_to_invalid_vek() {
    // Encrypt a non-VEK-length plaintext, then unwrap: the crypto succeeds
    // but the length check must reject it as InvalidVek (not WrongCredentials).
    let derived = [3u8; VEK_LEN];
    let not_a_vek = aead_encrypt(&derived, b"too short", &[]).unwrap();

    assert_eq!(
        unwrap_vek(&derived, &not_a_vek).unwrap_err(),
        EnvelopeError::InvalidVek
    );
}

#[test]
fn crypto_error_converts_into_envelope_error() {
    let e: EnvelopeError = CryptoError::Encryption.into();
    assert_eq!(e, EnvelopeError::Crypto(CryptoError::Encryption));
}
