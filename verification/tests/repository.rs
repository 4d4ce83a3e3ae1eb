//! The vault flows over file bytes: create, unlock with either key, save,
//! change the master password, and recovery-key generation.

use keyhaven::crypto::KdfParams;
use keyhaven::model::VaultModel;
use keyhaven::vault::header::decode;
use keyhaven::vault::recovery_key::{base32_encode, generate_recovery_key, group_with_dashes, CROCKFORD_BASE32};
use keyhaven::vault::repository::{create_vault, finish_unlock, unlock_with_password, unlock_with_recovery_key, VaultRepoError};

/// Fast Argon2id parameters so the round-trip tests stay quick.
fn fast_params() -> KdfParams {
    KdfParams {
        m_cost: 512,
        t_cost: 1,
        p_cost: 1,
    }
}

const EMPTY_PAYLOAD: &[u8] = b"{\"entries\":[]}";

#[test]
fn base32_encode_is_deterministic_and_in_alphabet() {
    let data = [0u8, 1, 2, 3, 4, 250, 251, 252, 253, 254];
    let a = base32_encode(&data);
    let b = base32_encode(&data);
    assert_eq!(a, b);
    assert!(a.bytes().all(|c| CROCKFORD_BASE32.contains(&c)));
}

#[test]
fn base32_known_vectors() {
    // 0x00 -> "00"; 0xFF -> "ZW" (11111 111 padded to 11100); "f" -> "CR".
    assert_eq!(base32_encode(&[0x00]), "00");
    assert_eq!(base32_encode(&[0xFF]), "ZW");
    assert_eq!(base32_encode(b"f"), "CR");
    assert_eq!(base32_encode(b"foobar"), "CSQPYRK1E8");
    assert_eq!(base32_encode(&[]), "");
}

#[test]
fn grouping_inserts_a_dash_every_four_characters() {
    assert_eq!(group_with_dashes("ABCDEFGHIJ", 4), "ABCD-EFGH-IJ");
    assert_eq!(group_with_dashes("ABCD", 4), "ABCD");
    assert_eq!(group_with_dashes("", 4), "");
}

#[test]
fn password_round_trip_create_unlock_persist_reopen() {
    let password = b"correct horse battery staple";

    let (mut vault, recovery) = create_vault("test.khv", password, false, fast_params(), EMPTY_PAYLOAD).expect("create");
    assert!(recovery.is_none(), "no recovery key when not requested");
    assert!(vault.model().entries.is_empty());

    // Persist a new payload, then reopen from the written bytes.
    let bytes = vault.save(b"payload with one entry").expect("save");
    let reopened = unlock_with_password(&bytes, password).expect("unlock");
    assert_eq!(reopened.payload, b"payload with one entry".to_vec());
    assert!(reopened.file.recovery.is_none());
}

#[test]
fn freshly_created_vault_decrypts_to_empty_model() {
    let (created, _) = create_vault("test.khv", b"pw", false, fast_params(), EMPTY_PAYLOAD).expect("create");
    let unlocked = unlock_with_password(&created.encoded(), b"pw").expect("unlock");
    assert_eq!(unlocked.payload, EMPTY_PAYLOAD.to_vec());
    let opened = finish_unlock("test.khv".to_string(), unlocked, Some(VaultModel::new())).expect("open");
    assert_eq!(*created.model(), *opened.model());
    assert_eq!(*opened.model(), VaultModel::new());
}

#[test]
fn recovery_round_trip_and_either_key_unlocks() {
    let password = b"master-password";
    let (mut vault, recovery) = create_vault("test.khv", password, true, fast_params(), EMPTY_PAYLOAD).expect("create");
    let recovery_key = recovery.expect("recovery key returned exactly once");
    assert!(vault.has_recovery());

    let bytes = vault.save(b"shared data").expect("save");

    let via_recovery = unlock_with_recovery_key(&bytes, recovery_key.as_bytes()).expect("recovery unlock");
    assert_eq!(via_recovery.payload, b"shared data".to_vec());

    let via_password = unlock_with_password(&bytes, password).expect("password unlock");
    assert_eq!(via_password.payload, b"shared data".to_vec());

    // Both paths recover the identical VEK.
    assert_eq!(via_recovery.vek, via_password.vek);
    assert_eq!(&via_password.vek, vault.vek());
}

#[test]
fn recovery_key_is_grouped_base32() {
    let (_v, recovery) = create_vault("test.khv", b"pw", true, fast_params(), EMPTY_PAYLOAD).expect("create");
    let key = recovery.expect("recovery key");

    // 20 bytes -> 32 base32 symbols -> 8 groups of 4 joined by dashes.
    let groups: Vec<&str> = key.split('-').collect();
    assert_eq!(groups.len(), 8, "expected 8 dash-separated groups: {key}");
    for g in &groups {
        assert_eq!(g.len(), 4, "each group is four characters: {key}");
        assert!(
            g.bytes().all(|b| CROCKFORD_BASE32.contains(&b)),
            "only Crockford base32 symbols: {key}"
        );
    }
}

#[test]
fn wrong_password_is_wrong_credentials() {
    let (v, _) = create_vault("test.khv", b"the-real-password", false, fast_params(), EMPTY_PAYLOAD).expect("create");
    let err = unlock_with_password(&v.encoded(), b"not-the-password").err().expect("must fail");
    assert!(matches!(err, VaultRepoError::WrongCredentials), "got {err:?}");
}

#[test]
fn wrong_recovery_key_is_wrong_credentials() {
    let (v, _) = create_vault("test.khv", b"pw", true, fast_params(), EMPTY_PAYLOAD).expect("create");
    let err = unlock_with_recovery_key(&v.encoded(), b"AAAA-BBBB-CCCC-DDDD-EEEE-FFFF-GGGG-HHHH").err().expect("must fail");
    assert!(matches!(err, VaultRepoError::WrongCredentials), "got {err:?}");
}

#[test]
fn recovery_unlock_without_recovery_section_errors() {
    let (v, _) = create_vault("test.khv", b"pw", false, fast_params(), EMPTY_PAYLOAD).expect("create");
    let err = unlock_with_recovery_key(&v.encoded(), b"ANY-KEY").err().expect("must fail");
    assert!(matches!(err, VaultRepoError::NoRecoverySection), "got {err:?}");
}

#[test]
fn tampered_payload_byte_fails_unlock() {
    let (v, _) = create_vault("test.khv", b"pw", false, fast_params(), EMPTY_PAYLOAD).expect("create");
    let mut bytes = v.encoded();
    let last = bytes.len() - 1;
    bytes[last] ^= 0x01;
    let err = unlock_with_password(&bytes, b"pw").err().expect("must fail");
    assert!(matches!(err, VaultRepoError::Corrupted), "got {err:?}");
}

#[test]
fn tampered_pw_wrap_fails_unlock() {
    let (v, _) = create_vault("test.khv", b"pw", false, fast_params(), EMPTY_PAYLOAD).expect("create");
    let mut bytes = v.encoded();
    // The first byte of the password wrap's ciphertext: magic(8) + ver(2) +
    // ids(2) + params(12) + salt(16) + nonce(24) + length(4).
    bytes[68] ^= 0x01;
    let err = unlock_with_password(&bytes, b"pw").err().expect("must fail");
    assert!(matches!(err, VaultRepoError::WrongCredentials), "got {err:?}");
}

#[test]
fn foreign_bytes_are_a_format_error() {
    let err = unlock_with_password(b"not a vault", b"pw").err().expect("must fail");
    assert!(matches!(err, VaultRepoError::Format(_)), "got {err:?}");
}

#[test]
fn save_uses_fresh_payload_nonce_each_time() {
    let (mut vault, _) = create_vault("test.khv", b"pw", false, fast_params(), EMPTY_PAYLOAD).expect("create");
    let first = decode(&vault.save(b"same").expect("save")).unwrap();
    let second = decode(&vault.save(b"same").expect("save")).unwrap();
    assert_ne!(first.payload_nonce, second.payload_nonce);
    assert_ne!(first.payload, second.payload);
    // Only the payload moves; the credentials stay.
    assert_eq!(first.master_salt, second.master_salt);
    assert_eq!(first.pw_wrap, second.pw_wrap);
}

#[test]
fn generated_recovery_keys_are_unique() {
    let k1 = generate_recovery_key();
    let k2 = generate_recovery_key();
    assert_ne!(k1, k2);
}

#[test]
fn change_master_password_rewrites_only_pw_wrap_and_salt() {
    let (mut vault, recovery) = create_vault("test.khv", b"old-password", true, fast_params(), EMPTY_PAYLOAD).expect("create");
    let recovery_key = recovery.expect("recovery key returned once");
    let before_bytes = vault.save(b"one entry").expect("save");
    let before = decode(&before_bytes).expect("decode before");

    let after_bytes = vault
        .change_master_password(b"old-password", b"new-password")
        .expect("change must succeed with the correct current password");
    let after = decode(&after_bytes).expect("decode after");

    assert_eq!(after.payload, before.payload, "payload ciphertext must be unchanged by a password change");
    assert_eq!(after.payload_nonce, before.payload_nonce, "payload nonce must be unchanged by a password change");
    assert_eq!(after.recovery, before.recovery, "recovery wrap must be unchanged by a password change");
    assert_ne!(after.master_salt, before.master_salt, "master salt rotates");
    assert_ne!(after.pw_wrap, before.pw_wrap, "password wrap is rewritten");

    let old_err = unlock_with_password(&after_bytes, b"old-password").err().expect("must fail");
    assert!(matches!(old_err, VaultRepoError::WrongCredentials), "got {old_err:?}");

    let via_new = unlock_with_password(&after_bytes, b"new-password").expect("new password unlocks");
    assert_eq!(via_new.payload, b"one entry".to_vec());

    let via_recovery = unlock_with_recovery_key(&after_bytes, recovery_key.as_bytes()).expect("recovery still works");
    assert_eq!(via_recovery.payload, b"one entry".to_vec());
}

#[test]
fn change_master_password_rejects_wrong_current_and_writes_nothing() {
    let (mut vault, _) = create_vault("test.khv", b"old-password", true, fast_params(), EMPTY_PAYLOAD).expect("create");
    let before = vault.encoded();

    let err = vault.change_master_password(b"not-the-password", b"new-password").err().expect("must fail");
    assert!(matches!(err, VaultRepoError::WrongCredentials), "got {err:?}");

    assert_eq!(vault.encoded(), before, "nothing changes on rejection");
    unlock_with_password(&before, b"old-password").expect("old password still valid");
}

#[test]
fn recovery_unlock_then_set_new_master_password_keeps_recovery() {
    let (mut vault, recovery) = create_vault("test.khv", b"forgotten-password", true, fast_params(), EMPTY_PAYLOAD).expect("create");
    let recovery_key = recovery.expect("recovery key");
    let bytes = vault.save(b"entries").expect("save");

    let unlocked = unlock_with_recovery_key(&bytes, recovery_key.as_bytes()).expect("recovery unlock");
    let mut via_recovery = finish_unlock("test.khv".to_string(), unlocked, Some(VaultModel::new())).expect("open");

    let new_bytes = via_recovery
        .change_master_password(recovery_key.as_bytes(), b"brand-new-password")
        .expect("recovery flow permits setting a new master password");

    let via_new = unlock_with_password(&new_bytes, b"brand-new-password").expect("new password unlocks");
    assert_eq!(via_new.payload, b"entries".to_vec());

    let again = unlock_with_recovery_key(&new_bytes, recovery_key.as_bytes()).expect("recovery still works");
    assert_eq!(again.payload, b"entries".to_vec());

    assert!(matches!(
        unlock_with_password(&new_bytes, b"forgotten-password").err().expect("must fail"),
        VaultRepoError::WrongCredentials
    ));
}

#[test]
fn change_master_password_open_vault_path_tracks_source() {
    let (vault, _) = create_vault("dir/test.khv", b"pw", false, fast_params(), EMPTY_PAYLOAD).expect("create");
    assert_eq!(vault.path(), "dir/test.khv", "OpenVault remembers its source path");
}

#[test]
fn unparsable_payload_is_corrupted() {
    let (v, _) = create_vault("test.khv", b"pw", false, fast_params(), EMPTY_PAYLOAD).expect("create");
    let unlocked = unlock_with_password(&v.encoded(), b"pw").expect("unlock");
    let err = finish_unlock("test.khv".to_string(), unlocked, None).err().expect("no model");
    assert!(matches!(err, VaultRepoError::Corrupted));
}

#[test]
fn rejected_kdf_parameters_fail_creation() {
    let bad = KdfParams { m_cost: 1, t_cost: 1, p_cost: 1 };
    let err = create_vault("test.khv", b"pw", false, bad, EMPTY_PAYLOAD).err().expect("rejected");
    assert!(matches!(err, VaultRepoError::Envelope(_)), "got {err:?}");
    assert_eq!(
        err.to_string(),
        "envelope crypto error: invalid KDF parameters: memory cost is too small"
    );
}
