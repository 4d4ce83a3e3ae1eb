//! Key derivation, AEAD, and the CSPRNG helpers.

use keyhaven::crypto::{
    aead_decrypt, aead_encrypt, derive_key, random_below, random_nonce, random_salt, random_vek, CryptoError,
    KdfParams, KEY_LEN, NONCE_LEN, SALT_LEN, VEK_LEN,
};

/// Cheap KDF parameters so tests stay fast while still exercising Argon2id.
fn fast_params() -> KdfParams {
    KdfParams {
        m_cost: 512, // 512 KiB
        t_cost: 1,
        p_cost: 1,
    }
}

#[test]
fn derive_key_is_deterministic() {
    let secret = b"correct horse battery staple";
    let salt = [7u8; SALT_LEN];
    let params = fast_params();

    let k1 = derive_key(secret, &salt, params).unwrap();
    let k2 = derive_key(secret, &salt, params).unwrap();

    assert_eq!(k1, k2, "same secret+salt+params must yield the same key");
    assert_eq!(k1.len(), KEY_LEN);
}

#[test]
fn derive_key_differs_by_salt() {
    let secret = b"correct horse battery staple";
    let params = fast_params();

    let k1 = derive_key(secret, &[1u8; SALT_LEN], params).unwrap();
    let k2 = derive_key(secret, &[2u8; SALT_LEN], params).unwrap();

    assert_ne!(k1, k2, "different salts must yield different keys");
}

#[test]
fn derive_key_differs_by_secret() {
    let salt = [9u8; SALT_LEN];
    let params = fast_params();

    let k1 = derive_key(b"password-one", &salt, params).unwrap();
    let k2 = derive_key(b"password-two", &salt, params).unwrap();

    assert_ne!(k1, k2, "different secrets must yield different keys");
}

#[test]
fn encrypt_decrypt_round_trip() {
    let key = [42u8; KEY_LEN];
    let plaintext = b"top secret vault payload";

    let ct = aead_encrypt(&key, plaintext, &[]).unwrap();
    let recovered = aead_decrypt(&key, &ct, &[]).unwrap();

    assert_eq!(&recovered[..], plaintext);
    // Ciphertext must not equal plaintext, and carries the 16-byte tag.
    assert_ne!(&ct.ciphertext[..], &plaintext[..]);
    assert_eq!(ct.ciphertext.len(), plaintext.len() + 16);
    assert_eq!(ct.nonce.len(), NONCE_LEN);
}

#[test]
fn round_trip_with_aad() {
    let key = [3u8; KEY_LEN];
    let plaintext = b"payload bound to header";
    let aad = b"vault-header-bytes";

    let ct = aead_encrypt(&key, plaintext, aad).unwrap();
    let recovered = aead_decrypt(&key, &ct, aad).unwrap();
    assert_eq!(&recovered[..], plaintext);
}

#[test]
fn round_trip_empty_plaintext() {
    let key = [5u8; KEY_LEN];
    let ct = aead_encrypt(&key, b"", &[]).unwrap();
    let recovered = aead_decrypt(&key, &ct, &[]).unwrap();
    assert!(recovered.is_empty());
}

#[test]
fn wrong_key_is_rejected() {
    let key = [1u8; KEY_LEN];
    let wrong_key = [2u8; KEY_LEN];
    let plaintext = b"secret";

    let ct = aead_encrypt(&key, plaintext, &[]).unwrap();
    let result = aead_decrypt(&wrong_key, &ct, &[]);

    assert_eq!(result.unwrap_err(), CryptoError::Decryption);
}

#[test]
fn mismatched_aad_is_rejected() {
    let key = [1u8; KEY_LEN];
    let ct = aead_encrypt(&key, b"secret", b"aad-a").unwrap();
    let result = aead_decrypt(&key, &ct, b"aad-b");
    assert_eq!(result.unwrap_err(), CryptoError::Decryption);
}

#[test]
fn tampered_ciphertext_byte_fails_auth() {
    let key = [8u8; KEY_LEN];
    let plaintext = b"integrity matters";

    let mut ct = aead_encrypt(&key, plaintext, &[]).unwrap();
    // Flip a single bit in the first ciphertext byte.
    ct.ciphertext[0] ^= 0x01;

    let result = aead_decrypt(&key, &ct, &[]);
    assert_eq!(result.unwrap_err(), CryptoError::Decryption);
}

#[test]
fn tampered_tag_fails_auth() {
    let key = [8u8; KEY_LEN];
    let mut ct = aead_encrypt(&key, b"integrity matters", &[]).unwrap();
    // Flip a bit in the last byte (within the authentication tag).
    let last = ct.ciphertext.len() - 1;
    ct.ciphertext[last] ^= 0x80;

    let result = aead_decrypt(&key, &ct, &[]);
    assert_eq!(result.unwrap_err(), CryptoError::Decryption);
}

#[test]
fn tampered_nonce_fails_auth() {
    let key = [8u8; KEY_LEN];
    let mut ct = aead_encrypt(&key, b"integrity matters", &[]).unwrap();
    ct.nonce[0] ^= 0x01;

    let result = aead_decrypt(&key, &ct, &[]);
    assert_eq!(result.unwrap_err(), CryptoError::Decryption);
}

#[test]
fn nonces_are_random_per_encryption() {
    let key = [11u8; KEY_LEN];
    let plaintext = b"same message";

    let a = aead_encrypt(&key, plaintext, &[]).unwrap();
    let b = aead_encrypt(&key, plaintext, &[]).unwrap();

    assert_ne!(a.nonce, b.nonce, "each encryption must use a fresh nonce");
    assert_ne!(
        a.ciphertext, b.ciphertext,
        "fresh nonce must yield distinct ciphertext for identical input"
    );
}

#[test]
fn rng_helpers_have_correct_lengths() {
    assert_eq!(random_salt().len(), SALT_LEN);
    assert_eq!(random_nonce().len(), NONCE_LEN);
    assert_eq!(random_vek().len(), VEK_LEN);
}

#[test]
fn rng_helpers_produce_distinct_values() {
    // Extremely unlikely to collide for a working CSPRNG.
    assert_ne!(random_salt(), random_salt());
    assert_ne!(random_nonce(), random_nonce());
    assert_ne!(random_vek(), random_vek());
}

#[test]
fn random_below_stays_within_bounds() {
    for bound in [1u32, 2, 3, 7, 26, 64, 1000] {
        for _ in 0..1000 {
            let v = random_below(bound);
            assert!(v < bound, "random_below({bound}) returned {v}, out of range");
        }
    }
}

#[test]
fn random_below_one_is_always_zero() {
    for _ in 0..100 {
        assert_eq!(random_below(1), 0);
    }
}

#[test]
fn random_below_covers_full_range() {
    // Over enough draws every value in a small range should appear,
    // confirming the CSPRNG-backed selection is not stuck on a subset.
    let bound = 6u32;
    let mut seen = [false; 6];
    for _ in 0..5000 {
        seen[random_below(bound) as usize] = true;
    }
    assert!(seen.iter().all(|&s| s), "every value in [0,{bound}) must occur");
}

#[test]
fn random_below_is_roughly_uniform() {
    // A working CSPRNG with unbiased rejection sampling should distribute
    // draws fairly evenly; assert each bucket is within a generous tolerance
    // so the test is robust but still catches a badly skewed source.
    let bound = 10u32;
    let draws = 100_000u32;
    let mut counts = [0u32; 10];
    for _ in 0..draws {
        counts[random_below(bound) as usize] += 1;
    }
    let expected = draws / bound;
    for (i, &c) in counts.iter().enumerate() {
        let lo = expected / 2;
        let hi = expected + expected / 2;
        assert!(
            c >= lo && c <= hi,
            "bucket {i} count {c} outside tolerance [{lo}, {hi}]"
        );
    }
}

#[test]
fn derived_key_round_trips_through_aead() {
    // End-to-end shape used by envelope encryption.
    let secret = b"master password";
    let salt = random_salt();
    let derived = derive_key(secret, &salt, fast_params()).unwrap();

    let vek = random_vek();
    let wrapped = aead_encrypt(&derived, vek.as_ref(), &[]).unwrap();
    let unwrapped = aead_decrypt(&derived, &wrapped, &[]).unwrap();

    assert_eq!(&unwrapped[..], vek.as_ref());
}

#[test]
fn rejected_parameters_and_inputs_are_reported() {
    let salt = [1u8; SALT_LEN];
    let err = derive_key(b"pw", &salt, KdfParams { m_cost: 4, t_cost: 1, p_cost: 1 }).unwrap_err();
    assert_eq!(err, CryptoError::InvalidParams("memory cost is too small".to_string()));
    assert_eq!(err.to_string(), "invalid KDF parameters: memory cost is too small");
    let err = derive_key(b"pw", &salt, KdfParams { m_cost: 512, t_cost: 0, p_cost: 1 }).unwrap_err();
    assert_eq!(err, CryptoError::InvalidParams("time cost is too small".to_string()));
    let err = derive_key(b"pw", &salt, KdfParams { m_cost: 512, t_cost: 1, p_cost: 0 }).unwrap_err();
    assert_eq!(err, CryptoError::InvalidParams("not enough threads".to_string()));
    let err = derive_key(b"pw", &[0u8; 4], fast_params()).unwrap_err();
    assert_eq!(err, CryptoError::KeyDerivation("salt is too short".to_string()));
    assert_eq!(CryptoError::Decryption.to_string(), "decryption failed (wrong key or tampered data)");
}

#[test]
fn recommended_parameters() {
    assert_eq!(KdfParams::recommended(), KdfParams { m_cost: 65536, t_cost: 3, p_cost: 1 });
    assert_eq!(KdfParams::default(), KdfParams::recommended());
}

#[test]
fn oversized_lane_counts_are_too_many_threads() {
    let salt = [1u8; SALT_LEN];
    for p_cost in [0x2000_0000u32, 0x4000_0000, u32::MAX] {
        let err = derive_key(b"pw", &salt, KdfParams { m_cost: 8, t_cost: 1, p_cost }).unwrap_err();
        assert_eq!(err, CryptoError::InvalidParams("too many threads".to_string()));
    }
    // Below the cap Argon2's own checks speak: too many lanes for the memory.
    let err = derive_key(b"pw", &salt, KdfParams { m_cost: 8, t_cost: 1, p_cost: 0x1FFF_FFFF }).unwrap_err();
    assert_eq!(err, CryptoError::InvalidParams("memory cost is too small".to_string()));
    let err = derive_key(b"pw", &salt, KdfParams { m_cost: u32::MAX, t_cost: 1, p_cost: 0x0100_0000 }).unwrap_err();
    assert_eq!(err, CryptoError::InvalidParams("too many threads".to_string()));
}

#[test]
fn random_below_small_bounds() {
    for _ in 0..200 {
        assert!(random_below(3) < 3);
        assert_eq!(random_below(1), 0);
    }
}
