# keyhaven

The verified core of Keyhaven, an offline, encrypted password vault: one
portable `.khv` file holds a plaintext header and the vault contents encrypted
under a random vault key (VEK); the VEK is wrapped under a key derived
(Argon2id) from the master password and, optionally, from a one-time recovery
key; everything is sealed with XChaCha20-Poly1305.

## Layout

- `src/` — the library, verified with Verus:
  - `crypto/` — key derivation, AEAD, the CSPRNG and unbiased bounded draws
    (`primitives.rs` is the trusted boundary to `argon2`, `chacha20poly1305`
    and `rand`); `envelope.rs` wraps and unwraps the VEK.
  - `vault/` — the binary file format (`header.rs`, with a proved
    decode/encode round trip), recovery keys (`recovery_key.rs`), and the
    create / unlock / save / change-password flows over file bytes
    (`repository.rs`).
  - `model.rs` — entries, fields, custom services and settings, and the
    DEFLATE compression of the payload (trusted boundary to `flate2`).
  - `entries.rs` — entry CRUD, the empty-entry warning, search and paging
    (secret fields are never indexed or summarised).
  - `generator.rs` — password generation: the draws are laid out and
    Fisher-Yates shuffled by a verified `arrange`, with a proved compliance
    property.
  - `session/` — the unlocked session, wiping on lock, and the auto-lock
    deadline.
  - `catalog.rs`, `commands.rs`, `error.rs`, `text.rs` — the service catalog,
    command decisions, the user-facing error, and text helpers.
- `tests/` — tests of the library against the real outside crates.
- `app/` — the I/O shell: the model's JSON form, crash-safe
  file writes, the clipboard, and the commands that read and write files
  around calls into the library.
