//! Command decisions: catalog search, clipboard clearing, field lookup,
//! custom services, entry results and import validation.

use keyhaven::commands::{
    add_custom_service, check_vault_bytes, create_entry_result, entry_by_id, list_custom_services_in,
    lookup_field_value, recovery_key_file_text, require_non_empty, search_catalog_impl, should_clear_clipboard,
    update_entry_result,
};
use keyhaven::entries::{EntryInput, FieldInput};
use keyhaven::error::KeyhavenError;
use keyhaven::model::{FieldType, IconRef, ServiceRef, VaultModel};
use keyhaven::vault::header::{VaultFile, FORMAT_VERSION};
use keyhaven::crypto::{AeadCiphertext, KdfParams};

fn pw_field(label: &str, value: &str) -> FieldInput {
    FieldInput {
        id: None,
        label: label.to_string(),
        field_type: FieldType::Password,
        value: value.to_string(),
        secret: true,
    }
}

fn entry_input(title: Option<&str>, fields: Vec<FieldInput>) -> EntryInput {
    EntryInput {
        service_ref: ServiceRef::Catalog { id: "facebook".to_string() },
        title: title.map(|t| t.to_string()),
        fields,
    }
}

#[test]
fn search_catalog_command_matches_by_name_and_alias() {
    // By name (case-insensitive).
    let by_name = search_catalog_impl("google").expect("search");
    assert!(by_name.iter().any(|s| s.id == "google"));

    // By alias.
    let by_alias = search_catalog_impl("gmail").expect("search");
    assert!(by_alias.iter().any(|s| s.id == "google"));

    // No match → empty.
    let none = search_catalog_impl("zzz-not-a-service-zzz").expect("search");
    assert!(none.is_empty());
}

#[test]
fn search_catalog_needs_no_unlocked_vault() {
    // The catalog is static, non-secret data: searching it requires no
    // session and never returns `Locked`.
    let all = search_catalog_impl("").expect("search with no session");
    assert!(all.len() >= 50, "empty query returns the whole catalog");
}

#[test]
fn catalog_search_is_case_insensitive_and_trimmed() {
    let hits = search_catalog_impl("  GitHub ").expect("search");
    assert_eq!(hits.len(), 1);
    assert_eq!(hits[0].id, "github");
    assert_eq!(search_catalog_impl("   ").expect("search").len(), 60);
}

#[test]
fn should_clear_only_when_clipboard_is_unchanged() {
    // Still holds exactly what we copied → clear it.
    assert!(should_clear_clipboard(Some("secret-value"), "secret-value"));
    // User copied something else since → leave it alone.
    assert!(!should_clear_clipboard(
        Some("user copied this later"),
        "secret-value"
    ));
    // Clipboard unreadable / non-text → don't touch it.
    assert!(!should_clear_clipboard(None, "secret-value"));
    // Subtle difference (trailing space) is still a change.
    assert!(!should_clear_clipboard(Some("secret-value "), "secret-value"));
}

#[test]
fn lookup_field_value_returns_value_and_clear_delay() {
    let mut model = VaultModel::new();
    let saved = create_entry_result(
        &mut model,
        entry_input(Some("Personal"), vec![pw_field("Password", "hunter2")]),
        "2024-01-01T00:00:00Z".to_string(),
    );
    let entry_id = saved.entry.id.clone();
    let field_id = saved.entry.fields[0].id.clone();

    let (value, clear_seconds) = lookup_field_value(&model, &entry_id, &field_id).expect("field found");

    assert_eq!(value, "hunter2");
    // Default clipboard clear delay from Settings::default().
    assert_eq!(clear_seconds, 20);
}

#[test]
fn lookup_field_value_rejects_unknown_entry_and_field() {
    let mut model = VaultModel::new();
    let saved = create_entry_result(
        &mut model,
        entry_input(Some("Personal"), vec![pw_field("Password", "hunter2")]),
        "t".to_string(),
    );
    let entry_id = saved.entry.id.clone();

    // Unknown entry id.
    let err = lookup_field_value(&model, "no-such-entry", "f").unwrap_err();
    assert!(matches!(err, KeyhavenError::InvalidInput { .. }));
    assert_eq!(err.to_string(), "invalid input: no entry with that id exists");

    // Known entry, unknown field id.
    let err = lookup_field_value(&model, &entry_id, "no-such-field").unwrap_err();
    assert!(matches!(err, KeyhavenError::InvalidInput { .. }));
    assert_eq!(err.to_string(), "invalid input: no field with that id exists");
}

#[test]
fn create_entry_flags_empty_entry_without_blocking() {
    let mut model = VaultModel::new();
    let saved = create_entry_result(&mut model, entry_input(None, vec![]), "t".to_string());
    assert!(saved.empty_warning, "an empty entry is flagged");
    assert_eq!(model.entries.len(), 1, "but still saved");
    let filled = create_entry_result(&mut model, entry_input(Some("x"), vec![]), "t".to_string());
    assert!(!filled.empty_warning);
}

#[test]
fn update_unknown_entry_is_invalid_input() {
    let mut model = VaultModel::new();
    let err = update_entry_result(&mut model, "nope", entry_input(None, vec![]), "t".to_string()).unwrap_err();
    assert!(matches!(err, KeyhavenError::InvalidInput { .. }));
}

#[test]
fn get_entry_returns_stored_entry() {
    let mut model = VaultModel::new();
    let saved = create_entry_result(&mut model, entry_input(Some("Personal"), vec![]), "t".to_string());
    let got = entry_by_id(&model, &saved.entry.id).expect("found");
    assert_eq!(got, saved.entry);
    assert!(matches!(entry_by_id(&model, "missing"), Err(KeyhavenError::InvalidInput { .. })));
}

#[test]
fn create_custom_service_empty_name_is_invalid_input() {
    let mut model = VaultModel::new();
    let err = add_custom_service(&mut model, "   ", IconRef::Builtin { reference: "x.svg".to_string() }).unwrap_err();
    assert!(matches!(err, KeyhavenError::InvalidInput { .. }));
    assert!(model.custom_services.is_empty());
}

#[test]
fn multiple_custom_services_get_distinct_ids() {
    let mut model = VaultModel::new();
    let a = add_custom_service(&mut model, " Home NAS ", IconRef::Builtin { reference: "server.svg".to_string() })
        .expect("create");
    let b = add_custom_service(&mut model, "Router", IconRef::Data { reference: "data:image/png;base64,AAAA".to_string() })
        .expect("create");
    assert_ne!(a.id, b.id);
    assert_eq!(a.name, "Home NAS", "the name is trimmed");
    assert!(a.custom && b.custom);
    assert!(uuid::Uuid::parse_str(&a.id).is_ok());
    let listed = list_custom_services_in(&model);
    assert_eq!(listed.len(), 2);
    assert_eq!(listed[1].name, "Router");
}

#[test]
fn empty_arguments_are_rejected() {
    let err = require_non_empty("", "master password must not be empty").unwrap_err();
    assert_eq!(err, KeyhavenError::InvalidInput { message: "master password must not be empty".to_string() });
    assert!(require_non_empty("pw", "master password must not be empty").is_ok());
}

#[test]
fn import_rejects_foreign_file() {
    let err = check_vault_bytes(b"definitely not a vault").unwrap_err();
    assert_eq!(err, KeyhavenError::VaultCorrupted);
}

#[test]
fn import_rejects_incompatible_version() {
    let file = VaultFile::new(
        KdfParams { m_cost: 512, t_cost: 1, p_cost: 1 },
        [1u8; 16],
        AeadCiphertext { nonce: [2u8; 24], ciphertext: vec![3u8; 48] },
        None,
        [4u8; 24],
        vec![5u8; 10],
    );
    let mut bytes = file.encode();
    assert!(check_vault_bytes(&bytes).is_ok());
    bytes[8..10].copy_from_slice(&(FORMAT_VERSION + 1).to_le_bytes());
    assert_eq!(check_vault_bytes(&bytes).unwrap_err(), KeyhavenError::IncompatibleVersion);
}

#[test]
fn recovery_key_file_has_the_key_and_timestamp() {
    let text = recovery_key_file_text("ABCD-EFGH", "2024-01-01T00:00:00+00:00");
    assert!(text.starts_with("Keyhaven Recovery Key\r\n"));
    assert!(text.contains("\r\nRecovery key:\r\nABCD-EFGH\r\n"));
    assert!(text.ends_with("Generated: 2024-01-01T00:00:00+00:00\r\n"));
}

#[test]
fn formatted_recovery_key_file_is_stamped() {
    let text = keyhaven::commands::format_recovery_key_file("WXYZ-1234");
    assert!(text.contains("\r\nRecovery key:\r\nWXYZ-1234\r\n"));
    assert!(text.contains("Generated: 20"), "a current timestamp: {text}");
    assert!(text.ends_with("\r\n"));
}
