//! Entry operations, the empty-entry warning, search and pagination.

use keyhaven::entries::{
    create_entry, delete_entry, entry_is_empty, get_entry, list_entries, update_entry, EntryError, EntryInput,
    FieldInput, Page, SearchIndex, DEFAULT_PAGE_LIMIT, SNIPPET_MAX_CHARS,
};
use keyhaven::model::{CustomService, Entry, Field, FieldType, IconRef, ServiceRef, VaultModel};
use uuid::Uuid;

fn field_input(label: &str, value: &str, secret: bool) -> FieldInput {
    FieldInput {
        id: None,
        label: label.to_string(),
        field_type: FieldType::Text,
        value: value.to_string(),
        secret,
    }
}

fn sample_input() -> EntryInput {
    EntryInput {
        service_ref: ServiceRef::Catalog {
            id: "facebook".to_string(),
        },
        title: Some("Personal".to_string()),
        fields: vec![
            FieldInput {
                id: None,
                label: "Email".to_string(),
                field_type: FieldType::Email,
                value: "me@example.com".to_string(),
                secret: false,
            },
            FieldInput {
                id: None,
                label: "Password".to_string(),
                field_type: FieldType::Password,
                value: "hunter2".to_string(),
                secret: true,
            },
        ],
    }
}

#[test]
fn create_assigns_uuid_and_timestamps() {
    let mut model = VaultModel::new();
    let entry = create_entry(&mut model, sample_input(), "2024-01-01T00:00:00Z".to_string());

    // The entry is persisted in the model.
    assert_eq!(model.entries.len(), 1);
    // A UUID v4 id is assigned (parseable as a UUID).
    assert!(Uuid::parse_str(&entry.id).is_ok(), "entry id must be a UUID");
    // created_at == updated_at at creation.
    assert_eq!(entry.created_at, "2024-01-01T00:00:00Z");
    assert_eq!(entry.updated_at, "2024-01-01T00:00:00Z");
}

#[test]
fn create_assigns_unique_field_ids() {
    let mut model = VaultModel::new();
    let entry = create_entry(&mut model, sample_input(), "t".to_string());
    assert_eq!(entry.fields.len(), 2);
    for field in &entry.fields {
        assert!(Uuid::parse_str(&field.id).is_ok(), "field id must be a UUID");
    }
    assert_ne!(
        entry.fields[0].id, entry.fields[1].id,
        "each field gets a distinct id"
    );
    // The secret flag and custom labels round-trip into the stored field.
    assert_eq!(entry.fields[1].label, "Password");
    assert!(entry.fields[1].secret);
}

#[test]
fn distinct_entries_get_distinct_ids() {
    let mut model = VaultModel::new();
    let a = create_entry(&mut model, sample_input(), "t".to_string());
    let b = create_entry(&mut model, sample_input(), "t".to_string());
    assert_ne!(a.id, b.id, "each created entry gets a unique id");
    assert_eq!(model.entries.len(), 2);
}

#[test]
fn get_entry_finds_existing_and_misses_unknown() {
    let mut model = VaultModel::new();
    let created = create_entry(&mut model, sample_input(), "t".to_string());

    let found = get_entry(&model, &created.id).expect("entry should be found");
    assert_eq!(found.id, created.id);
    assert_eq!(found.title.as_deref(), Some("Personal"));

    assert!(get_entry(&model, "no-such-id").is_none());
}

#[test]
fn update_preserves_created_at_and_id_and_bumps_updated_at() {
    let mut model = VaultModel::new();
    let created = create_entry(&mut model, sample_input(), "2024-01-01T00:00:00Z".to_string());

    let mut input = sample_input();
    input.title = Some("Renamed".to_string());
    let updated = update_entry(
        &mut model,
        &created.id,
        input,
        "2024-06-15T09:30:00Z".to_string(),
    )
    .expect("update should succeed");

    // Identity and creation time are stable; only updated_at moves.
    assert_eq!(updated.id, created.id);
    assert_eq!(updated.created_at, "2024-01-01T00:00:00Z");
    assert_eq!(updated.updated_at, "2024-06-15T09:30:00Z");
    assert_eq!(updated.title.as_deref(), Some("Renamed"));
    // The change is reflected in the stored model, not just the return value.
    assert_eq!(model.entries[0].title.as_deref(), Some("Renamed"));
    assert_eq!(model.entries[0].updated_at, "2024-06-15T09:30:00Z");
}

#[test]
fn update_can_add_remove_and_relabel_fields() {
    let mut model = VaultModel::new();
    let created = create_entry(&mut model, sample_input(), "t".to_string());
    let keep_id = created.fields[0].id.clone();

    // Keep the first field (preserving its id, relabeled), drop the second,
    // and add a brand-new field.
    let input = EntryInput {
        service_ref: ServiceRef::Catalog {
            id: "facebook".to_string(),
        },
        title: Some("Personal".to_string()),
        fields: vec![
            FieldInput {
                id: Some(keep_id.clone()),
                label: "Primary email".to_string(),
                field_type: FieldType::Email,
                value: "me@example.com".to_string(),
                secret: false,
            },
            field_input("Note", "some note", false),
        ],
    };

    let updated = update_entry(&mut model, &created.id, input, "t2".to_string())
        .expect("update should succeed");

    assert_eq!(updated.fields.len(), 2);
    // Preserved field keeps its id and takes the new label.
    assert_eq!(updated.fields[0].id, keep_id);
    assert_eq!(updated.fields[0].label, "Primary email");
    // Newly added field gets a fresh UUID, distinct from the preserved one.
    assert!(Uuid::parse_str(&updated.fields[1].id).is_ok());
    assert_ne!(updated.fields[1].id, keep_id);
}

#[test]
fn update_unknown_entry_is_not_found() {
    let mut model = VaultModel::new();
    let err = update_entry(&mut model, "no-such-id", sample_input(), "t".to_string())
        .unwrap_err();
    assert_eq!(err, EntryError::NotFound);
}

#[test]
fn delete_removes_only_the_target_entry() {
    let mut model = VaultModel::new();
    let a = create_entry(&mut model, sample_input(), "t".to_string());
    let b = create_entry(&mut model, sample_input(), "t".to_string());

    delete_entry(&mut model, &a.id).expect("delete should succeed");

    assert_eq!(model.entries.len(), 1);
    assert_eq!(model.entries[0].id, b.id, "the other entry is untouched");
    // The deleted entry is gone.
    assert!(get_entry(&model, &a.id).is_none());
}

#[test]
fn delete_unknown_entry_is_not_found() {
    let mut model = VaultModel::new();
    let err = delete_entry(&mut model, "no-such-id").unwrap_err();
    assert_eq!(err, EntryError::NotFound);
}

#[test]
fn empty_entry_warning_detects_blank_entries() {
    let mut model = VaultModel::new();

    // No title, all field values blank/whitespace → empty (warn).
    let blank = create_entry(
        &mut model,
        EntryInput {
            service_ref: ServiceRef::Catalog {
                id: "facebook".to_string(),
            },
            title: None,
            fields: vec![field_input("Email", "   ", false), field_input("Note", "", false)],
        },
        "t".to_string(),
    );
    assert!(entry_is_empty(&blank), "blank values must be flagged empty");

    // A filled field value → not empty.
    let filled = create_entry(
        &mut model,
        EntryInput {
            service_ref: ServiceRef::Catalog {
                id: "facebook".to_string(),
            },
            title: None,
            fields: vec![field_input("Email", "me@example.com", false)],
        },
        "t".to_string(),
    );
    assert!(!entry_is_empty(&filled));
}

#[test]
fn entry_with_no_fields_is_empty() {
    let mut model = VaultModel::new();
    let entry = create_entry(
        &mut model,
        EntryInput {
            service_ref: ServiceRef::Catalog {
                id: "x".to_string(),
            },
            title: None,
            fields: vec![],
        },
        "t".to_string(),
    );
    assert!(entry_is_empty(&entry));
}

// ---- search index and paginated listing ----

/// Push a fully-formed entry directly into the model (bypassing the input
/// path) so tests can control ids deterministically for assertions.
fn push_entry(
    model: &mut VaultModel,
    id: &str,
    service_ref: ServiceRef,
    title: Option<&str>,
    fields: Vec<Field>,
) {
    model.entries.push(Entry {
        id: id.to_string(),
        service_ref,
        title: title.map(|t| t.to_string()),
        fields,
        created_at: "2024-01-01T00:00:00Z".to_string(),
        updated_at: "2024-01-01T00:00:00Z".to_string(),
    });
}

fn field(id: &str, label: &str, value: &str, secret: bool) -> Field {
    Field {
        id: id.to_string(),
        label: label.to_string(),
        field_type: if secret {
            FieldType::Password
        } else {
            FieldType::Text
        },
        value: value.to_string(),
        secret,
    }
}

/// A small model with a secret and a non-secret field on one entry, plus a
/// custom-service entry, used across the search tests.
fn search_model() -> VaultModel {
    let mut model = VaultModel::new();
    model.custom_services.push(CustomService {
        id: "svc-home".to_string(),
        name: "My Home Server".to_string(),
        icon: IconRef::Builtin {
            reference: "server.svg".to_string(),
        },
    });
    push_entry(
        &mut model,
        "e-fb",
        ServiceRef::Catalog {
            id: "facebook".to_string(),
        },
        Some("Personal"),
        vec![
            field("f1", "Email", "alice@example.com", false),
            field("f2", "Password", "S3cret-Passw0rd", true),
        ],
    );
    push_entry(
        &mut model,
        "e-home",
        ServiceRef::Custom {
            id: "svc-home".to_string(),
        },
        None,
        vec![
            field("f3", "Username", "homeadmin", false),
            field("f4", "Recovery code", "TOPSECRETCODE", true),
        ],
    );
    model
}

/// A secret field's **value** is never indexed, so a
/// search for it returns nothing — even though the value exists on an entry.
#[test]
fn secret_values_are_never_indexed_or_matched() {
    let model = search_model();

    // The exact secret values exist on entries...
    assert_eq!(model.entries[0].fields[1].value, "S3cret-Passw0rd");
    assert_eq!(model.entries[1].fields[1].value, "TOPSECRETCODE");

    // ...but searching for them matches nothing.
    for needle in ["S3cret-Passw0rd", "Passw0rd", "TOPSECRETCODE", "secretcode"] {
        let result = list_entries(&model, Some(needle.to_string()), None);
        assert_eq!(
            result.total, 0,
            "secret value '{needle}' must not be searchable"
        );
        assert!(result.entries.is_empty());
    }

    // And the raw index documents contain neither secret value.
    let index = SearchIndex::build(&model);
    for doc in &index.docs {
        assert!(
            !doc.text.contains("s3cret-passw0rd"),
            "index must not contain the password value"
        );
        assert!(
            !doc.text.contains("topsecretcode"),
            "index must not contain the recovery code value"
        );
    }
}

/// labels of secret fields are also excluded from the index, so
/// the whole secret field never appears (stronger than just hiding values).
#[test]
fn secret_field_labels_are_not_indexed() {
    let mut model = VaultModel::new();
    push_entry(
        &mut model,
        "e1",
        ServiceRef::Catalog {
            id: "example".to_string(),
        },
        None,
        vec![field("f1", "Backup MFA Seed", "abc", true)],
    );
    // The secret field's label must not make the entry findable.
    let result = list_entries(&model, Some("Backup MFA Seed".to_string()), None);
    assert_eq!(result.total, 0, "secret field labels must not be indexed");
}

/// Summaries carry no field values at all, and the non-secret snippet never
/// equals a secret value .
#[test]
fn summaries_exclude_secret_values_and_snippet_is_non_secret() {
    let model = search_model();
    let result = list_entries(&model, None, None);

    let fb = result
        .entries
        .iter()
        .find(|s| s.id == "e-fb")
        .expect("facebook summary present");
    // Snippet comes from the first non-secret field value, never the password.
    assert_eq!(fb.snippet.as_deref(), Some("alice@example.com"));
    assert_ne!(fb.snippet.as_deref(), Some("S3cret-Passw0rd"));
    assert_eq!(fb.title.as_deref(), Some("Personal"));

    // The home entry's first non-secret field is the username.
    let home = result
        .entries
        .iter()
        .find(|s| s.id == "e-home")
        .expect("home summary present");
    assert_eq!(home.snippet.as_deref(), Some("homeadmin"));
}

/// An entry whose only fields are secret yields no snippet (nothing
/// non-secret to preview).
#[test]
fn entry_with_only_secret_fields_has_no_snippet() {
    let mut model = VaultModel::new();
    push_entry(
        &mut model,
        "e1",
        ServiceRef::Catalog {
            id: "example".to_string(),
        },
        None,
        vec![field("f1", "Password", "hunter2", true)],
    );
    let result = list_entries(&model, None, None);
    assert_eq!(result.entries.len(), 1);
    assert_eq!(result.entries[0].snippet, None);
}

/// Filtering matches by service name/ref, title, non-secret label, and
/// non-secret value, case-insensitively.
#[test]
fn filtering_matches_service_title_label_and_nonsecret_value() {
    let model = search_model();

    // By catalog service ref id.
    let by_service = list_entries(&model, Some("facebook".to_string()), None);
    assert_eq!(by_service.total, 1);
    assert_eq!(by_service.entries[0].id, "e-fb");

    // By resolved custom-service name (case-insensitive).
    let by_custom = list_entries(&model, Some("home server".to_string()), None);
    assert_eq!(by_custom.total, 1);
    assert_eq!(by_custom.entries[0].id, "e-home");

    // By title.
    let by_title = list_entries(&model, Some("PERSONAL".to_string()), None);
    assert_eq!(by_title.total, 1);
    assert_eq!(by_title.entries[0].id, "e-fb");

    // By non-secret field label.
    let by_label = list_entries(&model, Some("username".to_string()), None);
    assert_eq!(by_label.total, 1);
    assert_eq!(by_label.entries[0].id, "e-home");

    // By non-secret field value.
    let by_value = list_entries(&model, Some("alice@example.com".to_string()), None);
    assert_eq!(by_value.total, 1);
    assert_eq!(by_value.entries[0].id, "e-fb");
}

/// A blank or absent query lists everything; multi-term queries AND together.
#[test]
fn empty_query_lists_all_and_terms_are_anded() {
    let model = search_model();

    assert_eq!(list_entries(&model, None, None).total, 2);
    assert_eq!(list_entries(&model, Some("   ".to_string()), None).total, 2);

    // Both terms present on the facebook entry (service + title) → match.
    let both = list_entries(&model, Some("facebook personal".to_string()), None);
    assert_eq!(both.total, 1);
    assert_eq!(both.entries[0].id, "e-fb");

    // One term that matches no single entry's document → no match (AND).
    let none = list_entries(&model, Some("facebook homeadmin".to_string()), None);
    assert_eq!(none.total, 0);
}

/// A query matching nothing returns an empty page with total 0.
#[test]
fn nonmatching_query_returns_empty() {
    let model = search_model();
    let result = list_entries(&model, Some("nonexistent-zzz".to_string()), None);
    assert_eq!(result.total, 0);
    assert!(result.entries.is_empty());
}

/// Pagination returns the correct slice and reports total/offset/limit; the
/// total reflects all matches, not just the returned page.
#[test]
fn pagination_returns_correct_slice_and_total() {
    let mut model = VaultModel::new();
    for i in 0..10 {
        push_entry(
            &mut model,
            &format!("e{i:02}"),
            ServiceRef::Catalog {
                id: "svc".to_string(),
            },
            Some(&format!("Entry {i}")),
            vec![field("f", "Note", &format!("value {i}"), false)],
        );
    }

    // First page of 3.
    let p0 = list_entries(
        &model,
        None,
        Some(Page {
            offset: 0,
            limit: 3,
        }),
    );
    assert_eq!(p0.total, 10, "total counts all matches, not the page size");
    assert_eq!(p0.offset, 0);
    assert_eq!(p0.limit, 3);
    let ids: Vec<_> = p0.entries.iter().map(|e| e.id.as_str()).collect();
    assert_eq!(ids, vec!["e00", "e01", "e02"]);

    // Middle page.
    let p1 = list_entries(
        &model,
        None,
        Some(Page {
            offset: 3,
            limit: 3,
        }),
    );
    let ids: Vec<_> = p1.entries.iter().map(|e| e.id.as_str()).collect();
    assert_eq!(ids, vec!["e03", "e04", "e05"]);

    // Last partial page (offset near the end returns only what remains).
    let p3 = list_entries(
        &model,
        None,
        Some(Page {
            offset: 9,
            limit: 3,
        }),
    );
    assert_eq!(p3.entries.len(), 1);
    assert_eq!(p3.entries[0].id, "e09");
    assert_eq!(p3.total, 10);

    // Offset past the end yields an empty page but still the real total.
    let past = list_entries(
        &model,
        None,
        Some(Page {
            offset: 50,
            limit: 3,
        }),
    );
    assert!(past.entries.is_empty());
    assert_eq!(past.total, 10);
}

/// Pagination is applied to the filtered set, not the whole vault.
#[test]
fn pagination_applies_after_filtering() {
    let mut model = VaultModel::new();
    // 5 matching ("apple") interleaved with 5 non-matching ("banana").
    for i in 0..5 {
        push_entry(
            &mut model,
            &format!("apple{i}"),
            ServiceRef::Catalog {
                id: "apple".to_string(),
            },
            None,
            vec![field("f", "Note", "x", false)],
        );
        push_entry(
            &mut model,
            &format!("banana{i}"),
            ServiceRef::Catalog {
                id: "banana".to_string(),
            },
            None,
            vec![field("f", "Note", "x", false)],
        );
    }

    let page = list_entries(
        &model,
        Some("apple".to_string()),
        Some(Page {
            offset: 2,
            limit: 2,
        }),
    );
    assert_eq!(page.total, 5, "only the 5 apple entries match");
    let ids: Vec<_> = page.entries.iter().map(|e| e.id.as_str()).collect();
    assert_eq!(ids, vec!["apple2", "apple3"]);
}

/// The default page (no `Page` supplied) uses offset 0 and the default limit.
#[test]
fn default_page_uses_default_limit() {
    let mut model = VaultModel::new();
    for i in 0..(DEFAULT_PAGE_LIMIT + 10) {
        push_entry(
            &mut model,
            &format!("e{i}"),
            ServiceRef::Catalog {
                id: "svc".to_string(),
            },
            None,
            vec![],
        );
    }
    let result = list_entries(&model, None, None);
    assert_eq!(result.total, DEFAULT_PAGE_LIMIT + 10);
    assert_eq!(result.offset, 0);
    assert_eq!(result.limit, DEFAULT_PAGE_LIMIT);
    assert_eq!(result.entries.len(), DEFAULT_PAGE_LIMIT);
}

/// Summary order follows model order so the list is stable/predictable.
#[test]
fn summaries_preserve_model_order() {
    let model = search_model();
    let result = list_entries(&model, None, None);
    let ids: Vec<_> = result.entries.iter().map(|e| e.id.as_str()).collect();
    assert_eq!(ids, vec!["e-fb", "e-home"]);
}

/// A long snippet value is truncated to the snippet character budget.
#[test]
fn snippet_is_truncated() {
    let mut model = VaultModel::new();
    let long = "a".repeat(SNIPPET_MAX_CHARS + 50);
    push_entry(
        &mut model,
        "e1",
        ServiceRef::Catalog {
            id: "svc".to_string(),
        },
        None,
        vec![field("f", "Note", &long, false)],
    );
    let result = list_entries(&model, None, None);
    let snippet = result.entries[0].snippet.as_deref().unwrap();
    // Truncated to SNIPPET_MAX_CHARS chars plus a single ellipsis marker.
    assert_eq!(snippet.chars().count(), SNIPPET_MAX_CHARS + 1);
    assert!(snippet.ends_with('…'));
}

#[test]
fn now_iso_is_rfc3339_with_whole_seconds() {
    let now = keyhaven::entries::now_iso();
    assert_eq!(now.len(), 20, "YYYY-MM-DDTHH:MM:SSZ: {now}");
    assert!(now.ends_with('Z'));
    assert_eq!(&now[10..11], "T");
}

/// Appending a term keeps only the earlier matches that also match it.
#[test]
fn adding_terms_only_narrows_the_matches() {
    let model = search_model();
    let index = SearchIndex::build(&model);
    assert_eq!(index.matching_indices(Some("facebook")), vec![0]);
    assert_eq!(index.matching_indices(Some("facebook personal")), vec![0]);
    assert_eq!(index.matching_indices(Some("facebook homeadmin")), Vec::<usize>::new());
    assert_eq!(index.matching_indices(Some("e")), vec![0, 1]);
    assert_eq!(index.matching_indices(Some("e username")), vec![1]);
}

/// Changing the labels and values of secret fields changes no listing.
#[test]
fn listing_does_not_depend_on_secret_fields() {
    let a = search_model();
    let mut b = search_model();
    b.entries[0].fields[1].value = "another-password".to_string();
    b.entries[1].fields[1].label = "Backup MFA Seed".to_string();
    b.entries[1].fields[1].value = "ZZZZ".to_string();
    for q in [None, Some("facebook"), Some("home"), Some("password"), Some("e"), Some("zzzz")] {
        for page in [None, Some(Page { offset: 0, limit: 1 }), Some(Page { offset: 1, limit: 5 })] {
            let la = list_entries(&a, q.map(|s| s.to_string()), page);
            let lb = list_entries(&b, q.map(|s| s.to_string()), page);
            assert_eq!(la, lb);
        }
    }
}
