//! The decisions behind the interface's commands: input validation, the
//! summaries and results handed back, the entry, custom-service and clipboard
//! operations on an unlocked vault's model, import validation, and the text
//! of a saved recovery-key file. Reading and writing files, the clipboard
//! and the window events are driven from outside the verified core.

use vstd::prelude::*;
use vstd::string::StrSliceExecFns;

use crate::catalog::{builtin_catalog_spec, catalog_hits, catalog_query, catalog_view, search_catalog, CatalogService};
use crate::entries::{
    create_entry, delete_entry, described_by, entry_is_empty, first_with_id, get_entry, is_empty_entry, new_id,
    no_entry_with_id, update_entry, uuid_v4_text, without_id, EntryInput,
};
use crate::error::KeyhavenError;
use crate::model::{
    services_view, CustomService, CustomServiceSpec, Entry, FieldSpec, IconRef,
    VaultModel,
};
use crate::text::{is_blank, str_eq, trim, trimmed};
use crate::vault::header::decode;
use crate::vault::repository::{encodes, format_rejects, OpenVault};
use crate::vault::{VaultFormatError, VaultRepoError};

verus! {

/// What creating a vault hands back: the one-time recovery key, present only
/// when one was requested.
#[derive(Debug)]
pub struct CreateVaultResult {
    pub recovery_key: Option<String>,
}

/// A non-secret summary of an unlocked vault.
#[derive(Debug, Clone, Copy, PartialEq, Eq, Structural)]
pub struct VaultSummary {
    /// Whether the vault has a recovery key.
    pub has_recovery: bool,
    /// How many entries it holds.
    pub entry_count: usize,
    /// Whether it was opened with the recovery key (the interface then asks
    /// for a new master password).
    pub unlocked_via_recovery: bool,
}

/// The saved entry and whether the interface should warn that it is empty
/// (saving is never blocked for that).
#[derive(Debug)]
pub struct EntrySaveResult {
    pub entry: Entry,
    pub empty_warning: bool,
}

/// A custom service as listed next to the catalog, flagged as custom.
#[derive(Debug, PartialEq, Eq)]
pub struct CustomServiceView {
    pub id: String,
    pub name: String,
    pub icon: IconRef,
    pub custom: bool,
}

impl CustomServiceView {
    /// Whether this view shows `s`.
    pub open spec fn shows(&self, s: CustomServiceSpec) -> bool {
        self.id@ == s.id && self.name@ == s.name && self.icon@ == s.icon && self.custom
    }
}

impl<'a> From<&'a CustomService> for CustomServiceView {
    fn from(service: &'a CustomService) -> (v: Self)
        ensures
            v.shows(service@),
    {
        CustomServiceView {
            id: service.id.clone(),
            name: service.name.clone(),
            icon: service.icon.clone(),
            custom: true,
        }
    }
}

/// The view is described by the `ensures` of `from` (it copies texts).
impl<'a> vstd::std_specs::convert::FromSpecImpl<&'a CustomService> for CustomServiceView {
    open spec fn obeys_from_spec() -> bool {
        false
    }

    open spec fn from_spec(service: &'a CustomService) -> Self {
        arbitrary()
    }
}

/// Reject an empty argument with an invalid-input error carrying `message`.
pub fn require_non_empty(value: &str, message: &str) -> (r: Result<(), KeyhavenError>)
    ensures
        r is Err <==> value@.len() == 0,
        r matches Err(e) ==> e.is_invalid_input(message@),
{
    if value.unicode_len() == 0 {
        Err(KeyhavenError::InvalidInput { message: message.to_string() })
    } else {
        Ok(())
    }
}

/// The summary of an open vault; `via_recovery` records how it was opened.
pub fn summarize(vault: &OpenVault, via_recovery: bool) -> (s: VaultSummary)
    ensures
        s.has_recovery == vault@.file.recovery is Some,
        s.entry_count == vault@.model.entries.len(),
        s.unlocked_via_recovery == via_recovery,
{
    VaultSummary {
        has_recovery: vault.has_recovery(),
        entry_count: vault.model().entries.len(),
        unlocked_via_recovery: via_recovery,
    }
}

/// A copy of the first entry with id `id`; an unknown id is invalid input.
pub fn entry_by_id(model: &VaultModel, id: &str) -> (r: Result<Entry, KeyhavenError>)
    ensures
        match r {
            Ok(e) => exists|k: int| first_with_id(model@.entries, id@, k) && e@ == #[trigger] model@.entries[k],
            Err(e) => no_entry_with_id(model@.entries, id@) && e.is_invalid_input("no entry with that id exists"@),
        },
{
    match get_entry(model, id) {
        Some(e) => Ok(e.clone()),
        None => Err(KeyhavenError::InvalidInput { message: "no entry with that id exists".to_string() }),
    }
}

/// Create an entry from `input` at time `now` and flag it when it is empty.
pub fn create_entry_result(model: &mut VaultModel, input: EntryInput, now: String) -> (r: EntrySaveResult)
    ensures
        final(model)@.entries == old(model)@.entries.push(r.entry@),
        final(model)@.custom_services == old(model)@.custom_services,
        final(model)@.settings == old(model)@.settings,
        described_by(r.entry@, input),
        r.entry@.created_at == now@ && r.entry@.updated_at == now@,
        r.empty_warning == is_empty_entry(r.entry@),
{
    let entry = create_entry(model, input, now);
    let empty_warning = entry_is_empty(&entry);
    EntrySaveResult { entry, empty_warning }
}

/// Update the entry with id `id` from `input` at time `now` and flag it when
/// it is empty; an unknown id is invalid input and changes nothing.
pub fn update_entry_result(model: &mut VaultModel, id: &str, input: EntryInput, now: String) -> (r: Result<EntrySaveResult, KeyhavenError>)
    ensures
        match r {
            Ok(s) => exists|k: int| {
                &&& first_with_id(old(model)@.entries, id@, k)
                &&& final(model)@.entries == old(model)@.entries.update(k, s.entry@)
                &&& s.entry@.id == old(model)@.entries[k].id
                &&& s.entry@.created_at == old(model)@.entries[k].created_at
                &&& #[trigger] described_by(s.entry@, input)
                &&& s.entry@.updated_at == now@
            } && s.empty_warning == is_empty_entry(s.entry@),
            Err(e) => no_entry_with_id(old(model)@.entries, id@) && final(model)@ == old(model)@
                && e.is_invalid_input("no entry with that id exists"@),
        },
        final(model)@.custom_services == old(model)@.custom_services,
        final(model)@.settings == old(model)@.settings,
{
    match update_entry(model, id, input, now) {
        Ok(entry) => {
            let empty_warning = entry_is_empty(&entry);
            Ok(EntrySaveResult { entry, empty_warning })
        },
        Err(e) => Err(KeyhavenError::from(e)),
    }
}

/// Delete every entry with id `id`; an unknown id is invalid input and
/// changes nothing.
pub fn delete_entry_in(model: &mut VaultModel, id: &str) -> (r: Result<(), KeyhavenError>)
    ensures
        final(model)@.entries == without_id(old(model)@.entries, id@),
        final(model)@.custom_services == old(model)@.custom_services,
        final(model)@.settings == old(model)@.settings,
        r is Err <==> no_entry_with_id(old(model)@.entries, id@),
        r matches Err(e) ==> e.is_invalid_input("no entry with that id exists"@),
{
    match delete_entry(model, id) {
        Ok(()) => Ok(()),
        Err(e) => Err(KeyhavenError::from(e)),
    }
}

/// Search the built-in catalog (needs no unlocked vault; never fails).
pub fn search_catalog_impl(query: &str) -> (r: Result<Vec<CatalogService>, KeyhavenError>)
    ensures
        r matches Ok(found) && catalog_view(found@) == catalog_hits(builtin_catalog_spec(), catalog_query(query@)),
{
    Ok(search_catalog(query))
}

/// The custom services of a model as listed views, in order.
pub fn list_custom_services_in(model: &VaultModel) -> (r: Vec<CustomServiceView>)
    ensures
        r@.len() == model@.custom_services.len(),
        forall|k: int| 0 <= k < r@.len() ==> (#[trigger] r@[k]).shows(model@.custom_services[k]),
{
    let mut out: Vec<CustomServiceView> = Vec::new();
    let mut i: usize = 0;
    while i < model.custom_services.len()
        invariant
            i <= model.custom_services@.len(),
            out@.len() == i,
            forall|k: int| 0 <= k < i ==> (#[trigger] out@[k]).shows(model@.custom_services[k]),
        decreases model.custom_services@.len() - i,
    {
        let v = CustomServiceView::from(&model.custom_services[i]);
        assert(model@.custom_services[i as int] == model.custom_services@[i as int]@);
        out.push(v);
        i = i + 1;
    }
    out
}

/// Check a custom service's name before anything else: a blank name is
/// invalid input.
pub fn check_service_name(name: &str) -> (r: Result<(), KeyhavenError>)
    ensures
        r is Ok <==> trimmed(name@).len() > 0,
        r matches Err(e) ==> e.is_invalid_input("service name must not be empty"@),
{
    if is_blank(name) {
        Err(KeyhavenError::InvalidInput { message: "service name must not be empty".to_string() })
    } else {
        Ok(())
    }
}

/// Add a custom service named `name` (trimmed) with `icon` and a fresh id at
/// the end of the model's custom services. A blank name is invalid input and
/// changes nothing.
pub fn add_custom_service(model: &mut VaultModel, name: &str, icon: IconRef) -> (r: Result<CustomServiceView, KeyhavenError>)
    ensures
        match r {
            Ok(v) => {
                &&& trimmed(name@).len() > 0
                &&& final(model)@.custom_services == old(model)@.custom_services.push(CustomServiceSpec {
                    id: v.id@,
                    name: trimmed(name@),
                    icon: icon@,
                })
                &&& v.name@ == trimmed(name@)
                &&& v.icon@ == icon@
                &&& v.custom
                &&& uuid_v4_text(v.id@)
                &&& final(model)@.entries == old(model)@.entries
                &&& final(model)@.settings == old(model)@.settings
            },
            Err(e) => trimmed(name@).len() == 0 && e.is_invalid_input("service name must not be empty"@)
                && final(model)@ == old(model)@,
        },
{
    let trimmed_name = trim(name);
    if trimmed_name.as_str().unicode_len() == 0 {
        return Err(KeyhavenError::InvalidInput { message: "service name must not be empty".to_string() });
    }
    let service = CustomService { id: new_id(), name: trimmed_name, icon };
    let view = CustomServiceView::from(&service);
    let ghost before = model.custom_services@;
    model.custom_services.push(service);
    assert(services_view(model.custom_services@) =~= services_view(before).push(CustomServiceSpec {
        id: view.id@,
        name: trimmed(name@),
        icon: icon@,
    }));
    Ok(view)
}

/// Whether `k` is the position of the first field with id `id`.
pub open spec fn first_field_with_id(fields: Seq<FieldSpec>, id: Seq<char>, k: int) -> bool {
    &&& 0 <= k < fields.len()
    &&& fields[k].id == id
    &&& forall|j: int| 0 <= j < k ==> (#[trigger] fields[j]).id != id
}

/// The value of field `field_id` of entry `entry_id` (first matches), with
/// the clipboard clear delay from the settings. An unknown entry or field is
/// invalid input.
pub fn lookup_field_value(model: &VaultModel, entry_id: &str, field_id: &str) -> (r: Result<(String, u32), KeyhavenError>)
    ensures
        match r {
            Ok((value, clear_seconds)) => clear_seconds == model@.settings.clipboard_clear_seconds
                && exists|k: int, j: int| first_with_id(model@.entries, entry_id@, k)
                    && first_field_with_id(model@.entries[k].fields, field_id@, j)
                    && value@ == (#[trigger] model@.entries[k].fields[j]).value,
            Err(e) => no_entry_with_id(model@.entries, entry_id@) && e.is_invalid_input("no entry with that id exists"@)
                || (exists|k: int| first_with_id(model@.entries, entry_id@, k)
                    && forall|j: int| 0 <= j < model@.entries[k].fields.len()
                        ==> (#[trigger] model@.entries[k].fields[j]).id != field_id@)
                    && e.is_invalid_input("no field with that id exists"@),
        },
{
    let k = match crate::entries::find_entry(model, entry_id) {
        Some(k) => k,
        None => {
            return Err(KeyhavenError::InvalidInput { message: "no entry with that id exists".to_string() });
        },
    };
    let entry = &model.entries[k];
    let ghost fs = model@.entries[k as int].fields;
    assert(fs == crate::model::fields_view(entry.fields@));
    let mut j: usize = 0;
    while j < entry.fields.len()
        invariant
            j <= entry.fields@.len(),
            fs == crate::model::fields_view(entry.fields@),
            fs == model@.entries[k as int].fields,
            first_with_id(model@.entries, entry_id@, k as int),
            forall|t: int| 0 <= t < j ==> (#[trigger] fs[t]).id != field_id@,
        decreases entry.fields@.len() - j,
    {
        assert(fs[j as int] == entry.fields@[j as int]@);
        if str_eq(entry.fields[j].id.as_str(), field_id) {
            let value = entry.fields[j].value.clone();
            assert(first_with_id(model@.entries, entry_id@, k as int));
            assert(first_field_with_id(model@.entries[k as int].fields, field_id@, j as int));
            assert(value@ == model@.entries[k as int].fields[j as int].value);
            return Ok((value, model.settings.clipboard_clear_seconds));
        }
        j = j + 1;
    }
    Err(KeyhavenError::InvalidInput { message: "no field with that id exists".to_string() })
}

/// Whether the clipboard may be cleared: only while it still holds exactly
/// the copied text (not after the user copied something else, and not when
/// it cannot be read as text).
pub fn should_clear_clipboard(current: Option<&str>, copied: &str) -> (r: bool)
    ensures
        r == (current matches Some(c) && c@ == copied@),
{
    match current {
        Some(c) => str_eq(c, copied),
        None => false,
    }
}

/// Check that `bytes` is a readable vault file before importing it: the
/// reason it is not is reported as the matching user-facing error.
pub fn check_vault_bytes(bytes: &[u8]) -> (r: Result<(), KeyhavenError>)
    ensures
        r is Ok <==> exists|f| #[trigger] encodes(f, bytes@),
        r matches Err(e) ==> exists|fe: VaultFormatError| format_rejects(bytes@, fe) && (match fe {
            VaultFormatError::IncompatibleVersion { .. } => e == KeyhavenError::IncompatibleVersion,
            _ => e == KeyhavenError::VaultCorrupted,
        }),
{
    match decode(bytes) {
        Ok(f) => {
            assert(encodes(f@, bytes@));
            Ok(())
        },
        Err(e) => {
            proof {
                assert forall|f| !#[trigger] encodes(f, bytes@) by {
                    if encodes(f, bytes@) {
                        crate::vault::header::lemma_layout_unique(f);
                    }
                }
            }
            assert(format_rejects(bytes@, e));
            let ghost fe = e;
            let r = KeyhavenError::from(VaultRepoError::Format(e));
            assert(match fe {
                VaultFormatError::IncompatibleVersion { .. } => r == KeyhavenError::IncompatibleVersion,
                _ => r == KeyhavenError::VaultCorrupted,
            });
            Err(r)
        },
    }
}

/// The text of a saved recovery-key file, with Windows line endings.
pub open spec fn recovery_key_file(key: Seq<char>, generated: Seq<char>) -> Seq<char> {
    "Keyhaven Recovery Key\r\n=====================\r\n\r\nKeep this key private and safe. Anyone who has it can unlock your vault.\r\nStore it somewhere separate from this computer.\r\n\r\nThis key is the ONLY way back into your vault if you forget your master\r\npassword. Keyhaven cannot recover it for you.\r\n\r\nRecovery key:\r\n"@
        + key + "\r\n\r\nGenerated: "@ + generated + "\r\n"@
}

/// The recovery-key file text for `recovery_key`, stamped `generated`.
pub fn recovery_key_file_text(recovery_key: &str, generated: &str) -> (s: String)
    ensures
        s@ == recovery_key_file(recovery_key@, generated@),
{
    let mut s = "Keyhaven Recovery Key\r\n=====================\r\n\r\nKeep this key private and safe. Anyone who has it can unlock your vault.\r\nStore it somewhere separate from this computer.\r\n\r\nThis key is the ONLY way back into your vault if you forget your master\r\npassword. Keyhaven cannot recover it for you.\r\n\r\nRecovery key:\r\n".to_string();
    s.append(recovery_key);
    s.append("\r\n\r\nGenerated: ");
    s.append(generated);
    s.append("\r\n");
    s
}

/// Calls `chrono::Utc::now().to_rfc3339()`. The current time is not
/// described.
#[verifier::external_body]
fn utc_now_rfc3339() -> String {
    chrono::Utc::now().to_rfc3339()
}

/// The recovery-key file text for `recovery_key`, stamped with the current
/// UTC time.
pub fn format_recovery_key_file(recovery_key: &str) -> (s: String)
    ensures
        exists|generated: Seq<char>| s@ == #[trigger] recovery_key_file(recovery_key@, generated),
{
    let generated = utc_now_rfc3339();
    recovery_key_file_text(recovery_key, generated.as_str())
}

} // verus!
