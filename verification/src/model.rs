//! The decrypted vault contents: entries with their fields, user-defined
//! services, and the settings stored inside the vault.
//!
//! Every type has a view over `Seq<char>` texts that the contracts of the
//! entry, search and session logic speak of. The payload is the model as
//! JSON, compressed with DEFLATE: the JSON step happens outside the verified
//! core, the compression step is [`compress_payload`] and
//! [`decompress_payload`].

use flate2::read::DeflateDecoder;
use flate2::write::DeflateEncoder;
use flate2::Compression;
use std::io::{Read, Write};
use vstd::prelude::*;

use crate::vault::repository::ModelError;

verus! {

/// What kind of value a field holds (drives input widgets and masking).
#[derive(Debug, Clone, Copy, PartialEq, Eq, Structural)]
pub enum FieldType {
    Text,
    Email,
    Username,
    Password,
    Url,
    Phone,
    Note,
    Pin,
    Totp,
}

/// Copy an optional `String`.
pub fn copy_opt_string(s: &Option<String>) -> (r: Option<String>)
    ensures
        opt_view(*s) == opt_view(r),
{
    match s {
        Some(t) => Some(t.clone()),
        None => None,
    }
}

/// The view of an optional text.
pub open spec fn opt_view(s: Option<String>) -> Option<Seq<char>> {
    match s {
        Some(t) => Some(t@),
        None => None,
    }
}

/// The service an entry belongs to: one of the built-in catalog, or a custom
/// service stored in the vault.
#[derive(Debug, PartialEq, Eq)]
pub enum ServiceRef {
    Catalog { id: String },
    Custom { id: String },
}

/// The abstract content of a [`ServiceRef`].
pub enum ServiceRefSpec {
    Catalog { id: Seq<char> },
    Custom { id: Seq<char> },
}

impl View for ServiceRef {
    type V = ServiceRefSpec;

    open spec fn view(&self) -> ServiceRefSpec {
        match self {
            ServiceRef::Catalog { id } => ServiceRefSpec::Catalog { id: id@ },
            ServiceRef::Custom { id } => ServiceRefSpec::Custom { id: id@ },
        }
    }
}

impl Clone for ServiceRef {
    fn clone(&self) -> (r: Self)
        ensures
            r@ == self@,
    {
        match self {
            ServiceRef::Catalog { id } => ServiceRef::Catalog { id: id.clone() },
            ServiceRef::Custom { id } => ServiceRef::Custom { id: id.clone() },
        }
    }
}

/// One labelled value of an entry. Secret fields are masked in the UI and
/// never indexed for search or shown in summaries.
#[derive(Debug, PartialEq, Eq)]
pub struct Field {
    pub id: String,
    pub label: String,
    pub field_type: FieldType,
    pub value: String,
    pub secret: bool,
}

/// The abstract content of a [`Field`].
pub struct FieldSpec {
    pub id: Seq<char>,
    pub label: Seq<char>,
    pub field_type: FieldType,
    pub value: Seq<char>,
    pub secret: bool,
}

impl View for Field {
    type V = FieldSpec;

    open spec fn view(&self) -> FieldSpec {
        FieldSpec {
            id: self.id@,
            label: self.label@,
            field_type: self.field_type,
            value: self.value@,
            secret: self.secret,
        }
    }
}

impl Clone for Field {
    fn clone(&self) -> (r: Self)
        ensures
            r@ == self@,
    {
        Field {
            id: self.id.clone(),
            label: self.label.clone(),
            field_type: self.field_type,
            value: self.value.clone(),
            secret: self.secret,
        }
    }
}

/// The views of a sequence of fields.
pub open spec fn fields_view(fields: Seq<Field>) -> Seq<FieldSpec> {
    fields.map_values(|f: Field| f@)
}

/// Copy a list of fields, keeping each one's content.
pub fn copy_fields(fields: &Vec<Field>) -> (r: Vec<Field>)
    ensures
        fields_view(r@) == fields_view(fields@),
{
    let mut out: Vec<Field> = Vec::new();
    let mut i: usize = 0;
    while i < fields.len()
        invariant
            i <= fields@.len(),
            out@.len() == i,
            forall|k: int| 0 <= k < i ==> #[trigger] out@[k]@ == fields@[k]@,
        decreases fields@.len() - i,
    {
        let f = fields[i].clone();
        out.push(f);
        i = i + 1;
    }
    assert(fields_view(out@) =~= fields_view(fields@));
    out
}

/// A stored credential: a service, an optional title and its fields, with
/// RFC 3339 creation and update times.
#[derive(Debug, PartialEq, Eq)]
pub struct Entry {
    pub id: String,
    pub service_ref: ServiceRef,
    pub title: Option<String>,
    pub fields: Vec<Field>,
    pub created_at: String,
    pub updated_at: String,
}

/// The abstract content of an [`Entry`].
pub struct EntrySpec {
    pub id: Seq<char>,
    pub service_ref: ServiceRefSpec,
    pub title: Option<Seq<char>>,
    pub fields: Seq<FieldSpec>,
    pub created_at: Seq<char>,
    pub updated_at: Seq<char>,
}

impl View for Entry {
    type V = EntrySpec;

    open spec fn view(&self) -> EntrySpec {
        EntrySpec {
            id: self.id@,
            service_ref: self.service_ref@,
            title: opt_view(self.title),
            fields: fields_view(self.fields@),
            created_at: self.created_at@,
            updated_at: self.updated_at@,
        }
    }
}

impl Clone for Entry {
    fn clone(&self) -> (r: Self)
        ensures
            r@ == self@,
    {
        Entry {
            id: self.id.clone(),
            service_ref: self.service_ref.clone(),
            title: copy_opt_string(&self.title),
            fields: copy_fields(&self.fields),
            created_at: self.created_at.clone(),
            updated_at: self.updated_at.clone(),
        }
    }
}

/// The views of a sequence of entries.
pub open spec fn entries_view(entries: Seq<Entry>) -> Seq<EntrySpec> {
    entries.map_values(|e: Entry| e@)
}

/// How a custom service's icon is given: a bundled icon by name, or an
/// inline data URL.
#[derive(Debug, PartialEq, Eq)]
pub enum IconRef {
    Builtin { reference: String },
    Data { reference: String },
}

/// The abstract content of an [`IconRef`].
pub enum IconRefSpec {
    Builtin { reference: Seq<char> },
    Data { reference: Seq<char> },
}

impl View for IconRef {
    type V = IconRefSpec;

    open spec fn view(&self) -> IconRefSpec {
        match self {
            IconRef::Builtin { reference } => IconRefSpec::Builtin { reference: reference@ },
            IconRef::Data { reference } => IconRefSpec::Data { reference: reference@ },
        }
    }
}

impl Clone for IconRef {
    fn clone(&self) -> (r: Self)
        ensures
            r@ == self@,
    {
        match self {
            IconRef::Builtin { reference } => IconRef::Builtin { reference: reference.clone() },
            IconRef::Data { reference } => IconRef::Data { reference: reference.clone() },
        }
    }
}

/// A service defined by the user (not in the built-in catalog).
#[derive(Debug, PartialEq, Eq)]
pub struct CustomService {
    pub id: String,
    pub name: String,
    pub icon: IconRef,
}

/// The abstract content of a [`CustomService`].
pub struct CustomServiceSpec {
    pub id: Seq<char>,
    pub name: Seq<char>,
    pub icon: IconRefSpec,
}

impl View for CustomService {
    type V = CustomServiceSpec;

    open spec fn view(&self) -> CustomServiceSpec {
        CustomServiceSpec { id: self.id@, name: self.name@, icon: self.icon@ }
    }
}

impl Clone for CustomService {
    fn clone(&self) -> (r: Self)
        ensures
            r@ == self@,
    {
        CustomService { id: self.id.clone(), name: self.name.clone(), icon: self.icon.clone() }
    }
}

/// The views of a sequence of custom services.
pub open spec fn services_view(services: Seq<CustomService>) -> Seq<CustomServiceSpec> {
    services.map_values(|s: CustomService| s@)
}

/// The password generator's stored defaults.
#[derive(Debug, Clone, Copy, PartialEq, Eq, Structural)]
pub struct PasswordGenDefaults {
    pub length: u32,
    pub upper: bool,
    pub lower: bool,
    pub digits: bool,
    pub symbols: bool,
}

impl Default for PasswordGenDefaults {
    /// Twenty characters from all four character sets.
    fn default() -> (d: Self)
        ensures
            d == (PasswordGenDefaults { length: 20, upper: true, lower: true, digits: true, symbols: true }),
    {
        PasswordGenDefaults { length: 20, upper: true, lower: true, digits: true, symbols: true }
    }
}

/// User settings, stored encrypted inside the vault.
#[derive(Debug, Clone, Copy, PartialEq, Eq, Structural)]
pub struct Settings {
    /// Seconds of inactivity before the vault locks; 0 disables auto-lock.
    pub auto_lock_seconds: u32,
    /// Lock as soon as the window loses focus.
    pub lock_on_blur: bool,
    /// Seconds before a copied secret is cleared from the clipboard; 0 keeps it.
    pub clipboard_clear_seconds: u32,
    /// Defaults for the password generator.
    pub password_gen_defaults: PasswordGenDefaults,
}

/// The default settings: auto-lock after five minutes, no lock on blur,
/// clipboard cleared after twenty seconds, default generator options.
pub open spec fn default_settings() -> Settings {
    Settings {
        auto_lock_seconds: 300,
        lock_on_blur: false,
        clipboard_clear_seconds: 20,
        password_gen_defaults: PasswordGenDefaults { length: 20, upper: true, lower: true, digits: true, symbols: true },
    }
}

impl Default for Settings {
    fn default() -> (s: Self)
        ensures
            s == default_settings(),
    {
        Settings {
            auto_lock_seconds: 300,
            lock_on_blur: false,
            clipboard_clear_seconds: 20,
            password_gen_defaults: PasswordGenDefaults::default(),
        }
    }
}

/// Everything the vault payload holds.
#[derive(Debug, PartialEq, Eq)]
pub struct VaultModel {
    pub entries: Vec<Entry>,
    pub custom_services: Vec<CustomService>,
    pub settings: Settings,
}

/// The abstract content of a [`VaultModel`].
pub struct VaultModelSpec {
    pub entries: Seq<EntrySpec>,
    pub custom_services: Seq<CustomServiceSpec>,
    pub settings: Settings,
}

impl View for VaultModel {
    type V = VaultModelSpec;

    open spec fn view(&self) -> VaultModelSpec {
        VaultModelSpec {
            entries: entries_view(self.entries@),
            custom_services: services_view(self.custom_services@),
            settings: self.settings,
        }
    }
}

impl VaultModel {
    /// An empty vault with default settings.
    pub fn new() -> (m: Self)
        ensures
            m@.entries.len() == 0,
            m@.custom_services.len() == 0,
            m@.settings == default_settings(),
    {
        VaultModel { entries: Vec::new(), custom_services: Vec::new(), settings: Settings::default() }
    }
}

impl Clone for VaultModel {
    fn clone(&self) -> (r: Self)
        ensures
            r@ == self@,
    {
        let mut entries: Vec<Entry> = Vec::new();
        let mut i: usize = 0;
        while i < self.entries.len()
            invariant
                i <= self.entries@.len(),
                entries@.len() == i,
                forall|k: int| 0 <= k < i ==> #[trigger] entries@[k]@ == self.entries@[k]@,
            decreases self.entries@.len() - i,
        {
            entries.push(self.entries[i].clone());
            i = i + 1;
        }
        assert(entries_view(entries@) =~= entries_view(self.entries@));
        let mut services: Vec<CustomService> = Vec::new();
        let mut j: usize = 0;
        while j < self.custom_services.len()
            invariant
                j <= self.custom_services@.len(),
                services@.len() == j,
                forall|k: int| 0 <= k < j ==> #[trigger] services@[k]@ == self.custom_services@[k]@,
            decreases self.custom_services@.len() - j,
        {
            services.push(self.custom_services[j].clone());
            j = j + 1;
        }
        assert(services_view(services@) =~= services_view(self.custom_services@));
        VaultModel { entries, custom_services: services, settings: self.settings }
    }
}

/// The DEFLATE stream that flate2's encoder writes for `data` at the default
/// compression level.
pub uninterp spec fn deflated(data: Seq<u8>) -> Seq<u8>;

/// What flate2's DEFLATE decoder reads from `stream`: `None` when it reports
/// the stream as corrupt or incomplete.
pub uninterp spec fn inflated(stream: Seq<u8>) -> Option<Seq<u8>>;

/// Calls `DeflateEncoder::new(Vec::new(), Compression::default())`,
/// `write_all(data)` and `finish()`. Claimed: it succeeds (the sink is an
/// in-memory `Vec`, which never fails, and the miniz_oxide backend reports
/// errors only for misuse of its stream state, which this sequence of calls
/// never makes), and the result is `deflated(data)`.
#[verifier::external_body]
fn deflate(data: &[u8]) -> (r: Result<Vec<u8>, String>)
    ensures
        r is Ok,
        r matches Ok(out) ==> out@ == deflated(data@),
{
    let mut encoder = DeflateEncoder::new(Vec::new(), Compression::default());
    encoder.write_all(data).map_err(|e| e.to_string())?;
    encoder.finish().map_err(|e| e.to_string())
}

/// Whether a decoding result is the data `d`.
pub open spec fn decoded_to(r: Result<Vec<u8>, String>, d: Seq<u8>) -> bool {
    r matches Ok(out) && out@ == d
}

/// Calls `DeflateDecoder::new(stream).read_to_end(..)`. Claimed: the result
/// is `inflated(stream)` (the error's text is not described), and (DEFLATE
/// is lossless) a stream that the encoder wrote for some data decodes to
/// that data.
#[verifier::external_body]
fn inflate(stream: &[u8]) -> (r: Result<Vec<u8>, String>)
    ensures
        match r {
            Ok(out) => inflated(stream@) == Some(out@),
            Err(_) => inflated(stream@) is None,
        },
        forall|d: Seq<u8>| #[trigger] deflated(d) == stream@ ==> decoded_to(r, d),
{
    let mut out = Vec::new();
    DeflateDecoder::new(stream).read_to_end(&mut out).map_err(|e| e.to_string())?;
    Ok(out)
}

/// Compress the serialized model (its JSON bytes) into payload bytes. It
/// always succeeds.
pub fn compress_payload(json: &[u8]) -> (r: Result<Vec<u8>, ModelError>)
    ensures
        r matches Ok(out) && out@ == deflated(json@),
{
    match deflate(json) {
        Ok(out) => Ok(out),
        Err(msg) => Err(ModelError::Serialize(msg)),
    }
}

/// Decompress payload bytes back into the serialized model. Fails with
/// [`ModelError::Deserialize`] exactly when the bytes are not a DEFLATE
/// stream; what [`compress_payload`] made always comes back unchanged.
pub fn decompress_payload(bytes: &[u8]) -> (r: Result<Vec<u8>, ModelError>)
    ensures
        match r {
            Ok(out) => inflated(bytes@) == Some(out@),
            Err(e) => inflated(bytes@) is None && e is Deserialize,
        },
        forall|json: Seq<u8>| #[trigger] deflated(json) == bytes@ ==> (r matches Ok(out) && out@ == json),
{
    match inflate(bytes) {
        Ok(out) => Ok(out),
        Err(msg) => Err(ModelError::Deserialize(msg)),
    }
}

} // verus!
