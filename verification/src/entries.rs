//! Entry repository: create, read, update and delete entries of the decrypted
//! vault model, the empty-entry warning, and search / pagination over entry
//! summaries.
//!
//! The functions work on a borrowed [`VaultModel`] and do no I/O; the current
//! time is passed in. Secret fields are never indexed for search and never
//! appear in summaries.

use uuid::Uuid;
use vstd::prelude::*;

use crate::model::{
    copy_opt_string, entries_view, fields_view, opt_view, CustomServiceSpec, Entry, EntrySpec,
    Field, FieldSpec, FieldType, ServiceRef, ServiceRefSpec, VaultModel,
};
use crate::text::{
    chars_of, contains, contains_chars, occurs_at, is_blank, join_lines, join_with_newlines, lowercase,
    split_whitespace, str_eq, to_lowercase, trim, trimmed, truncate_chars, truncated, words,
};

verus! {

/// Errors of the entry operations.
#[derive(Debug, Clone, Copy, PartialEq, Eq, Structural)]
pub enum EntryError {
    /// No entry has the requested id.
    NotFound,
}

impl EntryError {
    /// The human-readable description of this error.
    pub fn to_string(&self) -> (s: String)
        ensures
            s@ == "no entry with that id exists"@,
    {
        "no entry with that id exists".to_string()
    }
}

/// One field as the caller describes it. A field that already exists keeps
/// its identity by carrying its `id`; a new field has none and gets a fresh one.
#[derive(Debug)]
pub struct FieldInput {
    pub id: Option<String>,
    pub label: String,
    pub field_type: FieldType,
    pub value: String,
    pub secret: bool,
}

/// The abstract content of a [`FieldInput`].
pub struct FieldInputSpec {
    pub id: Option<Seq<char>>,
    pub label: Seq<char>,
    pub field_type: FieldType,
    pub value: Seq<char>,
    pub secret: bool,
}

impl View for FieldInput {
    type V = FieldInputSpec;

    open spec fn view(&self) -> FieldInputSpec {
        FieldInputSpec {
            id: opt_view(self.id),
            label: self.label@,
            field_type: self.field_type,
            value: self.value@,
            secret: self.secret,
        }
    }
}

/// An entry as the caller describes it on create or update. The stored field
/// set is replaced wholesale by `fields`.
#[derive(Debug)]
pub struct EntryInput {
    pub service_ref: ServiceRef,
    pub title: Option<String>,
    pub fields: Vec<FieldInput>,
}

/// The views of a sequence of field inputs.
pub open spec fn inputs_view(fields: Seq<FieldInput>) -> Seq<FieldInputSpec> {
    fields.map_values(|f: FieldInput| f@)
}

/// Whether `out` is the field list built from `ins`: the same labels, types,
/// values and secrecy in the same order, each keeping the id its input
/// carried (an input without id gets a fresh version-4 UUID).
pub open spec fn fields_built(ins: Seq<FieldInputSpec>, out: Seq<FieldSpec>) -> bool {
    &&& out.len() == ins.len()
    &&& forall|k: int| 0 <= k < ins.len() ==> {
        &&& (#[trigger] out[k]).label == ins[k].label
        &&& out[k].field_type == ins[k].field_type
        &&& out[k].value == ins[k].value
        &&& out[k].secret == ins[k].secret
        &&& (ins[k].id matches Some(x) ==> out[k].id == x)
        &&& (ins[k].id is None ==> uuid_v4_text(out[k].id))
    }
}

/// Whether `e` is the entry that `input` describes (ignoring id and times).
pub open spec fn described_by(e: EntrySpec, input: EntryInput) -> bool {
    &&& e.service_ref == input.service_ref@
    &&& e.title == opt_view(input.title)
    &&& fields_built(inputs_view(input.fields@), e.fields)
}

/// Calls `chrono::Utc::now().to_rfc3339_opts(SecondsFormat::Secs, true)`:
/// the current UTC time as RFC 3339 with whole seconds and a `Z` suffix,
/// used to stamp entries. The time itself is not described.
#[verifier::external_body]
pub fn now_iso() -> String {
    chrono::Utc::now().to_rfc3339_opts(chrono::SecondsFormat::Secs, true)
}

/// Whether `c` is a lower-case hexadecimal digit.
pub open spec fn lower_hex(c: char) -> bool {
    (48 <= (c as int) <= 57) || (97 <= (c as int) <= 102)
}

/// Whether `s` is the hyphenated lower-case text of a version-4 UUID: 36
/// characters, hyphens at 8, 13, 18 and 23, hex digits elsewhere, the
/// version digit `4` and a variant digit among `8`, `9`, `a`, `b`.
pub open spec fn uuid_v4_text(s: Seq<char>) -> bool {
    &&& s.len() == 36
    &&& forall|k: int| 0 <= k < 36 ==> (if k == 8 || k == 13 || k == 18 || k == 23 {
        #[trigger] s[k] == '-'
    } else {
        lower_hex(s[k])
    })
    &&& s[14] == '4'
    &&& (s[19] == '8' || s[19] == '9' || s[19] == 'a' || s[19] == 'b')
}

/// Calls `Uuid::new_v4().to_string()`. Claimed (uuid's source: `new_v4`
/// masks in the version and variant bits, `Display` writes the hyphenated
/// lower-case form): the result is the text of a version-4 UUID. Its random
/// digits are not described.
#[verifier::external_body]
pub(crate) fn new_id() -> (r: String)
    ensures
        uuid_v4_text(r@),
{
    Uuid::new_v4().to_string()
}

/// Build the stored fields from their inputs, keeping the ids that inputs
/// carry and assigning fresh ones to the others.
fn build_fields(inputs: &Vec<FieldInput>) -> (r: Vec<Field>)
    ensures
        fields_built(inputs_view(inputs@), fields_view(r@)),
{
    let mut out: Vec<Field> = Vec::new();
    let mut i: usize = 0;
    while i < inputs.len()
        invariant
            i <= inputs@.len(),
            out@.len() == i,
            forall|k: int| 0 <= k < i ==> {
                &&& (#[trigger] out@[k]).label@ == inputs@[k].label@
                &&& out@[k].field_type == inputs@[k].field_type
                &&& out@[k].value@ == inputs@[k].value@
                &&& out@[k].secret == inputs@[k].secret
                &&& (opt_view(inputs@[k].id) matches Some(x) ==> out@[k].id@ == x)
                &&& (opt_view(inputs@[k].id) is None ==> uuid_v4_text(out@[k].id@))
            },
        decreases inputs@.len() - i,
    {
        let f = &inputs[i];
        let id = match &f.id {
            Some(existing) => existing.clone(),
            None => new_id(),
        };
        out.push(Field {
            id,
            label: f.label.clone(),
            field_type: f.field_type,
            value: f.value.clone(),
            secret: f.secret,
        });
        i = i + 1;
    }
    proof {
        let ins = inputs_view(inputs@);
        let fs = fields_view(out@);
        assert forall|k: int| 0 <= k < ins.len() implies {
            &&& (#[trigger] fs[k]).label == ins[k].label
            &&& fs[k].field_type == ins[k].field_type
            &&& fs[k].value == ins[k].value
            &&& fs[k].secret == ins[k].secret
            &&& (ins[k].id matches Some(x) ==> fs[k].id == x)
            &&& (ins[k].id is None ==> uuid_v4_text(fs[k].id))
        } by {
            assert(out@[k].label@ == inputs@[k].label@);
        }
    }
    out
}

/// Add a new entry built from `input`, with a fresh id and both timestamps set
/// to `now`, at the end of the entry list. Returns a copy of the stored entry.
pub fn create_entry(model: &mut VaultModel, input: EntryInput, now: String) -> (r: Entry)
    ensures
        final(model)@.entries == old(model)@.entries.push(r@),
        final(model)@.custom_services == old(model)@.custom_services,
        final(model)@.settings == old(model)@.settings,
        described_by(r@, input),
        r@.created_at == now@,
        r@.updated_at == now@,
        uuid_v4_text(r@.id),
{
    let entry = Entry {
        id: new_id(),
        service_ref: input.service_ref.clone(),
        title: copy_opt_string(&input.title),
        fields: build_fields(&input.fields),
        created_at: now.clone(),
        updated_at: now,
    };
    let copy = entry.clone();
    let ghost before = model.entries@;
    model.entries.push(entry);
    assert(entries_view(model.entries@) =~= entries_view(before).push(copy@));
    copy
}

/// Whether `k` is the position of the first entry whose id is `id`.
pub open spec fn first_with_id(entries: Seq<EntrySpec>, id: Seq<char>, k: int) -> bool {
    &&& 0 <= k < entries.len()
    &&& entries[k].id == id
    &&& forall|j: int| 0 <= j < k ==> (#[trigger] entries[j]).id != id
}

/// Whether no entry has id `id`.
pub open spec fn no_entry_with_id(entries: Seq<EntrySpec>, id: Seq<char>) -> bool {
    forall|j: int| 0 <= j < entries.len() ==> (#[trigger] entries[j]).id != id
}

/// The position of the first entry with id `id`, if any.
pub fn find_entry(model: &VaultModel, id: &str) -> (r: Option<usize>)
    ensures
        match r {
            Some(k) => first_with_id(model@.entries, id@, k as int),
            None => no_entry_with_id(model@.entries, id@),
        },
{
    let mut i: usize = 0;
    while i < model.entries.len()
        invariant
            i <= model.entries@.len(),
            forall|j: int| 0 <= j < i ==> (#[trigger] model@.entries[j]).id != id@,
        decreases model.entries@.len() - i,
    {
        if str_eq(model.entries[i].id.as_str(), id) {
            return Some(i);
        }
        i = i + 1;
    }
    None
}

/// The first entry whose id is `id`.
pub fn get_entry<'a>(model: &'a VaultModel, id: &str) -> (r: Option<&'a Entry>)
    ensures
        match r {
            Some(e) => exists|k: int| first_with_id(model@.entries, id@, k) && e@ == #[trigger] model@.entries[k],
            None => no_entry_with_id(model@.entries, id@),
        },
{
    match find_entry(model, id) {
        Some(k) => {
            let e = &model.entries[k];
            assert(e@ == model@.entries[k as int]);
            Some(e)
        },
        None => None,
    }
}

/// Replace the service, title and fields of the first entry with id `id` by
/// what `input` describes and set its update time to `now`; its id and
/// creation time stay. Fails with [`EntryError::NotFound`], changing nothing,
/// when no entry has that id.
pub fn update_entry(model: &mut VaultModel, id: &str, input: EntryInput, now: String) -> (r: Result<Entry, EntryError>)
    ensures
        match r {
            Ok(e) => exists|k: int| {
                &&& first_with_id(old(model)@.entries, id@, k)
                &&& final(model)@.entries == old(model)@.entries.update(k, e@)
                &&& e@.id == old(model)@.entries[k].id
                &&& e@.created_at == old(model)@.entries[k].created_at
                &&& #[trigger] described_by(e@, input)
                &&& e@.updated_at == now@
            },
            Err(err) => err == EntryError::NotFound && no_entry_with_id(old(model)@.entries, id@)
                && final(model)@ == old(model)@,
        },
        final(model)@.custom_services == old(model)@.custom_services,
        final(model)@.settings == old(model)@.settings,
{
    let k = match find_entry(model, id) {
        Some(k) => k,
        None => {
            return Err(EntryError::NotFound);
        },
    };
    let updated = Entry {
        id: model.entries[k].id.clone(),
        service_ref: input.service_ref.clone(),
        title: copy_opt_string(&input.title),
        fields: build_fields(&input.fields),
        created_at: model.entries[k].created_at.clone(),
        updated_at: now,
    };
    let copy = updated.clone();
    let ghost before = model.entries@;
    model.entries.set(k, updated);
    assert(entries_view(model.entries@) =~= entries_view(before).update(k as int, copy@));
    assert(described_by(copy@, input));
    Ok(copy)
}

/// The entries that remain after removing every entry whose id is `id`.
pub open spec fn without_id(entries: Seq<EntrySpec>, id: Seq<char>) -> Seq<EntrySpec>
    decreases entries.len(),
{
    if entries.len() == 0 {
        entries
    } else {
        let rest = without_id(entries.drop_last(), id);
        if entries.last().id == id {
            rest
        } else {
            rest.push(entries.last())
        }
    }
}

proof fn lemma_without_id_none(entries: Seq<EntrySpec>, id: Seq<char>)
    requires
        no_entry_with_id(entries, id),
    ensures
        without_id(entries, id) == entries,
    decreases entries.len(),
{
    if entries.len() > 0 {
        lemma_without_id_none(entries.drop_last(), id);
        assert(entries.drop_last().push(entries.last()) =~= entries);
    }
}

/// Remove every entry whose id is `id`, keeping the others in order. Fails
/// with [`EntryError::NotFound`], changing nothing, when no entry has that id.
pub fn delete_entry(model: &mut VaultModel, id: &str) -> (r: Result<(), EntryError>)
    ensures
        final(model)@.entries == without_id(old(model)@.entries, id@),
        final(model)@.custom_services == old(model)@.custom_services,
        final(model)@.settings == old(model)@.settings,
        r is Err <==> no_entry_with_id(old(model)@.entries, id@),
        r matches Err(e) ==> e == EntryError::NotFound,
{
    let ghost all = entries_view(model.entries@);
    let n = model.entries.len();
    let mut kept: Vec<Entry> = Vec::new();
    let mut removed = false;
    let mut i: usize = 0;
    while i < n
        invariant
            n == model.entries@.len(),
            all == entries_view(model.entries@),
            i <= n,
            entries_view(kept@) == without_id(all.subrange(0, i as int), id@),
            removed <==> exists|j: int| 0 <= j < i && (#[trigger] all[j]).id == id@,
        decreases n - i,
    {
        proof {
            assert(all.subrange(0, i + 1).drop_last() =~= all.subrange(0, i as int));
            assert(all.subrange(0, i + 1).last() == all[i as int]);
        }
        if str_eq(model.entries[i].id.as_str(), id) {
            removed = true;
        } else {
            let ghost before = kept@;
            kept.push(model.entries[i].clone());
            assert(entries_view(kept@) =~= entries_view(before).push(all[i as int]));
        }
        i = i + 1;
    }
    assert(all.subrange(0, n as int) =~= all);
    if removed {
        model.entries = kept;
        Ok(())
    } else {
        proof {
            lemma_without_id_none(all, id@);
        }
        Err(EntryError::NotFound)
    }
}

/// Whether an entry has nothing filled in: a missing or blank title and
/// every field value blank (an entry without fields counts as empty).
pub open spec fn is_empty_entry(e: EntrySpec) -> bool {
    &&& (e.title matches Some(t) ==> trimmed(t).len() == 0)
    &&& forall|k: int| 0 <= k < e.fields.len() ==> trimmed((#[trigger] e.fields[k]).value).len() == 0
}

/// The empty-entry warning: saving such an entry is allowed but flagged.
pub fn entry_is_empty(entry: &Entry) -> (r: bool)
    ensures
        r == is_empty_entry(entry@),
{
    let title_blank = match &entry.title {
        Some(t) => is_blank(t.as_str()),
        None => true,
    };
    let mut all_blank = true;
    let mut i: usize = 0;
    while i < entry.fields.len()
        invariant
            i <= entry.fields@.len(),
            all_blank <==> forall|k: int| 0 <= k < i ==> trimmed((#[trigger] entry@.fields[k]).value).len() == 0,
        decreases entry.fields@.len() - i,
    {
        assert(entry@.fields[i as int] == entry.fields@[i as int]@);
        if !is_blank(entry.fields[i].value.as_str()) {
            all_blank = false;
        }
        i = i + 1;
    }
    title_blank && all_blank
}

/// The number of summaries on a page when the caller does not say.
pub const DEFAULT_PAGE_LIMIT: usize = 50;

/// The number of characters a summary snippet keeps before it is cut.
pub const SNIPPET_MAX_CHARS: usize = 80;

/// Which slice of the matching entries to return.
#[derive(Debug, Clone, Copy, PartialEq, Eq, Structural)]
pub struct Page {
    /// How many matches to skip.
    pub offset: usize,
    /// At most how many summaries to return.
    pub limit: usize,
}

impl Default for Page {
    /// The first page of [`DEFAULT_PAGE_LIMIT`] summaries.
    fn default() -> (p: Self)
        ensures
            p == (Page { offset: 0, limit: 50 }),
    {
        Page { offset: 0, limit: DEFAULT_PAGE_LIMIT }
    }
}

/// A list-view summary of an entry: never a secret value.
#[derive(Debug, Clone, PartialEq, Eq)]
pub struct EntrySummary {
    pub id: String,
    pub service_ref: ServiceRef,
    pub title: Option<String>,
    /// The first non-secret, non-blank field value, trimmed and cut to
    /// [`SNIPPET_MAX_CHARS`] characters.
    pub snippet: Option<String>,
}

/// The abstract content of an [`EntrySummary`].
pub struct EntrySummarySpec {
    pub id: Seq<char>,
    pub service_ref: ServiceRefSpec,
    pub title: Option<Seq<char>>,
    pub snippet: Option<Seq<char>>,
}

impl View for EntrySummary {
    type V = EntrySummarySpec;

    open spec fn view(&self) -> EntrySummarySpec {
        EntrySummarySpec {
            id: self.id@,
            service_ref: self.service_ref@,
            title: opt_view(self.title),
            snippet: opt_view(self.snippet),
        }
    }
}

/// One page of matching summaries, with the total number of matches.
#[derive(Debug, Clone, PartialEq, Eq)]
pub struct EntryList {
    pub entries: Vec<EntrySummary>,
    pub total: usize,
    pub offset: usize,
    pub limit: usize,
}

/// The snippet of a field list: the first non-secret field whose value is not
/// blank gives its trimmed value, cut to 80 characters.
pub open spec fn snippet_of(fields: Seq<FieldSpec>) -> Option<Seq<char>>
    decreases fields.len(),
{
    if fields.len() == 0 {
        None
    } else if !fields[0].secret && trimmed(fields[0].value).len() > 0 {
        Some(truncated(trimmed(fields[0].value), 80))
    } else {
        snippet_of(fields.subrange(1, fields.len() as int))
    }
}

/// The summary of an entry.
pub open spec fn summary_of(e: EntrySpec) -> EntrySummarySpec {
    EntrySummarySpec { id: e.id, service_ref: e.service_ref, title: e.title, snippet: snippet_of(e.fields) }
}

proof fn lemma_snippet_step(fields: Seq<FieldSpec>, i: int)
    requires
        0 <= i < fields.len(),
        !(!fields[i].secret && trimmed(fields[i].value).len() > 0),
    ensures
        snippet_of(fields.subrange(i, fields.len() as int)) == snippet_of(fields.subrange(i + 1, fields.len() as int)),
{
    let s = fields.subrange(i, fields.len() as int);
    assert(s[0] == fields[i]);
    assert(s.subrange(1, s.len() as int) =~= fields.subrange(i + 1, fields.len() as int));
}

fn build_snippet(entry: &Entry) -> (r: Option<String>)
    ensures
        opt_view(r) == snippet_of(entry@.fields),
{
    let ghost fs = entry@.fields;
    let n = entry.fields.len();
    let mut i: usize = 0;
    assert(fs.subrange(0, n as int) =~= fs);
    while i < n
        invariant
            n == entry.fields@.len(),
            fs == entry@.fields,
            i <= n,
            snippet_of(fs) == snippet_of(fs.subrange(i as int, n as int)),
        decreases n - i,
    {
        let f = &entry.fields[i];
        assert(fs[i as int] == f@);
        if !f.secret {
            let t = trim(f.value.as_str());
            if t.as_str().unicode_len() > 0 {
                let s = truncate_chars(t.as_str(), SNIPPET_MAX_CHARS);
                proof {
                    let rest = fs.subrange(i as int, n as int);
                    assert(rest[0] == fs[i as int]);
                }
                return Some(s);
            }
        }
        proof {
            lemma_snippet_step(fs, i as int);
        }
        i = i + 1;
    }
    assert(fs.subrange(n as int, n as int).len() == 0);
    None
}

fn summarize_entry(entry: &Entry) -> (r: EntrySummary)
    ensures
        r@ == summary_of(entry@),
{
    EntrySummary {
        id: entry.id.clone(),
        service_ref: entry.service_ref.clone(),
        title: copy_opt_string(&entry.title),
        snippet: build_snippet(entry),
    }
}

/// The name of the first custom service whose id is `id`.
pub open spec fn service_name(services: Seq<CustomServiceSpec>, id: Seq<char>) -> Option<Seq<char>>
    decreases services.len(),
{
    if services.len() == 0 {
        None
    } else if services[0].id == id {
        Some(services[0].name)
    } else {
        service_name(services.subrange(1, services.len() as int), id)
    }
}

/// The searchable labels and values of a field list: those of the non-secret
/// fields, label before value, in order.
pub open spec fn field_parts(fields: Seq<FieldSpec>) -> Seq<Seq<char>>
    decreases fields.len(),
{
    if fields.len() == 0 {
        Seq::empty()
    } else {
        let rest = field_parts(fields.drop_last());
        if fields.last().secret {
            rest
        } else {
            rest.push(fields.last().label).push(fields.last().value)
        }
    }
}

/// The searchable texts of an entry: the service id (and a custom service's
/// name), the title, then the labels and values of its non-secret fields.
pub open spec fn index_parts(services: Seq<CustomServiceSpec>, e: EntrySpec) -> Seq<Seq<char>> {
    let service = match e.service_ref {
        ServiceRefSpec::Catalog { id } => seq![id],
        ServiceRefSpec::Custom { id } => match service_name(services, id) {
            Some(name) => seq![id, name],
            None => seq![id],
        },
    };
    let title = match e.title {
        Some(t) => seq![t],
        None => Seq::empty(),
    };
    service + title + field_parts(e.fields)
}

/// The indexed text of an entry: its searchable texts joined by newlines and
/// lower-cased.
pub open spec fn index_text(services: Seq<CustomServiceSpec>, e: EntrySpec) -> Seq<char> {
    lowercase(join_lines(index_parts(services, e)))
}

fn find_service_name(model: &VaultModel, id: &String) -> (r: Option<String>)
    ensures
        opt_view(r) == service_name(model@.custom_services, id@),
{
    let ghost ss = model@.custom_services;
    let n = model.custom_services.len();
    let mut i: usize = 0;
    assert(ss.subrange(0, n as int) =~= ss);
    while i < n
        invariant
            n == model.custom_services@.len(),
            ss == model@.custom_services,
            i <= n,
            service_name(ss, id@) == service_name(ss.subrange(i as int, n as int), id@),
        decreases n - i,
    {
        let s = &model.custom_services[i];
        let ghost rest = ss.subrange(i as int, n as int);
        assert(rest[0] == ss[i as int]);
        assert(ss[i as int] == s@);
        if str_eq(s.id.as_str(), id.as_str()) {
            return Some(s.name.clone());
        }
        assert(rest.subrange(1, rest.len() as int) =~= ss.subrange(i + 1, n as int));
        i = i + 1;
    }
    assert(ss.subrange(n as int, n as int).len() == 0);
    None
}

fn indexed_text(model: &VaultModel, entry: &Entry) -> (r: String)
    ensures
        r@ == index_text(model@.custom_services, entry@),
{
    let mut parts: Vec<String> = Vec::new();
    match &entry.service_ref {
        ServiceRef::Catalog { id } => {
            parts.push(id.clone());
        },
        ServiceRef::Custom { id } => {
            parts.push(id.clone());
            match find_service_name(model, id) {
                Some(name) => parts.push(name),
                None => {},
            }
        },
    }
    let ghost service = parts@.map_values(|p: String| p@);
    match &entry.title {
        Some(t) => parts.push(t.clone()),
        None => {},
    }
    let ghost head = parts@.map_values(|p: String| p@);
    let ghost fs = entry@.fields;
    let mut i: usize = 0;
    while i < entry.fields.len()
        invariant
            i <= entry.fields@.len(),
            fs == entry@.fields,
            parts@.map_values(|p: String| p@) == head + field_parts(fs.subrange(0, i as int)),
        decreases entry.fields@.len() - i,
    {
        let f = &entry.fields[i];
        let ghost before = parts@.map_values(|p: String| p@);
        proof {
            assert(fs.subrange(0, i + 1).drop_last() =~= fs.subrange(0, i as int));
            assert(fs.subrange(0, i + 1).last() == f@);
        }
        if !f.secret {
            parts.push(f.label.clone());
            parts.push(f.value.clone());
            assert(parts@.map_values(|p: String| p@) =~= before.push(f.label@).push(f.value@));
        }
        i = i + 1;
    }
    assert(fs.subrange(0, fs.len() as int) =~= fs);
    proof {
        let ps = parts@.map_values(|p: String| p@);
        assert(ps =~= index_parts(model@.custom_services, entry@));
    }
    let joined = join_with_newlines(&parts);
    to_lowercase(joined.as_str())
}

/// One entry's searchable text, with the entry's position in the model.
pub struct IndexedEntry {
    pub entry_index: usize,
    pub text: String,
}

/// The search index of a model: one lower-cased text per entry, in model order.
pub struct SearchIndex {
    pub docs: Vec<IndexedEntry>,
}

impl View for SearchIndex {
    type V = Seq<(usize, Seq<char>)>;

    open spec fn view(&self) -> Seq<(usize, Seq<char>)> {
        self.docs@.map_values(|d: IndexedEntry| (d.entry_index, d.text@))
    }
}

/// The index entries of a model.
pub open spec fn index_of(m: crate::model::VaultModelSpec) -> Seq<(usize, Seq<char>)> {
    Seq::new(m.entries.len(), |i: int| (i as usize, index_text(m.custom_services, m.entries[i])))
}

/// The lower-cased search terms of a query: its whitespace-separated words.
/// No query, or a blank one, has no terms.
pub open spec fn query_terms(query: Option<Seq<char>>) -> Seq<Seq<char>> {
    match query {
        Some(q) => words(q).map_values(|w: Seq<char>| lowercase(w)),
        None => Seq::empty(),
    }
}

/// Whether a text contains every term.
pub open spec fn matches_all(text: Seq<char>, terms: Seq<Seq<char>>) -> bool {
    forall|t: int| 0 <= t < terms.len() ==> contains(text, #[trigger] terms[t])
}

/// The positions of the documents that match every term, in index order.
pub open spec fn matched(docs: Seq<(usize, Seq<char>)>, terms: Seq<Seq<char>>) -> Seq<usize>
    decreases docs.len(),
{
    if docs.len() == 0 {
        Seq::empty()
    } else {
        let rest = matched(docs.drop_last(), terms);
        if matches_all(docs.last().1, terms) {
            rest.push(docs.last().0)
        } else {
            rest
        }
    }
}

fn lowercase_terms(query: Option<&str>) -> (r: Vec<Vec<char>>)
    ensures
        r@.map_values(|t: Vec<char>| t@) == query_terms(match query {
            Some(q) => Some(q@),
            None => None,
        }),
{
    let mut out: Vec<Vec<char>> = Vec::new();
    match query {
        Some(q) => {
            let ws = split_whitespace(q);
            let ghost wv = ws@.map_values(|w: String| w@);
            let mut i: usize = 0;
            while i < ws.len()
                invariant
                    i <= ws@.len(),
                    wv == ws@.map_values(|w: String| w@),
                    out@.len() == i,
                    forall|k: int| 0 <= k < i ==> (#[trigger] out@[k])@ == lowercase(wv[k]),
                decreases ws@.len() - i,
            {
                let lower = to_lowercase(ws[i].as_str());
                out.push(chars_of(lower.as_str()));
                i = i + 1;
            }
            assert(out@.map_values(|t: Vec<char>| t@) =~= wv.map_values(|w: Seq<char>| lowercase(w)));
        },
        None => {
            assert(out@.map_values(|t: Vec<char>| t@) =~= Seq::<Seq<char>>::empty());
        },
    }
    out
}

impl SearchIndex {
    /// Index every entry of `model`.
    pub fn build(model: &VaultModel) -> (r: Self)
        ensures
            r@ == index_of(model@),
    {
        let mut docs: Vec<IndexedEntry> = Vec::new();
        let mut i: usize = 0;
        while i < model.entries.len()
            invariant
                i <= model.entries@.len(),
                docs@.len() == i,
                forall|k: int| 0 <= k < i ==> (#[trigger] docs@[k]).entry_index == k
                    && docs@[k].text@ == index_text(model@.custom_services, model@.entries[k]),
            decreases model.entries@.len() - i,
        {
            let text = indexed_text(model, &model.entries[i]);
            docs.push(IndexedEntry { entry_index: i, text });
            i = i + 1;
        }
        let r = SearchIndex { docs };
        assert(r@ =~= index_of(model@));
        r
    }

    /// The positions of the entries whose text contains every lower-cased
    /// word of `query`, in model order. No query, or a blank one, matches
    /// every entry.
    pub fn matching_indices(&self, query: Option<&str>) -> (r: Vec<usize>)
        ensures
            r@ == matched(self@, query_terms(match query {
                Some(q) => Some(q@),
                None => None,
            })),
    {
        let terms = lowercase_terms(query);
        let ghost tv = terms@.map_values(|t: Vec<char>| t@);
        let ghost docs = self@;
        let mut out: Vec<usize> = Vec::new();
        let mut i: usize = 0;
        while i < self.docs.len()
            invariant
                i <= self.docs@.len(),
                docs == self@,
                tv == terms@.map_values(|t: Vec<char>| t@),
                out@ == matched(docs.subrange(0, i as int), tv),
            decreases self.docs@.len() - i,
        {
            let doc = &self.docs[i];
            let text = chars_of(doc.text.as_str());
            let mut all = true;
            let mut t: usize = 0;
            while t < terms.len()
                invariant
                    t <= terms@.len(),
                    tv == terms@.map_values(|x: Vec<char>| x@),
                    text@ == doc.text@,
                    all <==> forall|u: int| 0 <= u < t ==> contains(text@, #[trigger] tv[u]),
                decreases terms@.len() - t,
            {
                assert(tv[t as int] == terms@[t as int]@);
                if !contains_chars(&text, &terms[t]) {
                    all = false;
                }
                t = t + 1;
            }
            proof {
                assert(docs.subrange(0, i + 1).drop_last() =~= docs.subrange(0, i as int));
                assert(docs.subrange(0, i + 1).last() == docs[i as int]);
                assert(docs[i as int] == (doc.entry_index, doc.text@));
            }
            if all {
                out.push(doc.entry_index);
            }
            i = i + 1;
        }
        assert(docs.subrange(0, docs.len() as int) =~= docs);
        out
    }
}

/// The page of `s` that starts at `offset` and holds at most `limit` items
/// (empty when `offset` is past the end).
pub open spec fn page_of<A>(s: Seq<A>, offset: nat, limit: nat) -> Seq<A> {
    if offset >= s.len() {
        Seq::empty()
    } else if offset + limit >= s.len() {
        s.subrange(offset as int, s.len() as int)
    } else {
        s.subrange(offset as int, (offset + limit) as int)
    }
}

/// The page that an optional [`Page`] asks for (the first default page when absent).
pub open spec fn page_or_default(page: Option<Page>) -> Page {
    match page {
        Some(p) => p,
        None => Page { offset: 0, limit: 50 },
    }
}

/// List the summaries of the entries that match `query` (see
/// [`SearchIndex::matching_indices`]), in model order, one page of them:
/// `total` counts every match, and the page is taken after filtering.
pub fn list_entries(model: &VaultModel, query: Option<String>, page: Option<Page>) -> (r: EntryList)
    ensures
        ({
            let hits = matched(index_of(model@), query_terms(opt_view(query)));
            let p = page_or_default(page);
            &&& r.total == hits.len()
            &&& r.offset == p.offset
            &&& r.limit == p.limit
            &&& r.entries@.map_values(|s: EntrySummary| s@)
                == page_of(hits, p.offset as nat, p.limit as nat).map_values(|i: usize| summary_of(model@.entries[i as int]))
        }),
        (r.entries@.map_values(|s: EntrySummary| s@), r.total as nat) == listing(model@, opt_view(query), page),
{
    let index = SearchIndex::build(model);
    let matched_ix = match &query {
        Some(q) => index.matching_indices(Some(q.as_str())),
        None => index.matching_indices(None),
    };
    let ghost hits = matched_ix@;
    let total = matched_ix.len();
    let p = match page {
        Some(p) => p,
        None => Page::default(),
    };
    let ghost want = page_of(hits, p.offset as nat, p.limit as nat);
    let end: usize = if p.offset >= total {
        p.offset
    } else if p.limit >= total - p.offset {
        total
    } else {
        p.offset + p.limit
    };
    let mut entries: Vec<EntrySummary> = Vec::new();
    let mut i: usize = p.offset;
    proof {
        let d = index_of(model@);
        assert(model@.entries.len() == model.entries@.len());
        assert forall|k: int| 0 <= k < d.len() implies (#[trigger] d[k]).0 == k by {
            assert(k < model.entries.len());
        }
        lemma_matched_in_range(d, query_terms(opt_view(query)));
    }
    while i < end
        invariant
            hits == matched_ix@,
            total == hits.len(),
            p.offset <= i <= end,
            end <= total || (end == p.offset && p.offset >= total),
            want == page_of(hits, p.offset as nat, p.limit as nat),
            hits == matched(index_of(model@), query_terms(opt_view(query))),
            forall|k: int| 0 <= k < hits.len() ==> (#[trigger] hits[k]) < model@.entries.len(),
            entries@.len() == i - p.offset,
            forall|k: int| 0 <= k < i - p.offset ==> (#[trigger] entries@[k])@ == summary_of(model@.entries[hits[p.offset + k] as int]),
        decreases end - i,
    {
        let ix = matched_ix[i];
        entries.push(summarize_entry(&model.entries[ix]));
        i = i + 1;
    }
    proof {
        assert(entries@.map_values(|s: EntrySummary| s@) =~= want.map_values(|j: usize| summary_of(model@.entries[j as int])));
    }
    EntryList { entries, total, offset: p.offset, limit: p.limit }
}

/// Every position that [`matched`] yields for a model's index is the position
/// of one of its entries.
proof fn lemma_matched_in_range(docs: Seq<(usize, Seq<char>)>, terms: Seq<Seq<char>>)
    requires
        forall|k: int| 0 <= k < docs.len() ==> (#[trigger] docs[k]).0 == k,
    ensures
        forall|k: int| 0 <= k < matched(docs, terms).len() ==> (#[trigger] matched(docs, terms)[k]) < docs.len(),
    decreases docs.len(),
{
    if docs.len() > 0 {
        let d = docs.drop_last();
        assert forall|k: int| 0 <= k < d.len() implies (#[trigger] d[k]).0 == k by {
            assert(d[k] == docs[k]);
        }
        lemma_matched_in_range(d, terms);
        assert(docs.last() == docs[docs.len() - 1]);
        let m = matched(docs, terms);
        let r = matched(d, terms);
        assert forall|k: int| 0 <= k < m.len() implies (#[trigger] m[k]) < docs.len() by {
            if k < r.len() {
                assert(m[k] == r[k]);
            }
        }
    }
}

/// Two field lists that agree on their non-secret fields (same positions,
/// same secrecy, and the same label and value wherever a field is not
/// secret) give the same searchable parts.
proof fn lemma_field_parts_ignore_secrets(a: Seq<FieldSpec>, b: Seq<FieldSpec>)
    requires
        a.len() == b.len(),
        forall|k: int| 0 <= k < a.len() ==> (#[trigger] a[k]).secret == b[k].secret
            && (!a[k].secret ==> a[k].label == b[k].label && a[k].value == b[k].value),
    ensures
        field_parts(a) == field_parts(b),
    decreases a.len(),
{
    if a.len() > 0 {
        let (da, db) = (a.drop_last(), b.drop_last());
        assert forall|k: int| 0 <= k < da.len() implies (#[trigger] da[k]).secret == db[k].secret
            && (!da[k].secret ==> da[k].label == db[k].label && da[k].value == db[k].value) by {
            assert(da[k] == a[k] && db[k] == b[k]);
        }
        lemma_field_parts_ignore_secrets(da, db);
        assert(a.last() == a[a.len() - 1] && b.last() == b[b.len() - 1]);
    }
}

/// Secret fields are never indexed: the search text of an entry does not
/// depend on the labels or values of its secret fields, so no query can
/// match an entry through them.
pub proof fn lemma_secret_fields_not_indexed(services: Seq<CustomServiceSpec>, e1: EntrySpec, e2: EntrySpec)
    requires
        e1.service_ref == e2.service_ref,
        e1.title == e2.title,
        e1.fields.len() == e2.fields.len(),
        forall|k: int| 0 <= k < e1.fields.len() ==> (#[trigger] e1.fields[k]).secret == e2.fields[k].secret
            && (!e1.fields[k].secret ==> e1.fields[k].label == e2.fields[k].label
                && e1.fields[k].value == e2.fields[k].value),
    ensures
        index_text(services, e1) == index_text(services, e2),
{
    lemma_field_parts_ignore_secrets(e1.fields, e2.fields);
    assert(index_parts(services, e1) =~= index_parts(services, e2));
}

/// Summaries never show a secret: a snippet is always the trimmed, truncated
/// value of a non-secret field whose value is not blank.
pub proof fn lemma_snippet_is_never_secret(fields: Seq<FieldSpec>)
    ensures
        snippet_of(fields) matches Some(s) ==> exists|k: int| {
            &&& 0 <= k < fields.len()
            &&& !(#[trigger] fields[k]).secret
            &&& trimmed(fields[k].value).len() > 0
            &&& s == truncated(trimmed(fields[k].value), 80)
        },
    decreases fields.len(),
{
    if fields.len() > 0 && !(!fields[0].secret && trimmed(fields[0].value).len() > 0) {
        let rest = fields.subrange(1, fields.len() as int);
        lemma_snippet_is_never_secret(rest);
        if snippet_of(rest) is Some {
            let k = choose|k: int| {
                &&& 0 <= k < rest.len()
                &&& !(#[trigger] rest[k]).secret
                &&& trimmed(rest[k].value).len() > 0
                &&& snippet_of(rest) == Some(truncated(trimmed(rest[k].value), 80))
            };
            assert(rest[k] == fields[k + 1]);
        }
    }
}

/// A text made only of whitespace has no words.
pub proof fn lemma_blank_text_has_no_words(s: Seq<char>)
    requires
        crate::text::all_ws(s),
    ensures
        words(s).len() == 0,
    decreases s.len(),
{
    if s.len() > 0 {
        assert(s.last() == s[s.len() - 1]);
        lemma_blank_text_has_no_words(s.drop_last());
    }
}

/// Text that ends in a non-whitespace character has at least one word.
proof fn lemma_words_nonempty(s: Seq<char>)
    requires
        s.len() >= 1,
        !crate::text::is_ws(s.last()),
    ensures
        words(s).len() >= 1,
    decreases s.len(),
{
    if s.len() >= 2 && !crate::text::is_ws(s[s.len() - 2]) {
        assert(s.drop_last().last() == s[s.len() - 2]);
        lemma_words_nonempty(s.drop_last());
    }
}

/// The words of two texts joined by a space are the words of the first
/// followed by the words of the second.
proof fn lemma_words_concat(a: Seq<char>, b: Seq<char>)
    ensures
        words(a + seq![' '] + b) == words(a) + words(b),
    decreases b.len(),
{
    let s = a + seq![' '] + b;
    if b.len() == 0 {
        assert(s.drop_last() =~= a);
        assert(crate::text::is_ws(s.last()));
        assert(words(b) =~= Seq::<Seq<char>>::empty());
        assert(words(a) + words(b) =~= words(a));
    } else {
        lemma_words_concat(a, b.drop_last());
        assert(s.drop_last() =~= a + seq![' '] + b.drop_last());
        let c = b.last();
        assert(s.last() == c);
        let wa = words(a);
        let wb = words(b.drop_last());
        if crate::text::is_ws(c) {
        } else if b.len() >= 2 && !crate::text::is_ws(b[b.len() - 2]) {
            assert(s[s.len() - 2] == b[b.len() - 2]);
            assert(b.drop_last().last() == b[b.len() - 2]);
            lemma_words_nonempty(b.drop_last());
            assert(words(s) =~= (wa + wb).update((wa + wb).len() - 1, (wa + wb).last().push(c)));
            assert((wa + wb).update((wa + wb).len() - 1, (wa + wb).last().push(c)) =~= wa + wb.update(wb.len() - 1, wb.last().push(c)));
        } else {
            if b.len() >= 2 {
                assert(s[s.len() - 2] == b[b.len() - 2]);
            } else {
                assert(s[s.len() - 2] == ' ');
            }
            assert((wa + wb).push(seq![c]) =~= wa + wb.push(seq![c]));
        }
    }
}

/// A text contains every term of `t1 + t2` exactly when it contains every
/// term of each.
proof fn lemma_matches_all_concat(text: Seq<char>, t1: Seq<Seq<char>>, t2: Seq<Seq<char>>)
    ensures
        matches_all(text, t1 + t2) == (matches_all(text, t1) && matches_all(text, t2)),
{
    let t = t1 + t2;
    if matches_all(text, t) {
        assert forall|k: int| 0 <= k < t1.len() implies contains(text, #[trigger] t1[k]) by {
            assert(t[k] == t1[k]);
        }
        assert forall|k: int| 0 <= k < t2.len() implies contains(text, #[trigger] t2[k]) by {
            assert(t[t1.len() + k] == t2[k]);
        }
    }
    if matches_all(text, t1) && matches_all(text, t2) {
        assert forall|k: int| 0 <= k < t.len() implies contains(text, #[trigger] t[k]) by {
            if k < t1.len() {
                assert(t[k] == t1[k]);
            } else {
                assert(t[k] == t2[k - t1.len()]);
            }
        }
    }
}

/// The ids among `ids` whose document in `docs` contains every term, in order.
pub open spec fn keep_matching(ids: Seq<usize>, docs: Seq<(usize, Seq<char>)>, terms: Seq<Seq<char>>) -> Seq<usize>
    decreases ids.len(),
{
    if ids.len() == 0 {
        Seq::empty()
    } else {
        let rest = keep_matching(ids.drop_last(), docs, terms);
        if matches_all(docs[ids.last() as int].1, terms) {
            rest.push(ids.last())
        } else {
            rest
        }
    }
}

/// On the first `n` documents of an index whose ids are their positions,
/// matching `t1 + t2` keeps exactly the `t1` matches that also match `t2`.
proof fn lemma_narrow_prefix(docs: Seq<(usize, Seq<char>)>, t1: Seq<Seq<char>>, t2: Seq<Seq<char>>, n: int)
    requires
        forall|k: int| 0 <= k < docs.len() ==> (#[trigger] docs[k]).0 == k,
        0 <= n <= docs.len(),
    ensures
        matched(docs.subrange(0, n), t1 + t2) == keep_matching(matched(docs.subrange(0, n), t1), docs, t2),
    decreases n,
{
    if n > 0 {
        lemma_narrow_prefix(docs, t1, t2, n - 1);
        let d = docs.subrange(0, n);
        assert(d.drop_last() =~= docs.subrange(0, n - 1));
        assert(d.last() == docs[n - 1]);
        assert(docs[n - 1].0 == n - 1);
        lemma_matches_all_concat(docs[n - 1].1, t1, t2);
        let m1 = matched(docs.subrange(0, n - 1), t1);
        if matches_all(docs[n - 1].1, t1) {
            assert(matched(d, t1) == m1.push(docs[n - 1].0));
            assert(m1.push(docs[n - 1].0).drop_last() =~= m1);
        }
    }
}

/// Adding search terms only narrows: the entries that match `q1` followed by
/// a space and `extra` are exactly those matching `q1` whose text also
/// contains every term of `extra`, in the same order.
pub proof fn lemma_more_terms_narrow(m: crate::model::VaultModelSpec, q1: Seq<char>, extra: Seq<char>)
    requires
        m.entries.len() <= usize::MAX,
    ensures
        matched(index_of(m), query_terms(Some(q1 + seq![' '] + extra)))
            == keep_matching(matched(index_of(m), query_terms(Some(q1))), index_of(m), query_terms(Some(extra))),
{
    lemma_words_concat(q1, extra);
    let f = |w: Seq<char>| lowercase(w);
    assert(words(q1 + seq![' '] + extra).map_values(f) =~= words(q1).map_values(f) + words(extra).map_values(f));
    let docs = index_of(m);
    assert forall|k: int| 0 <= k < docs.len() implies (#[trigger] docs[k]).0 == k by {}
    lemma_narrow_prefix(docs, query_terms(Some(q1)), query_terms(Some(extra)), docs.len() as int);
    assert(docs.subrange(0, docs.len() as int) =~= docs);
}

/// The page of summaries and the total number of matches that
/// [`list_entries`] returns for a model, a query and a page request.
pub open spec fn listing(m: crate::model::VaultModelSpec, query: Option<Seq<char>>, page: Option<Page>) -> (Seq<EntrySummarySpec>, nat) {
    let hits = matched(index_of(m), query_terms(query));
    let p = page_or_default(page);
    (page_of(hits, p.offset as nat, p.limit as nat).map_values(|i: usize| summary_of(m.entries[i as int])), hits.len())
}

/// Whether two entries differ at most in the labels and values of their
/// secret fields.
pub open spec fn differ_only_in_secrets(e1: EntrySpec, e2: EntrySpec) -> bool {
    &&& e1.id == e2.id
    &&& e1.service_ref == e2.service_ref
    &&& e1.title == e2.title
    &&& e1.created_at == e2.created_at
    &&& e1.updated_at == e2.updated_at
    &&& e1.fields.len() == e2.fields.len()
    &&& forall|k: int| 0 <= k < e1.fields.len() ==> {
        &&& (#[trigger] e1.fields[k]).secret == e2.fields[k].secret
        &&& e1.fields[k].id == e2.fields[k].id
        &&& e1.fields[k].field_type == e2.fields[k].field_type
        &&& !e1.fields[k].secret ==> e1.fields[k].label == e2.fields[k].label && e1.fields[k].value == e2.fields[k].value
    }
}

/// The snippet does not depend on the values of secret fields.
proof fn lemma_snippet_ignores_secrets(a: Seq<FieldSpec>, b: Seq<FieldSpec>)
    requires
        a.len() == b.len(),
        forall|k: int| 0 <= k < a.len() ==> (#[trigger] a[k]).secret == b[k].secret
            && (!a[k].secret ==> a[k].value == b[k].value),
    ensures
        snippet_of(a) == snippet_of(b),
    decreases a.len(),
{
    if a.len() > 0 {
        let (ra, rb) = (a.subrange(1, a.len() as int), b.subrange(1, b.len() as int));
        assert forall|k: int| 0 <= k < ra.len() implies (#[trigger] ra[k]).secret == rb[k].secret
            && (!ra[k].secret ==> ra[k].value == rb[k].value) by {
            assert(ra[k] == a[k + 1] && rb[k] == b[k + 1]);
        }
        lemma_snippet_ignores_secrets(ra, rb);
    }
}

/// Secret labels and values never affect a listing: two models whose entries
/// differ only in the labels and values of secret fields give the same
/// matches, the same total and the same summaries for every query and page.
pub proof fn lemma_listing_ignores_secrets(
    m1: crate::model::VaultModelSpec,
    m2: crate::model::VaultModelSpec,
    query: Option<Seq<char>>,
    page: Option<Page>,
)
    requires
        m1.custom_services == m2.custom_services,
        m1.entries.len() == m2.entries.len(),
        m1.entries.len() <= usize::MAX,
        forall|k: int| 0 <= k < m1.entries.len() ==> differ_only_in_secrets(#[trigger] m1.entries[k], m2.entries[k]),
    ensures
        listing(m1, query, page) == listing(m2, query, page),
{
    assert forall|k: int| #![trigger m1.entries[k]] 0 <= k < m1.entries.len() implies summary_of(m1.entries[k]) == summary_of(m2.entries[k])
        && index_text(m1.custom_services, m1.entries[k]) == index_text(m2.custom_services, m2.entries[k]) by {
        let (e1, e2) = (m1.entries[k], m2.entries[k]);
        assert(differ_only_in_secrets(e1, e2));
        lemma_secret_fields_not_indexed(m1.custom_services, e1, e2);
        lemma_snippet_ignores_secrets(e1.fields, e2.fields);
    }
    let docs = index_of(m1);
    assert forall|k: int| 0 <= k < docs.len() implies #[trigger] docs[k] == index_of(m2)[k] by {
        assert(m1.entries[k] == m1.entries[k]);
    }
    assert(docs =~= index_of(m2));
    let terms = query_terms(query);
    assert forall|k: int| 0 <= k < docs.len() implies (#[trigger] docs[k]).0 == k by {}
    lemma_matched_in_range(docs, terms);
    let hits = matched(docs, terms);
    let p = page_or_default(page);
    let pg = page_of(hits, p.offset as nat, p.limit as nat);
    assert forall|j: int| 0 <= j < pg.len() implies (#[trigger] pg[j]) < m1.entries.len() by {
        if p.offset + p.limit >= hits.len() {
            assert(pg[j] == hits[p.offset + j]);
        } else {
            assert(pg[j] == hits[p.offset + j]);
        }
    }
    assert(pg.map_values(|i: usize| summary_of(m1.entries[i as int])) =~= pg.map_values(|i: usize| summary_of(m2.entries[i as int])));
}

/// Every part occurs in the parts joined by newlines.
proof fn lemma_join_contains(parts: Seq<Seq<char>>, i: int)
    requires
        0 <= i < parts.len(),
    ensures
        contains(join_lines(parts), parts[i]),
    decreases parts.len(),
{
    let j = join_lines(parts);
    if parts.len() == 1 {
        assert(occurs_at(j, parts[i], 0)) by {
            assert(j.subrange(0, parts[i].len() as int) =~= parts[i]);
        }
    } else {
        let init = join_lines(parts.drop_last());
        assert(j == init + seq!['\n'] + parts.last());
        if i == parts.len() - 1 {
            let at: int = init.len() as int + 1;
            assert(j.subrange(at, at + parts[i].len()) =~= parts[i]);
            assert(occurs_at(j, parts[i], at));
        } else {
            assert(parts.drop_last()[i] == parts[i]);
            lemma_join_contains(parts.drop_last(), i);
            let at = choose|at: int| occurs_at(init, parts[i], at);
            assert(j.subrange(at, at + parts[i].len()) =~= init.subrange(at, at + parts[i].len()));
            assert(occurs_at(j, parts[i], at));
        }
    }
}

/// The searchable parts of a field list hold the label and the value of
/// every non-secret field, wherever it stands.
proof fn lemma_field_parts_complete(fields: Seq<FieldSpec>, k: int)
    requires
        0 <= k < fields.len(),
        !fields[k].secret,
    ensures
        field_parts(fields).contains(fields[k].label),
        field_parts(fields).contains(fields[k].value),
    decreases fields.len(),
{
    let rest = field_parts(fields.drop_last());
    if k == fields.len() - 1 {
        let fp = rest.push(fields.last().label).push(fields.last().value);
        assert(field_parts(fields) == fp);
        assert(fp[rest.len() as int] == fields[k].label);
        assert(fp[rest.len() + 1int] == fields[k].value);
    } else {
        assert(fields.drop_last()[k] == fields[k]);
        lemma_field_parts_complete(fields.drop_last(), k);
        let a = choose|a: int| 0 <= a < rest.len() && rest[a] == fields[k].label;
        let b = choose|b: int| 0 <= b < rest.len() && rest[b] == fields[k].value;
        if !fields.last().secret {
            let fp = rest.push(fields.last().label).push(fields.last().value);
            assert(fp[a] == rest[a] && fp[b] == rest[b]);
        }
    }
}

/// Every non-secret field is searchable, at any position: the text that is
/// lower-cased into an entry's index holds the label and the value of each
/// of its non-secret fields.
pub proof fn lemma_nonsecret_fields_indexed(services: Seq<CustomServiceSpec>, e: EntrySpec, k: int)
    requires
        0 <= k < e.fields.len(),
        !e.fields[k].secret,
    ensures
        contains(join_lines(index_parts(services, e)), e.fields[k].label),
        contains(join_lines(index_parts(services, e)), e.fields[k].value),
        index_text(services, e) == lowercase(join_lines(index_parts(services, e))),
{
    lemma_field_parts_complete(e.fields, k);
    let parts = index_parts(services, e);
    let fp = field_parts(e.fields);
    let head = parts.len() - fp.len();
    assert(parts.subrange(head, parts.len() as int) =~= fp);
    let a = choose|a: int| 0 <= a < fp.len() && fp[a] == e.fields[k].label;
    let b = choose|b: int| 0 <= b < fp.len() && fp[b] == e.fields[k].value;
    assert(parts[head + a] == fp[a]);
    assert(parts[head + b] == fp[b]);
    lemma_join_contains(parts, head + a);
    lemma_join_contains(parts, head + b);
}

/// The snippet is taken from the first non-secret field whose value is not
/// blank: when there is one, the snippet is its trimmed value cut to 80
/// characters and every earlier field is secret or blank; when there is
/// none, there is no snippet.
pub proof fn lemma_snippet_is_first(fields: Seq<FieldSpec>)
    ensures
        match snippet_of(fields) {
            Some(s) => exists|k: int| {
                &&& 0 <= k < fields.len()
                &&& !(#[trigger] fields[k]).secret
                &&& trimmed(fields[k].value).len() > 0
                &&& s == truncated(trimmed(fields[k].value), 80)
                &&& forall|j: int| 0 <= j < k ==> (#[trigger] fields[j]).secret || trimmed(fields[j].value).len() == 0
            },
            None => forall|j: int| 0 <= j < fields.len() ==> (#[trigger] fields[j]).secret || trimmed(fields[j].value).len() == 0,
        },
    decreases fields.len(),
{
    if fields.len() > 0 {
        let rest = fields.subrange(1, fields.len() as int);
        lemma_snippet_is_first(rest);
        if !fields[0].secret && trimmed(fields[0].value).len() > 0 {
            assert(snippet_of(fields) == Some(truncated(trimmed(fields[0].value), 80)));
        } else {
            assert(snippet_of(fields) == snippet_of(rest));
            match snippet_of(rest) {
                Some(s) => {
                    let k = choose|k: int| {
                        &&& 0 <= k < rest.len()
                        &&& !(#[trigger] rest[k]).secret
                        &&& trimmed(rest[k].value).len() > 0
                        &&& s == truncated(trimmed(rest[k].value), 80)
                        &&& forall|j: int| 0 <= j < k ==> (#[trigger] rest[j]).secret || trimmed(rest[j].value).len() == 0
                    };
                    assert(rest[k] == fields[k + 1]);
                    assert forall|j: int| 0 <= j < k + 1 implies (#[trigger] fields[j]).secret || trimmed(fields[j].value).len() == 0 by {
                        if j > 0 {
                            assert(rest[j - 1] == fields[j]);
                        }
                    }
                },
                None => {
                    assert forall|j: int| 0 <= j < fields.len() implies (#[trigger] fields[j]).secret || trimmed(fields[j].value).len() == 0 by {
                        if j > 0 {
                            assert(rest[j - 1] == fields[j]);
                        }
                    }
                },
            }
        }
    }
}

/// An entry with any content is not empty: a non-blank title, or any field
/// (secret or not) whose value has a non-whitespace character, clears the
/// empty-entry warning; an entry with neither is empty.
pub proof fn lemma_empty_entry_has_no_content(e: EntrySpec)
    ensures
        (exists|k: int| 0 <= k < e.fields.len() && trimmed((#[trigger] e.fields[k]).value).len() > 0) ==> !is_empty_entry(e),
        (e.title matches Some(t) && trimmed(t).len() > 0) ==> !is_empty_entry(e),
        (!(e.title matches Some(t) && trimmed(t).len() > 0)
            && forall|k: int| 0 <= k < e.fields.len() ==> trimmed((#[trigger] e.fields[k]).value).len() == 0)
            ==> is_empty_entry(e),
{
}

/// Without terms every document matches, in order.
proof fn lemma_no_terms_match_all(docs: Seq<(usize, Seq<char>)>)
    ensures
        matched(docs, Seq::empty()) == docs.map_values(|d: (usize, Seq<char>)| d.0),
    decreases docs.len(),
{
    if docs.len() > 0 {
        lemma_no_terms_match_all(docs.drop_last());
        assert(docs.map_values(|d: (usize, Seq<char>)| d.0) =~= docs.drop_last().map_values(|d: (usize, Seq<char>)| d.0).push(docs.last().0));
    }
}

/// An absent or blank query lists every entry, in model order.
pub proof fn lemma_blank_query_lists_all(m: crate::model::VaultModelSpec, query: Option<Seq<char>>)
    requires
        query matches Some(q) ==> crate::text::all_ws(q),
    ensures
        matched(index_of(m), query_terms(query)) == Seq::new(m.entries.len(), |i: int| i as usize),
{
    if let Some(q) = query {
        lemma_blank_text_has_no_words(q);
    }
    assert(query_terms(query) =~= Seq::<Seq<char>>::empty());
    lemma_no_terms_match_all(index_of(m));
    assert(index_of(m).map_values(|d: (usize, Seq<char>)| d.0) =~= Seq::new(m.entries.len(), |i: int| i as usize));
}

/// An entry added under an id that no other entry has is the one found by
/// that id afterwards.
pub proof fn lemma_created_entry_is_found(entries: Seq<EntrySpec>, e: EntrySpec)
    requires
        no_entry_with_id(entries, e.id),
    ensures
        first_with_id(entries.push(e), e.id, entries.len() as int),
{
    assert forall|j: int| 0 <= j < entries.len() implies (#[trigger] entries.push(e)[j]).id != e.id by {
        assert(entries.push(e)[j] == entries[j]);
    }
}

/// Deleting by id leaves no entry with that id, and every entry that remains
/// was there before.
pub proof fn lemma_delete_removes_only_target(entries: Seq<EntrySpec>, id: Seq<char>)
    ensures
        no_entry_with_id(without_id(entries, id), id),
        forall|k: int| 0 <= k < without_id(entries, id).len() ==> entries.contains(#[trigger] without_id(entries, id)[k]),
    decreases entries.len(),
{
    if entries.len() > 0 {
        let d = entries.drop_last();
        lemma_delete_removes_only_target(d, id);
        let r = without_id(d, id);
        let w = without_id(entries, id);
        assert forall|k: int| 0 <= k < w.len() implies entries.contains(#[trigger] w[k]) by {
            if k < r.len() {
                assert(w[k] == r[k]);
                let j = choose|j: int| 0 <= j < d.len() && d[j] == r[k];
                assert(entries[j] == d[j]);
            } else {
                assert(w[k] == entries[entries.len() - 1]);
            }
        }
        assert forall|j: int| 0 <= j < w.len() implies (#[trigger] w[j]).id != id by {
            if j < r.len() {
                assert(w[j] == r[j]);
            }
        }
    }
}

} // verus!
