//! The record codec: record files and bulk files in TOML, read through the
//! `toml` crate and written by the library.

use crate::error::TemplateError;
use crate::paths::{
    contract_home, contracted, expand_home, expanded, lemma_expand_contract, starts_with_tilde,
    under_home,
};
use crate::template::{views, Template, TemplateView};
use vstd::prelude::*;

verus! {

/// The entries of a TOML table as plain values: each key with its string
/// value, or `None` where the value is not a string.
pub type EntriesView = Seq<(Seq<char>, Option<Seq<char>>)>;

/// The top-level items of a TOML document as plain values: each key with the
/// entries of its table, or `None` where the item is not a table.
pub type SectionsView = Seq<(Seq<char>, Option<EntriesView>)>;

/// What `toml` parses `text` into, as plain values; `None` where it refuses
/// the text.
pub uninterp spec fn toml_sections(text: Seq<char>) -> Option<SectionsView>;

/// One key of a TOML table.
pub struct Entry {
    pub key: String,
    pub value: Option<String>,
}

/// One top-level item of a TOML document.
pub struct Section {
    pub name: String,
    pub entries: Option<Vec<Entry>>,
}

pub open spec fn entry_view(e: Entry) -> (Seq<char>, Option<Seq<char>>) {
    (
        e.key@,
        match e.value {
            Some(v) => Some(v@),
            None => None,
        },
    )
}

pub open spec fn entries_view(s: Seq<Entry>) -> EntriesView {
    s.map_values(|e: Entry| entry_view(e))
}

pub open spec fn section_view(s: Section) -> (Seq<char>, Option<EntriesView>) {
    (
        s.name@,
        match s.entries {
            Some(v) => Some(entries_view(v@)),
            None => None,
        },
    )
}

pub open spec fn sections_view(s: Seq<Section>) -> SectionsView {
    s.map_values(|x: Section| section_view(x))
}

/// Relies on `toml::from_str` parsing a document into a `toml::Table`, whose
/// items are taken apart into plain keys and string values.
#[verifier::external_body]
pub fn parse_sections(text: &str) -> (r: Option<Vec<Section>>)
    ensures
        match r {
            Some(v) => toml_sections(text@) == Some(sections_view(v@)),
            None => toml_sections(text@) is None,
        },
{
    let doc: toml::Table = toml::from_str(text).ok()?;
    Some(doc.into_iter().map(|(name, item)| Section {
        name,
        entries: match item {
            toml::Value::Table(t) => Some(t.into_iter().map(|(key, v)| Entry {
                key,
                value: match v { toml::Value::String(s) => Some(s), _ => None },
            }).collect()),
            _ => None,
        },
    }).collect())
}

pub open spec fn key_name() -> Seq<char> {
    seq!['n', 'a', 'm', 'e']
}

pub open spec fn key_path() -> Seq<char> {
    seq!['p', 'a', 't', 'h']
}

pub open spec fn key_git_path() -> Seq<char> {
    seq!['g', 'i', 't', '_', 'p', 'a', 't', 'h']
}

pub open spec fn section_template() -> Seq<char> {
    seq!['t', 'e', 'm', 'p', 'l', 'a', 't', 'e']
}

/// The string value of the first entry named `key`.
pub open spec fn entry_value(e: EntriesView, key: Seq<char>) -> Option<Seq<char>>
    decreases e.len(),
{
    if e.len() == 0 {
        None
    } else if e[0].0 == key {
        e[0].1
    } else {
        entry_value(e.drop_first(), key)
    }
}

/// The entries of the first item named `name`, if it is a table.
pub open spec fn section_entries(s: SectionsView, name: Seq<char>) -> Option<EntriesView>
    decreases s.len(),
{
    if s.len() == 0 {
        None
    } else if s[0].0 == name {
        s[0].1
    } else {
        section_entries(s.drop_first(), name)
    }
}

/// The record that a table describes: all three fields present as non-empty
/// strings, the local path with `~` expanded.
pub open spec fn record_from_entries(e: EntriesView, home: Seq<char>) -> Option<TemplateView> {
    match (entry_value(e, key_name()), entry_value(e, key_path()), entry_value(e, key_git_path())) {
        (Some(n), Some(p), Some(g)) => if n.len() > 0 && p.len() > 0 && g.len() > 0 {
            Some(TemplateView { name: n, path: expanded(p, home), git_path: g })
        } else {
            None
        },
        _ => None,
    }
}

/// The record that a record file's items describe, under its `template` table.
pub open spec fn record_of_sections(s: SectionsView, home: Seq<char>) -> Option<TemplateView> {
    match section_entries(s, section_template()) {
        Some(e) => record_from_entries(e, home),
        None => None,
    }
}

/// The record that one top-level item of a bulk file describes: `None`
/// where the item is no table or the table lacks a field.
pub open spec fn item_record(item: (Seq<char>, Option<EntriesView>), home: Seq<char>) -> Option<
    TemplateView,
> {
    match item.1 {
        Some(e) => record_from_entries(e, home),
        None => None,
    }
}

/// The records of the items of a bulk file that describe one, in order.
pub open spec fn bulk_records(s: SectionsView, home: Seq<char>) -> Seq<TemplateView>
    decreases s.len(),
{
    if s.len() == 0 {
        Seq::empty()
    } else {
        match item_record(s.last(), home) {
            Some(t) => bulk_records(s.drop_last(), home).push(t),
            None => bulk_records(s.drop_last(), home),
        }
    }
}

/// The keys of the items of a bulk file that describe no record, in order.
pub open spec fn bulk_rejected(s: SectionsView, home: Seq<char>) -> Seq<Seq<char>>
    decreases s.len(),
{
    if s.len() == 0 {
        Seq::empty()
    } else {
        match item_record(s.last(), home) {
            Some(t) => bulk_rejected(s.drop_last(), home),
            None => bulk_rejected(s.drop_last(), home).push(s.last().0),
        }
    }
}

/// The character sequences of some strings.
pub open spec fn texts(s: Seq<String>) -> Seq<Seq<char>> {
    s.map_values(|x: String| x@)
}

/// Whether two strings hold the same characters.
pub fn same_text(a: &str, b: &str) -> (r: bool)
    ensures
        r == (a@ == b@),
{
    if a.unicode_len() != b.unicode_len() {
        return false;
    }
    let r = crate::paths::has_prefix(a, b);
    proof {
        assert(a@.take(b@.len() as int) =~= a@);
    }
    r
}

/// The string value of the first entry of `entries` named `key`.
pub fn lookup_entry(entries: &Vec<Entry>, key: &str) -> (r: Option<String>)
    ensures
        match r {
            Some(v) => entry_value(entries_view(entries@), key@) == Some(v@),
            None => entry_value(entries_view(entries@), key@) is None,
        },
{
    let ghost ev = entries_view(entries@);
    proof {
        assert(ev.skip(0) =~= ev);
    }
    let mut i: usize = 0;
    while i < entries.len()
        invariant
            0 <= i <= entries@.len(),
            ev == entries_view(entries@),
            ev.len() == entries@.len(),
            entry_value(ev, key@) == entry_value(ev.skip(i as int), key@),
        decreases entries@.len() - i,
    {
        let e = &entries[i];
        proof {
            assert(ev.skip(i as int)[0] == entry_view(entries@[i as int]));
        }
        if same_text(e.key.as_str(), key) {
            return match &e.value {
                Some(v) => Some(v.clone()),
                None => None,
            };
        }
        proof {
            assert(ev.skip(i as int).drop_first() =~= ev.skip(i + 1));
        }
        i = i + 1;
    }
    proof {
        assert(ev.skip(i as int).len() == 0);
    }
    None
}

/// The record that the entries of one table describe, with `~` in its local
/// path expanded to `home`.
pub fn record_from_entry_list(entries: &Vec<Entry>, home: &String) -> (r: Option<Template>)
    ensures
        match r {
            Some(t) => record_from_entries(entries_view(entries@), home@) == Some(t@),
            None => record_from_entries(entries_view(entries@), home@) is None,
        },
{
    proof {
        reveal_strlit("name");
        reveal_strlit("path");
        reveal_strlit("git_path");
        assert("name"@ =~= key_name());
        assert("path"@ =~= key_path());
        assert("git_path"@ =~= key_git_path());
    }
    let name = lookup_entry(entries, "name");
    let path = lookup_entry(entries, "path");
    let git_path = lookup_entry(entries, "git_path");
    match (name, path, git_path) {
        (Some(n), Some(p), Some(g)) => {
            if n.as_str().unicode_len() > 0 && p.as_str().unicode_len() > 0
                && g.as_str().unicode_len() > 0 {
                let full = expand_home(&p, home);
                Some(Template { name: n, path: full, git_path: g })
            } else {
                None
            }
        },
        _ => None,
    }
}

/// The record held under the `template` table of a record file's items.
pub fn record_from_sections(sections: &Vec<Section>, home: &String) -> (r: Option<Template>)
    ensures
        match r {
            Some(t) => record_of_sections(sections_view(sections@), home@) == Some(t@),
            None => record_of_sections(sections_view(sections@), home@) is None,
        },
{
    let ghost sv = sections_view(sections@);
    proof {
        reveal_strlit("template");
        assert("template"@ =~= section_template());
        assert(sv.skip(0) =~= sv);
    }
    let mut i: usize = 0;
    while i < sections.len()
        invariant
            0 <= i <= sections@.len(),
            sv == sections_view(sections@),
            sv.len() == sections@.len(),
            "template"@ == section_template(),
            section_entries(sv, section_template()) == section_entries(
                sv.skip(i as int),
                section_template(),
            ),
        decreases sections@.len() - i,
    {
        let s = &sections[i];
        proof {
            assert(sv.skip(i as int)[0] == section_view(sections@[i as int]));
        }
        if same_text(s.name.as_str(), "template") {
            return match &s.entries {
                Some(e) => record_from_entry_list(e, home),
                None => None,
            };
        }
        proof {
            assert(sv.skip(i as int).drop_first() =~= sv.skip(i + 1));
        }
        i = i + 1;
    }
    proof {
        assert(sv.skip(i as int).len() == 0);
    }
    None
}

/// Decodes the text of a record file; `MalformedRecord` when `toml` refuses
/// it or it holds no complete record.
pub fn process_template_to_struct(text: &str, home: &String) -> (r: Result<Template, TemplateError>)
    ensures
        match toml_sections(text@) {
            None => r == Err::<Template, TemplateError>(TemplateError::MalformedRecord),
            Some(s) => match record_of_sections(s, home@) {
                Some(t) => r matches Ok(x) && x@ == t,
                None => r == Err::<Template, TemplateError>(TemplateError::MalformedRecord),
            },
        },
{
    match parse_sections(text) {
        None => Err(TemplateError::MalformedRecord),
        Some(sections) => match record_from_sections(&sections, home) {
            Some(t) => Ok(t),
            None => Err(TemplateError::MalformedRecord),
        },
    }
}

/// The record that the text of a record file holds, if it decodes.
pub open spec fn decoded(text: Seq<char>, home: Seq<char>) -> Option<TemplateView> {
    match toml_sections(text) {
        None => None,
        Some(s) => record_of_sections(s, home),
    }
}

/// Decodes the texts of all record files, in order; on failure, the index of
/// the first text that holds no complete record.
pub fn get_templates_to_vec(texts: &Vec<String>, home: &String) -> (r: Result<Vec<Template>, usize>)
    ensures
        match r {
            Ok(v) => v@.len() == texts@.len() && forall|i: int|
                0 <= i < texts@.len() ==> decoded(#[trigger] texts@[i]@, home@) == Some(v@[i]@),
            Err(k) => k < texts@.len() && decoded(texts@[k as int]@, home@) is None && forall|i: int|
                0 <= i < k ==> decoded(#[trigger] texts@[i]@, home@) is Some,
        },
{
    let mut out: Vec<Template> = Vec::new();
    let mut i: usize = 0;
    while i < texts.len()
        invariant
            0 <= i <= texts@.len(),
            out@.len() == i,
            forall|j: int| 0 <= j < i ==> decoded(#[trigger] texts@[j]@, home@) == Some(out@[j]@),
        decreases texts@.len() - i,
    {
        match process_template_to_struct(texts[i].as_str(), home) {
            Ok(t) => {
                out.push(t);
            },
            Err(_) => {
                return Err(i);
            },
        }
        i = i + 1;
    }
    Ok(out)
}

/// The outcome of decoding a bulk file: the records of its complete tables,
/// and the keys of the items that are no complete table.
pub struct BulkFile {
    pub candidates: Vec<Template>,
    pub rejected: Vec<String>,
}

/// Decodes each item of a bulk file on its own: a complete table gives a
/// candidate record, any other item is rejected by its key.
pub fn templates_from_sections(sections: &Vec<Section>, home: &String) -> (r: BulkFile)
    ensures
        views(r.candidates@) == bulk_records(sections_view(sections@), home@),
        texts(r.rejected@) == bulk_rejected(sections_view(sections@), home@),
{
    let ghost sv = sections_view(sections@);
    let mut candidates: Vec<Template> = Vec::new();
    let mut rejected: Vec<String> = Vec::new();
    let mut i: usize = 0;
    proof {
        assert(sv.take(0) =~= Seq::<(Seq<char>, Option<EntriesView>)>::empty());
        assert(views(candidates@) =~= Seq::<TemplateView>::empty());
        assert(texts(rejected@) =~= Seq::<Seq<char>>::empty());
    }
    while i < sections.len()
        invariant
            0 <= i <= sections@.len(),
            sv == sections_view(sections@),
            sv.len() == sections@.len(),
            views(candidates@) == bulk_records(sv.take(i as int), home@),
            texts(rejected@) == bulk_rejected(sv.take(i as int), home@),
        decreases sections@.len() - i,
    {
        let s = &sections[i];
        proof {
            assert(sv.take(i + 1).drop_last() =~= sv.take(i as int));
            assert(sv.take(i + 1).last() == section_view(sections@[i as int]));
        }
        let record = match &s.entries {
            None => None,
            Some(e) => record_from_entry_list(e, home),
        };
        match record {
            None => {
                let key = s.name.clone();
                proof {
                    assert(texts(rejected@.push(key)) =~= texts(rejected@).push(s.name@));
                }
                rejected.push(key);
            },
            Some(t) => {
                proof {
                    assert(views(candidates@.push(t)) =~= views(candidates@).push(t@));
                }
                candidates.push(t);
            },
        }
        i = i + 1;
    }
    proof {
        assert(sv.take(i as int) =~= sv);
    }
    BulkFile { candidates, rejected }
}

/// Decodes a bulk file: `InvalidFile` when `toml` refuses the text; else the
/// records of its complete tables and the keys of its other items.
pub fn decode_bulk(text: &str, home: &String) -> (r: Result<BulkFile, TemplateError>)
    ensures
        match toml_sections(text@) {
            None => r is Err && r->Err_0 == TemplateError::InvalidFile,
            Some(s) => r is Ok && views(r->Ok_0.candidates@) == bulk_records(s, home@) && texts(
                r->Ok_0.rejected@,
            ) == bulk_rejected(s, home@),
        },
{
    match parse_sections(text) {
        None => Err(TemplateError::InvalidFile),
        Some(sections) => Ok(templates_from_sections(&sections, home)),
    }
}

/// What `toml` writes for the string value `s`: a quoted TOML string.
pub uninterp spec fn toml_string_text(s: Seq<char>) -> Seq<char>;

/// Relies on `toml::Value`'s `Display`, which writes a string value as a TOML
/// string, quoted and escaped as the TOML grammar asks.
#[verifier::external_body]
fn toml_string(s: &str) -> (r: String)
    ensures
        r@ == toml_string_text(s@),
{
    toml::Value::String(s.to_string()).to_string()
}

/// A character allowed in a bare TOML key.
pub open spec fn bare_char(c: char) -> bool {
    ('a' <= c && c <= 'z') || ('A' <= c && c <= 'Z') || ('0' <= c && c <= '9') || c == '_' || c
        == '-'
}

/// A non-empty key made of bare-key characters only.
pub open spec fn bare_key(s: Seq<char>) -> bool {
    s.len() > 0 && forall|i: int| 0 <= i < s.len() ==> bare_char(#[trigger] s[i])
}

/// Whether `s` can stand as a TOML key without quotes.
pub fn is_bare_key(s: &str) -> (r: bool)
    ensures
        r == bare_key(s@),
{
    let n = s.unicode_len();
    if n == 0 {
        return false;
    }
    let mut i: usize = 0;
    while i < n
        invariant
            n == s@.len(),
            0 <= i <= n,
            forall|j: int| 0 <= j < i ==> bare_char(#[trigger] s@[j]),
        decreases n - i,
    {
        let c = s.get_char(i);
        if !(('a' <= c && c <= 'z') || ('A' <= c && c <= 'Z') || ('0' <= c && c <= '9') || c
            == '_' || c == '-') {
            return false;
        }
        i = i + 1;
    }
    true
}

/// The three key-value lines of a record, the local path home-contracted.
pub open spec fn fields_text(t: TemplateView, home: Seq<char>) -> Seq<char> {
    "name = "@ + toml_string_text(t.name) + "\npath = "@ + toml_string_text(
        contracted(t.path, home),
    ) + "\ngit_path = "@ + toml_string_text(t.git_path) + "\n"@
}

/// The text of a record file: the record under a `template` table.
pub open spec fn record_text(t: TemplateView, home: Seq<char>) -> Seq<char> {
    "[template]\n"@ + fields_text(t, home)
}

/// The key of a bulk-file table named after a record.
pub open spec fn section_header(name: Seq<char>) -> Seq<char> {
    if bare_key(name) {
        name
    } else {
        toml_string_text(name)
    }
}

/// One table of a bulk file, followed by a blank line.
pub open spec fn section_text(t: TemplateView, home: Seq<char>) -> Seq<char> {
    "["@ + section_header(t.name) + "]\n"@ + fields_text(t, home) + "\n"@
}

/// A bulk file holding `s`, one table per record in order.
pub open spec fn export_text(s: Seq<TemplateView>, home: Seq<char>) -> Seq<char>
    decreases s.len(),
{
    if s.len() == 0 {
        Seq::empty()
    } else {
        export_text(s.drop_last(), home) + section_text(s.last(), home)
    }
}

fn append_fields(out: &mut String, t: &Template, home: &String)
    ensures
        final(out)@ == old(out)@ + fields_text(t@, home@),
{
    out.append("name = ");
    out.append(toml_string(t.name.as_str()).as_str());
    out.append("\npath = ");
    out.append(toml_string(contract_home(&t.path, home).as_str()).as_str());
    out.append("\ngit_path = ");
    out.append(toml_string(t.git_path.as_str()).as_str());
    out.append("\n");
    assert(final(out)@ =~= old(out)@ + fields_text(t@, home@));
}

/// Encodes a record as the text of its record file.
pub fn encode_record(t: &Template, home: &String) -> (r: String)
    ensures
        r@ == record_text(t@, home@),
{
    let mut r = String::from_str("[template]\n");
    append_fields(&mut r, t, home);
    r
}

/// Appends the bulk-file table of one record.
pub fn append_section(out: &mut String, t: &Template, home: &String)
    ensures
        final(out)@ == old(out)@ + section_text(t@, home@),
{
    out.append("[");
    if is_bare_key(t.name.as_str()) {
        out.append(t.name.as_str());
    } else {
        out.append(toml_string(t.name.as_str()).as_str());
    }
    out.append("]\n");
    append_fields(out, t, home);
    out.append("\n");
    assert(final(out)@ =~= old(out)@ + section_text(t@, home@));
}

/// The entries that a record's key-value lines stand for.
pub open spec fn fields_entries(t: TemplateView, home: Seq<char>) -> EntriesView {
    seq![
        (key_name(), Some(t.name)),
        (key_path(), Some(contracted(t.path, home))),
        (key_git_path(), Some(t.git_path)),
    ]
}

/// The items that a record file stands for.
pub open spec fn record_sections(t: TemplateView, home: Seq<char>) -> SectionsView {
    seq![(section_template(), Some(fields_entries(t, home)))]
}

/// The items that a bulk file of `s` stands for, one table per record.
pub open spec fn export_sections(s: Seq<TemplateView>, home: Seq<char>) -> SectionsView {
    s.map_values(|t: TemplateView| (t.name, Some(fields_entries(t, home))))
}

/// A record whose local path is under the home directory, or does not start
/// with `~`: expanding its contracted path gives the path back.
pub open spec fn portable(t: TemplateView, home: Seq<char>) -> bool {
    under_home(t.path, home) || !starts_with_tilde(t.path)
}

/// Reading back the entries written for a well-formed record gives the record.
pub proof fn lemma_fields_round_trip(t: TemplateView, home: Seq<char>)
    requires
        t.wf(),
        portable(t, home),
    ensures
        record_from_entries(fields_entries(t, home), home) == Some(t),
{
    let e = fields_entries(t, home);
    assert(key_name()[0] != key_path()[0]);
    assert(key_name().len() != key_git_path().len());
    assert(key_path().len() != key_git_path().len());
    assert(e.drop_first()[0] == e[1]);
    assert(e.drop_first().drop_first()[0] == e[2]);
    assert(entry_value(e, key_name()) == Some(t.name));
    assert(entry_value(e.drop_first(), key_path()) == Some(contracted(t.path, home)));
    assert(entry_value(e, key_path()) == Some(contracted(t.path, home)));
    assert(entry_value(e.drop_first().drop_first(), key_git_path()) == Some(t.git_path));
    assert(entry_value(e.drop_first(), key_git_path()) == Some(t.git_path));
    assert(entry_value(e, key_git_path()) == Some(t.git_path));
    lemma_expand_contract(t.path, home);
    let p = contracted(t.path, home);
    assert(p.len() > 0);
    assert(t == TemplateView { name: t.name, path: expanded(p, home), git_path: t.git_path });
}

/// The items that a record file lays out for a well-formed record describe
/// the same record: contraction of its local path is undone by expansion.
/// Whether `toml` parses the text into those items is what
/// `encode_record_checked` tests.
pub proof fn lemma_record_round_trip(t: TemplateView, home: Seq<char>)
    requires
        t.wf(),
        portable(t, home),
    ensures
        record_of_sections(record_sections(t, home), home) == Some(t),
{
    lemma_fields_round_trip(t, home);
}

/// The tables that a bulk file of well-formed records lays out give back the
/// same records, in the same order, and no item is rejected.
pub proof fn lemma_export_import_round_trip(s: Seq<TemplateView>, home: Seq<char>)
    requires
        forall|i: int| 0 <= i < s.len() ==> (#[trigger] s[i]).wf() && portable(s[i], home),
    ensures
        bulk_records(export_sections(s, home), home) == s,
        bulk_rejected(export_sections(s, home), home) == Seq::<Seq<char>>::empty(),
    decreases s.len(),
{
    if s.len() > 0 {
        let d = s.drop_last();
        assert forall|i: int| 0 <= i < d.len() implies (#[trigger] d[i]).wf() && portable(
            d[i],
            home,
        ) by {
            assert(d[i] == s[i]);
        }
        lemma_export_import_round_trip(d, home);
        assert(export_sections(s, home).drop_last() =~= export_sections(d, home));
        lemma_fields_round_trip(s.last(), home);
        let es = export_sections(s, home);
        assert(es.len() == s.len());
        assert(es.last() == (s.last().name, Some(fields_entries(s.last(), home))));
        assert(d.push(s.last()) =~= s);
        assert(item_record(es.last(), home) == Some(s.last()));
    } else {
        assert(s =~= Seq::<TemplateView>::empty());
    }
}

/// A record as it reads back after its local path was home-contracted on
/// writing and expanded on reading.
pub open spec fn normalized(t: TemplateView, home: Seq<char>) -> TemplateView {
    TemplateView { name: t.name, path: expanded(contracted(t.path, home), home), git_path: t.git_path }
}

/// Every record of `s`, normalized.
pub open spec fn normalized_all(s: Seq<TemplateView>, home: Seq<char>) -> Seq<TemplateView> {
    s.map_values(|t: TemplateView| normalized(t, home))
}

/// A portable record reads back unchanged.
pub proof fn lemma_portable_normalized(t: TemplateView, home: Seq<char>)
    requires
        portable(t, home),
    ensures
        normalized(t, home) == t,
{
    lemma_expand_contract(t.path, home);
}

/// `toml` reads the text of a record file back into the record `t`, normalized.
pub open spec fn record_reads_back(text: Seq<char>, t: TemplateView, home: Seq<char>) -> bool {
    decoded(text, home) == Some(normalized(t, home))
}

/// `toml` reads a bulk file back into exactly the records `s`, normalized,
/// in order, with no item rejected.
pub open spec fn export_reads_back(text: Seq<char>, s: Seq<TemplateView>, home: Seq<char>) -> bool {
    match toml_sections(text) {
        Some(secs) => bulk_records(secs, home) == normalized_all(s, home) && bulk_rejected(
            secs,
            home,
        ).len() == 0,
        None => false,
    }
}

/// Whether two records hold the same fields.
pub fn same_template(a: &Template, b: &Template) -> (r: bool)
    ensures
        r == (a@ == b@),
{
    a.name == b.name && a.path == b.path && a.git_path == b.git_path
}

/// The record as it reads back after contraction and expansion of its path.
pub fn normalize(t: &Template, home: &String) -> (r: Template)
    ensures
        r@ == normalized(t@, home@),
{
    let path = expand_home(&contract_home(&t.path, home), home);
    Template { name: t.name.clone(), path, git_path: t.git_path.clone() }
}

/// A well-formed portable record whose file text `toml` reads back (what
/// `encode_record_checked` hands out) reads back with identical fields.
pub proof fn lemma_written_record_reads_back(t: TemplateView, home: Seq<char>, text: Seq<char>)
    requires
        portable(t, home),
        record_reads_back(text, t, home),
    ensures
        decoded(text, home) == Some(t),
{
    lemma_portable_normalized(t, home);
}

/// Encodes a record as the text of its record file, and reads the text back
/// with `toml`: the text is handed out only when it reads back as the record.
pub fn encode_record_checked(t: &Template, home: &String) -> (r: Result<String, TemplateError>)
    ensures
        match r {
            Ok(text) => text@ == record_text(t@, home@) && record_reads_back(text@, t@, home@),
            Err(e) => e == TemplateError::MalformedRecord && !record_reads_back(
                record_text(t@, home@),
                t@,
                home@,
            ),
        },
{
    let text = encode_record(t, home);
    let expected = normalize(t, home);
    match process_template_to_struct(text.as_str(), home) {
        Ok(back) => {
            if same_template(&back, &expected) {
                Ok(text)
            } else {
                Err(TemplateError::MalformedRecord)
            }
        },
        Err(_) => Err(TemplateError::MalformedRecord),
    }
}

} // verus!
