//! Operations on the registry's records: insert, remove, import, export, list.

use crate::codec::{
    append_section, bulk_records, decode_bulk, export_reads_back, export_text, normalize,
    normalized, normalized_all, same_template, toml_sections,
};
use crate::error::TemplateError;
use crate::order::{sort_by_name, sorted_by_name};
use crate::resolver::{
    chosen_field, chosen_value, last_match, lemma_last_match_is_last,
    matching_field, resolution, resolve_index,
};
use crate::template::{contains_name, has_name, views, Template, TemplateView};
use vstd::prelude::*;

verus! {

/// The record file of `name` in the templates directory `folder`.
pub open spec fn record_file_path(folder: Seq<char>, name: Seq<char>) -> Seq<char> {
    folder + "/"@ + name + ".toml"@
}

/// The path of the record file of `name` in the templates directory `folder`.
pub fn template_file_path(folder: &String, name: &String) -> (r: String)
    ensures
        r@ == record_file_path(folder@, name@),
{
    let mut r = folder.clone();
    r.append("/");
    r.append(name.as_str());
    r.append(".toml");
    r
}

/// The path names a file whose extension is `toml`: it ends in `.toml`, and
/// something other than a separator stands before that suffix.
pub open spec fn toml_extension(p: Seq<char>) -> bool {
    &&& p.len() > 5
    &&& p.skip(p.len() - 5) == seq!['.', 't', 'o', 'm', 'l']
    &&& p[p.len() - 6] != '/'
}

/// Checks the source of an import: it must exist, be no directory and have
/// the `toml` extension; otherwise `InvalidFile`.
pub fn check_import_file(path: &String, file_exists: bool, is_dir: bool) -> (r: Result<
    (),
    TemplateError,
>)
    ensures
        r is Ok <==> (file_exists && !is_dir && toml_extension(path@)),
        r is Err ==> r == Err::<(), TemplateError>(TemplateError::InvalidFile),
{
    if !file_exists || is_dir {
        return Err(TemplateError::InvalidFile);
    }
    let p = path.as_str();
    let n = p.unicode_len();
    if n <= 5 {
        return Err(TemplateError::InvalidFile);
    }
    let tail = p.substring_char(n - 5, n);
    proof {
        reveal_strlit(".toml");
        assert(".toml"@ =~= seq!['.', 't', 'o', 'm', 'l']);
        assert(tail@ =~= path@.skip(n - 5));
    }
    if crate::codec::same_text(tail, ".toml") && p.get_char(n - 6) != '/' {
        Ok(())
    } else {
        Err(TemplateError::InvalidFile)
    }
}

/// Adds a new record; refuses with `AlreadyExists`, leaving the registry as it
/// was, when a record of the same name exists.
pub fn insert_record(records: &mut Vec<Template>, t: Template) -> (r: Result<(), TemplateError>)
    ensures
        has_name(views(old(records)@), t.name@) ==> r == Err::<(), TemplateError>(
            TemplateError::AlreadyExists,
        ) && final(records)@ == old(records)@,
        !has_name(views(old(records)@), t.name@) ==> r is Ok && final(records)@ == old(
            records,
        )@.push(t),
{
    if contains_name(records, &t.name) {
        Err(TemplateError::AlreadyExists)
    } else {
        records.push(t);
        Ok(())
    }
}

/// The index of the record that user input designates, if any.
pub open spec fn resolved_index(
    s: Seq<Template>,
    name: Option<String>,
    path: Option<String>,
    git_path: Option<String>,
) -> Option<int> {
    match chosen_field(name, path, git_path) {
        None => None,
        Some(f) => last_match(s, f, chosen_value(name, path, git_path)),
    }
}

/// Removes the record that the user's input designates, and only it;
/// `InsufficientInput` or `NotFound` leave the registry as it was.
pub fn remove_template(
    records: &mut Vec<Template>,
    name: Option<String>,
    path: Option<String>,
    git_path: Option<String>,
) -> (r: Result<Template, TemplateError>)
    ensures
        r == resolution(old(records)@, name, path, git_path),
        match resolved_index(old(records)@, name, path, git_path) {
            None => final(records)@ == old(records)@,
            Some(i) => {
                &&& 0 <= i < old(records)@.len()
                &&& final(records)@ == old(records)@.remove(i)
                &&& final(records)@.len() == old(records)@.len() - 1
                &&& forall|j: int| 0 <= j < i ==> #[trigger] final(records)@[j] == old(records)@[j]
                &&& forall|j: int|
                    i <= j < final(records)@.len() ==> #[trigger] final(records)@[j] == old(
                        records,
                    )@[j + 1]
            },
        },
{
    let field = matching_field(&name, &path, &git_path);
    match field {
        None => Err(TemplateError::InsufficientInput),
        Some(f) => {
            let value = match &name {
                Some(n) => n.clone(),
                None => match &path {
                    Some(p) => p.clone(),
                    None => git_path.clone().unwrap(),
                },
            };
            proof {
                lemma_last_match_is_last(records@, f, value@);
            }
            match resolve_index(records, f, &value) {
                None => Err(TemplateError::NotFound),
                Some(i) => {
                    let t = records.remove(i);
                    Ok(t)
                },
            }
        },
    }
}

/// A copy of the records in the same order.
pub fn copy_templates(records: &Vec<Template>) -> (r: Vec<Template>)
    ensures
        r@ == records@,
{
    let mut r: Vec<Template> = Vec::new();
    let mut i: usize = 0;
    while i < records.len()
        invariant
            0 <= i <= records@.len(),
            r@ == records@.take(i as int),
        decreases records@.len() - i,
    {
        r.push(records[i].duplicate());
        proof {
            assert(records@.take(i + 1) =~= records@.take(i as int).push(records@[i as int]));
        }
        i = i + 1;
    }
    proof {
        assert(records@.take(i as int) =~= records@);
    }
    r
}

/// The records in ascending order of name.
pub fn sorted_templates(records: &Vec<Template>) -> (r: Vec<Template>)
    ensures
        r@.to_multiset() == records@.to_multiset(),
        sorted_by_name(r@),
{
    let mut r = copy_templates(records);
    sort_by_name(&mut r);
    r
}

pub open spec fn placeholder_text() -> Seq<char> {
    "No templates found"@
}

/// The row shown when the registry is empty.
pub open spec fn placeholder_row(t: TemplateView) -> bool {
    t.name == placeholder_text() && t.path == placeholder_text() && t.git_path == placeholder_text()
}

/// The rows of the listing: the records sorted by name, or a single
/// placeholder row when there is none.
pub fn list_templates(records: &Vec<Template>) -> (r: Vec<Template>)
    ensures
        records@.len() == 0 ==> r@.len() == 1 && placeholder_row(r@[0]@),
        records@.len() > 0 ==> r@.to_multiset() == records@.to_multiset() && sorted_by_name(r@),
{
    if records.len() == 0 {
        let mut r: Vec<Template> = Vec::new();
        r.push(
            Template {
                name: String::from_str("No templates found"),
                path: String::from_str("No templates found"),
                git_path: String::from_str("No templates found"),
            },
        );
        r
    } else {
        sorted_templates(records)
    }
}

/// The records whose local path is reported missing: `present[i]` tells
/// whether the local path of `records[i]` exists.
pub fn templates_missing_locally(records: &Vec<Template>, present: &Vec<bool>) -> (r: Vec<
    Template,
>)
    requires
        present@.len() == records@.len(),
    ensures
        r@ == missing_spec(records@, present@),
{
    let mut r: Vec<Template> = Vec::new();
    let mut i: usize = 0;
    while i < records.len()
        invariant
            present@.len() == records@.len(),
            0 <= i <= records@.len(),
            r@ == missing_spec(records@.take(i as int), present@.take(i as int)),
        decreases records@.len() - i,
    {
        proof {
            assert(records@.take(i + 1).drop_last() =~= records@.take(i as int));
            assert(present@.take(i + 1).drop_last() =~= present@.take(i as int));
        }
        if !present[i] {
            r.push(records[i].duplicate());
        }
        i = i + 1;
    }
    proof {
        assert(records@.take(i as int) =~= records@);
        assert(present@.take(i as int) =~= present@);
    }
    r
}

/// The records, in order, whose flag in `present` is false.
pub open spec fn missing_spec(s: Seq<Template>, present: Seq<bool>) -> Seq<Template>
    decreases s.len(),
{
    if s.len() == 0 || present.len() != s.len() {
        Seq::empty()
    } else if present.last() {
        missing_spec(s.drop_last(), present.drop_last())
    } else {
        missing_spec(s.drop_last(), present.drop_last()).push(s.last())
    }
}

/// The bulk file holding the records, sorted by name, local paths
/// home-contracted. The text is read back with `toml` and handed out only
/// when it gives back exactly those records; else `MalformedRecord`.
pub fn export_templates(records: &Vec<Template>, home: &String) -> (r: Result<String, TemplateError>)
    ensures
        exists|s: Seq<Template>|
            s.to_multiset() == records@.to_multiset() && sorted_by_name(s) && match r {
                Ok(text) => text@ == export_text(#[trigger] views(s), home@) && export_reads_back(
                    text@,
                    views(s),
                    home@,
                ),
                Err(e) => e == TemplateError::MalformedRecord && !export_reads_back(
                    export_text(views(s), home@),
                    views(s),
                    home@,
                ),
            },
{
    let sorted = sorted_templates(records);
    let text = render_export(&sorted, home);
    let expected = normalize_all(&sorted, home);
    let r = match decode_bulk(text.as_str(), home) {
        Err(_) => Err(TemplateError::MalformedRecord),
        Ok(bulk) => {
            if bulk.rejected.len() == 0 && same_templates(&bulk.candidates, &expected) {
                Ok(text)
            } else {
                Err(TemplateError::MalformedRecord)
            }
        },
    };
    assert(views(sorted@) == views(sorted@));
    r
}

/// Every record, normalized as it reads back.
pub fn normalize_all(records: &Vec<Template>, home: &String) -> (r: Vec<Template>)
    ensures
        views(r@) == normalized_all(views(records@), home@),
{
    let mut r: Vec<Template> = Vec::new();
    let mut i: usize = 0;
    while i < records.len()
        invariant
            0 <= i <= records@.len(),
            views(r@) == normalized_all(views(records@.take(i as int)), home@),
        decreases records@.len() - i,
    {
        let t = normalize(&records[i], home);
        proof {
            assert(views(r@.push(t)) =~= views(r@).push(t@));
            assert(normalized_all(views(records@.take(i + 1)), home@) =~= normalized_all(
                views(records@.take(i as int)),
                home@,
            ).push(normalized(records@[i as int]@, home@)));
        }
        r.push(t);
        i = i + 1;
    }
    proof {
        assert(records@.take(i as int) =~= records@);
    }
    r
}

/// Whether two lists hold the same records in the same order.
pub fn same_templates(a: &Vec<Template>, b: &Vec<Template>) -> (r: bool)
    ensures
        r == (views(a@) == views(b@)),
{
    if a.len() != b.len() {
        proof {
            assert(views(a@).len() != views(b@).len());
        }
        return false;
    }
    let mut i: usize = 0;
    while i < a.len()
        invariant
            a@.len() == b@.len(),
            0 <= i <= a@.len(),
            forall|j: int| 0 <= j < i ==> #[trigger] views(a@)[j] == views(b@)[j],
        decreases a@.len() - i,
    {
        if !same_template(&a[i], &b[i]) {
            assert(views(a@)[i as int] != views(b@)[i as int]);
            return false;
        }
        i = i + 1;
    }
    assert(views(a@) =~= views(b@));
    true
}

/// The bulk file holding the records in the order given.
pub fn render_export(records: &Vec<Template>, home: &String) -> (r: String)
    ensures
        r@ == export_text(views(records@), home@),
{
    let mut r = String::new();
    let mut i: usize = 0;
    while i < records.len()
        invariant
            0 <= i <= records@.len(),
            r@ == export_text(views(records@.take(i as int)), home@),
        decreases records@.len() - i,
    {
        proof {
            assert(views(records@.take(i + 1)).drop_last() =~= views(records@.take(i as int)));
            assert(views(records@.take(i + 1)).last() == records@[i as int]@);
        }
        append_section(&mut r, &records[i], home);
        i = i + 1;
    }
    proof {
        assert(records@.take(i as int) =~= records@);
    }
    r
}

/// Import of one candidate: skipped when its name is taken, else added.
pub open spec fn merge_step(reg: Seq<TemplateView>, t: TemplateView) -> Seq<TemplateView> {
    if has_name(reg, t.name) {
        reg
    } else {
        reg.push(t)
    }
}

/// The registry after importing the candidates `c` in order.
pub open spec fn merged(reg: Seq<TemplateView>, c: Seq<TemplateView>) -> Seq<TemplateView>
    decreases c.len(),
{
    if c.len() == 0 {
        reg
    } else {
        merge_step(merged(reg, c.drop_last()), c.last())
    }
}

/// No two records share a name.
pub open spec fn distinct_names(s: Seq<TemplateView>) -> bool {
    forall|i: int, j: int| 0 <= i < j < s.len() ==> #[trigger] s[i].name != #[trigger] s[j].name
}

proof fn lemma_has_name_concat(a: Seq<TemplateView>, b: Seq<TemplateView>, n: Seq<char>)
    ensures
        has_name(a + b, n) == (has_name(a, n) || has_name(b, n)),
{
    if has_name(a + b, n) {
        let i = choose|i: int| 0 <= i < (a + b).len() && #[trigger] (a + b)[i].name == n;
        if i >= a.len() {
            assert(b[i - a.len()].name == n);
        }
    }
    if has_name(a, n) {
        let i = choose|i: int| 0 <= i < a.len() && #[trigger] a[i].name == n;
        assert((a + b)[i].name == n);
    }
    if has_name(b, n) {
        let i = choose|i: int| 0 <= i < b.len() && #[trigger] b[i].name == n;
        assert((a + b)[a.len() + i].name == n);
    }
}

/// The candidates to create when importing `candidates`: those whose name is
/// neither in the registry nor taken by an earlier candidate, in order.
pub fn import_templates(records: &Vec<Template>, candidates: &Vec<Template>) -> (plan: Vec<
    Template,
>)
    ensures
        views(records@) + views(plan@) == merged(views(records@), views(candidates@)),
{
    let ghost reg = views(records@);
    let ghost c = views(candidates@);
    let mut plan: Vec<Template> = Vec::new();
    let mut i: usize = 0;
    proof {
        assert(c.take(0) =~= Seq::<TemplateView>::empty());
        assert(reg + views(plan@) =~= reg);
    }
    while i < candidates.len()
        invariant
            0 <= i <= candidates@.len(),
            reg == views(records@),
            c == views(candidates@),
            reg + views(plan@) == merged(reg, c.take(i as int)),
        decreases candidates@.len() - i,
    {
        let t = &candidates[i];
        proof {
            assert(c.take(i + 1).drop_last() =~= c.take(i as int));
            assert(c.take(i + 1).last() == t@);
            lemma_has_name_concat(reg, views(plan@), t.name@);
        }
        if !contains_name(records, &t.name) && !contains_name(&plan, &t.name) {
            let d = t.duplicate();
            proof {
                assert(views(plan@.push(d)) =~= views(plan@).push(t@));
                assert(reg + views(plan@).push(t@) =~= (reg + views(plan@)).push(t@));
            }
            plan.push(d);
        }
        i = i + 1;
    }
    proof {
        assert(c.take(i as int) =~= c);
    }
    plan
}

proof fn lemma_merged_has_candidates(reg: Seq<TemplateView>, c: Seq<TemplateView>)
    ensures
        forall|k: int| 0 <= k < c.len() ==> has_name(merged(reg, c), #[trigger] c[k].name),
    decreases c.len(),
{
    if c.len() > 0 {
        let d = c.drop_last();
        lemma_merged_has_candidates(reg, d);
        let m = merged(reg, d);
        let x = c.last();
        if !has_name(m, x.name) {
            assert(m.push(x)[m.len() as int].name == x.name);
        }
        assert forall|k: int| 0 <= k < c.len() implies has_name(
            merged(reg, c),
            #[trigger] c[k].name,
        ) by {
            if k < c.len() - 1 {
                assert(c[k] == d[k]);
                assert(has_name(m, d[k].name));
                let i = choose|i: int| 0 <= i < m.len() && #[trigger] m[i].name == d[k].name;
                assert(merge_step(m, x)[i].name == c[k].name);
            }
        }
    }
}

proof fn lemma_merged_noop(r: Seq<TemplateView>, c: Seq<TemplateView>)
    requires
        forall|k: int| 0 <= k < c.len() ==> has_name(r, #[trigger] c[k].name),
    ensures
        merged(r, c) == r,
    decreases c.len(),
{
    if c.len() > 0 {
        let d = c.drop_last();
        assert forall|k: int| 0 <= k < d.len() implies has_name(r, #[trigger] d[k].name) by {
            assert(d[k] == c[k]);
        }
        lemma_merged_noop(r, d);
        assert(has_name(r, c[c.len() - 1].name));
    }
}

/// Importing the same candidates a second time changes nothing: every
/// candidate's name is then taken, so all of them are skipped.
pub proof fn lemma_import_idempotent(reg: Seq<TemplateView>, c: Seq<TemplateView>)
    ensures
        merged(merged(reg, c), c) == merged(reg, c),
{
    lemma_merged_has_candidates(reg, c);
    lemma_merged_noop(merged(reg, c), c);
}

/// Importing records of distinct names into an empty registry yields exactly
/// those records.
pub proof fn lemma_import_into_empty(s: Seq<TemplateView>)
    requires
        distinct_names(s),
    ensures
        merged(Seq::empty(), s) == s,
    decreases s.len(),
{
    if s.len() > 0 {
        let d = s.drop_last();
        assert(distinct_names(d)) by {
            assert forall|i: int, j: int| 0 <= i < j < d.len() implies #[trigger] d[i].name
                != #[trigger] d[j].name by {
                assert(d[i] == s[i] && d[j] == s[j]);
            }
        }
        lemma_import_into_empty(d);
        if has_name(d, s.last().name) {
            let i = choose|i: int| 0 <= i < d.len() && #[trigger] d[i].name == s.last().name;
            assert(s[i].name == s[s.len() - 1].name);
        }
        assert(d.push(s.last()) =~= s);
    } else {
        assert(s =~= Seq::<TemplateView>::empty());
    }
}

/// Exporting a registry of records with distinct names, clearing it and
/// importing the bulk file that export handed out reproduces the same records,
/// local paths normalized by contraction and expansion; a portable record
/// comes back unchanged.
pub proof fn lemma_export_clear_import(s: Seq<TemplateView>, home: Seq<char>, text: Seq<char>)
    requires
        distinct_names(s),
        export_reads_back(text, s, home),
    ensures
        toml_sections(text) is Some,
        merged(Seq::empty(), bulk_records(toml_sections(text)->0, home)) == normalized_all(s, home),
        (forall|i: int| 0 <= i < s.len() ==> crate::codec::portable(#[trigger] s[i], home))
            ==> normalized_all(s, home) == s,
{
    let n = normalized_all(s, home);
    assert(distinct_names(n)) by {
        assert forall|i: int, j: int| 0 <= i < j < n.len() implies #[trigger] n[i].name
            != #[trigger] n[j].name by {
            assert(n[i].name == s[i].name && n[j].name == s[j].name);
        }
    }
    lemma_import_into_empty(n);
    if forall|i: int| 0 <= i < s.len() ==> crate::codec::portable(#[trigger] s[i], home) {
        assert forall|i: int| 0 <= i < s.len() implies #[trigger] n[i] == s[i] by {
            crate::codec::lemma_portable_normalized(s[i], home);
        }
        assert(n =~= s);
    }
}

} // verus!
