//! Resolution of partial user input to one stored record.

use crate::error::TemplateError;
use crate::order::{lemma_name_le_antisymmetric, lemma_name_le_reflexive, name_le, sorted_by_name};
use crate::template::Template;
use vstd::prelude::*;

verus! {

/// The field of a record that drives resolution.
#[derive(Clone, Copy, Debug, PartialEq, Eq, Structural)]
pub enum MatchField {
    ByName,
    ByLocalPath,
    ByRemotePath,
}

/// The value of field `f` of record `t`.
pub open spec fn field_value(t: Template, f: MatchField) -> Seq<char> {
    match f {
        MatchField::ByName => t.name@,
        MatchField::ByLocalPath => t.path@,
        MatchField::ByRemotePath => t.git_path@,
    }
}

/// The field chosen by precedence: name, then local path, then remote path.
pub open spec fn chosen_field(
    name: Option<String>,
    path: Option<String>,
    git_path: Option<String>,
) -> Option<MatchField> {
    if name is Some {
        Some(MatchField::ByName)
    } else if path is Some {
        Some(MatchField::ByLocalPath)
    } else if git_path is Some {
        Some(MatchField::ByRemotePath)
    } else {
        None
    }
}

/// The value that the user supplied for the chosen field.
pub open spec fn chosen_value(
    name: Option<String>,
    path: Option<String>,
    git_path: Option<String>,
) -> Seq<char> {
    if name is Some {
        name->0@
    } else if path is Some {
        path->0@
    } else {
        git_path->0@
    }
}

/// The index of the last record of `s` whose field `f` equals `v`.
pub open spec fn last_match(s: Seq<Template>, f: MatchField, v: Seq<char>) -> Option<int>
    decreases s.len(),
{
    if s.len() == 0 {
        None
    } else if field_value(s.last(), f) == v {
        Some(s.len() - 1)
    } else {
        last_match(s.drop_last(), f, v)
    }
}

/// The outcome of resolving user input against the records `s`, in enumeration order.
pub open spec fn resolution(
    s: Seq<Template>,
    name: Option<String>,
    path: Option<String>,
    git_path: Option<String>,
) -> Result<Template, TemplateError> {
    match chosen_field(name, path, git_path) {
        None => Err(TemplateError::InsufficientInput),
        Some(f) => match last_match(s, f, chosen_value(name, path, git_path)) {
            None => Err(TemplateError::NotFound),
            Some(i) => Ok(s[i]),
        },
    }
}

/// Picks the field that drives resolution, by the fixed precedence
/// name, local path, remote path.
pub fn matching_field(
    name: &Option<String>,
    path: &Option<String>,
    git_path: &Option<String>,
) -> (r: Option<MatchField>)
    ensures
        r == chosen_field(*name, *path, *git_path),
{
    if name.is_some() {
        Some(MatchField::ByName)
    } else if path.is_some() {
        Some(MatchField::ByLocalPath)
    } else if git_path.is_some() {
        Some(MatchField::ByRemotePath)
    } else {
        None
    }
}

/// The value that the user supplied for the field chosen by precedence.
pub fn chosen_input(
    name: &Option<String>,
    path: &Option<String>,
    git_path: &Option<String>,
) -> (r: Option<String>)
    ensures
        match chosen_field(*name, *path, *git_path) {
            None => r is None,
            Some(_) => r matches Some(v) && v@ == chosen_value(*name, *path, *git_path),
        },
{
    match name {
        Some(n) => Some(n.clone()),
        None => match path {
            Some(p) => Some(p.clone()),
            None => match git_path {
                Some(g) => Some(g.clone()),
                None => None,
            },
        },
    }
}

/// One step of the scan: the current index becomes the match if its field
/// equals the user's value, else the previous match stands.
fn match_user_input_with_template_data(
    previous: Option<usize>,
    template_data: &String,
    user_input: &String,
    index: usize,
) -> (r: Option<usize>)
    ensures
        r == if template_data@ == user_input@ { Some(index) } else { previous },
{
    if *template_data == *user_input {
        Some(index)
    } else {
        previous
    }
}

/// The index of the last record whose field `field` equals `value`.
pub fn resolve_index(templates: &Vec<Template>, field: MatchField, value: &String) -> (r: Option<
    usize,
>)
    ensures
        match r {
            Some(i) => last_match(templates@, field, value@) == Some(i as int),
            None => last_match(templates@, field, value@) is None,
        },
{
    let mut found: Option<usize> = None;
    let mut i: usize = 0;
    while i < templates.len()
        invariant
            0 <= i <= templates@.len(),
            match found {
                Some(k) => last_match(templates@.take(i as int), field, value@) == Some(k as int),
                None => last_match(templates@.take(i as int), field, value@) is None,
            },
        decreases templates@.len() - i,
    {
        let t = &templates[i];
        let data = match field {
            MatchField::ByName => &t.name,
            MatchField::ByLocalPath => &t.path,
            MatchField::ByRemotePath => &t.git_path,
        };
        found = match_user_input_with_template_data(found, data, value, i);
        proof {
            assert(templates@.take(i + 1).drop_last() =~= templates@.take(i as int));
            assert(templates@.take(i + 1).last() == templates@[i as int]);
        }
        i = i + 1;
    }
    proof {
        assert(templates@.take(templates@.len() as int) =~= templates@);
    }
    found
}

/// How many records of `s` have field `f` equal to `v`.
pub open spec fn match_count(s: Seq<Template>, f: MatchField, v: Seq<char>) -> nat
    decreases s.len(),
{
    if s.len() == 0 {
        0
    } else {
        match_count(s.drop_last(), f, v) + if field_value(s.last(), f) == v {
            1nat
        } else {
            0nat
        }
    }
}

/// How many records share the value that resolution compares: more than one
/// means the registry holds duplicate field values, which resolution settles
/// by its last-match rule.
pub fn count_matches(templates: &Vec<Template>, field: MatchField, value: &String) -> (r: usize)
    ensures
        r == match_count(templates@, field, value@),
{
    let mut n: usize = 0;
    let mut i: usize = 0;
    while i < templates.len()
        invariant
            0 <= i <= templates@.len(),
            n == match_count(templates@.take(i as int), field, value@),
            n <= i,
        decreases templates@.len() - i,
    {
        let t = &templates[i];
        let data = match field {
            MatchField::ByName => &t.name,
            MatchField::ByLocalPath => &t.path,
            MatchField::ByRemotePath => &t.git_path,
        };
        proof {
            assert(templates@.take(i + 1).drop_last() =~= templates@.take(i as int));
            assert(templates@.take(i + 1).last() == templates@[i as int]);
        }
        if *data == *value {
            n = n + 1;
        }
        i = i + 1;
    }
    proof {
        assert(templates@.take(i as int) =~= templates@);
    }
    n
}

/// Finds the one record that the user's partial input designates: the field
/// is chosen by precedence and the last record in enumeration order whose
/// field equals the supplied value wins.
pub fn match_user_input_with_existing_templates(
    templates: &Vec<Template>,
    name: Option<String>,
    path: Option<String>,
    git_path: Option<String>,
) -> (r: Result<Template, TemplateError>)
    ensures
        r == resolution(templates@, name, path, git_path),
{
    let field = matching_field(&name, &path, &git_path);
    match field {
        None => Err(TemplateError::InsufficientInput),
        Some(f) => {
            let value = match name {
                Some(n) => n,
                None => match path {
                    Some(p) => p,
                    None => git_path.unwrap(),
                },
            };
            match resolve_index(templates, f, &value) {
                None => Err(TemplateError::NotFound),
                Some(i) => {
                    proof {
                        lemma_last_match_is_last(templates@, f, value@);
                    }
                    Ok(templates[i].duplicate())
                },
            }
        },
    }
}

/// The record that resolution picks matches the supplied value, and no record
/// after it in enumeration order does; when none is picked, none matches.
pub proof fn lemma_last_match_is_last(s: Seq<Template>, f: MatchField, v: Seq<char>)
    ensures
        match last_match(s, f, v) {
            Some(i) => 0 <= i < s.len() && field_value(s[i], f) == v && forall|j: int|
                i < j < s.len() ==> field_value(#[trigger] s[j], f) != v,
            None => forall|j: int| 0 <= j < s.len() ==> field_value(#[trigger] s[j], f) != v,
        },
    decreases s.len(),
{
    if s.len() > 0 {
        lemma_last_match_is_last(s.drop_last(), f, v);
        assert forall|j: int| 0 <= j < s.len() - 1 implies s.drop_last()[j] == s[j] by {}
    }
}

/// Without an identifying field, resolution fails with `InsufficientInput`,
/// whatever the registry holds.
pub proof fn lemma_no_field_is_insufficient(s: Seq<Template>)
    ensures
        resolution(s, None, None, None) == Err::<Template, TemplateError>(
            TemplateError::InsufficientInput,
        ),
{
}

/// Over an enumeration sorted by name, resolution deterministically picks, among
/// the records whose field matches, the one whose name is greatest.
pub proof fn lemma_sorted_resolution_picks_greatest_name(
    s: Seq<Template>,
    f: MatchField,
    v: Seq<char>,
)
    requires
        sorted_by_name(s),
    ensures
        last_match(s, f, v) matches Some(i) ==> forall|j: int|
            0 <= j < s.len() && field_value(#[trigger] s[j], f) == v ==> name_le(s[j].name@, s[i].name@),
{
    lemma_last_match_is_last(s, f, v);
    if let Some(i) = last_match(s, f, v) {
        assert forall|j: int| 0 <= j < s.len() && field_value(#[trigger] s[j], f) == v implies name_le(
            s[j].name@,
            s[i].name@,
        ) by {
            if j == i {
                lemma_name_le_reflexive(s[i].name@);
            }
        }
    }
}

/// No two records share a name.
pub open spec fn unique_names(s: Seq<Template>) -> bool {
    forall|i: int, j: int| 0 <= i < j < s.len() ==> #[trigger] s[i].name@ != #[trigger] s[j].name@
}

/// Resolution over a registry whose enumeration is first sorted by name does
/// not depend on the order in which the registry was enumerated: any two
/// sorted enumerations of the same records resolve every input alike.
pub proof fn lemma_resolution_independent_of_enumeration(
    s1: Seq<Template>,
    s2: Seq<Template>,
    name: Option<String>,
    path: Option<String>,
    git_path: Option<String>,
)
    requires
        s1.to_multiset() == s2.to_multiset(),
        sorted_by_name(s1),
        sorted_by_name(s2),
        unique_names(s1),
        unique_names(s2),
    ensures
        resolution(s1, name, path, git_path) == resolution(s2, name, path, git_path),
{
    broadcast use vstd::seq_lib::group_to_multiset_ensures;

    if let Some(f) = chosen_field(name, path, git_path) {
        let v = chosen_value(name, path, git_path);
        lemma_last_match_is_last(s1, f, v);
        lemma_last_match_is_last(s2, f, v);
        lemma_sorted_resolution_picks_greatest_name(s1, f, v);
        lemma_sorted_resolution_picks_greatest_name(s2, f, v);
        match (last_match(s1, f, v), last_match(s2, f, v)) {
            (Some(i1), Some(i2)) => {
                assert(s1.contains(s1[i1]));
                assert(s2.to_multiset().count(s1[i1]) > 0);
                assert(s2.contains(s1[i1]));
                let k2 = choose|k: int| 0 <= k < s2.len() && s2[k] == s1[i1];
                assert(field_value(s2[k2], f) == v);
                assert(s2.contains(s2[i2]));
                assert(s1.to_multiset().count(s2[i2]) > 0);
                assert(s1.contains(s2[i2]));
                let k1 = choose|k: int| 0 <= k < s1.len() && s1[k] == s2[i2];
                assert(field_value(s1[k1], f) == v);
                lemma_name_le_antisymmetric(s1[i1].name@, s2[i2].name@);
                if k2 != i2 {
                    if k2 < i2 {
                        assert(s2[k2].name@ != s2[i2].name@);
                    } else {
                        assert(s2[i2].name@ != s2[k2].name@);
                    }
                }
            },
            (Some(i1), None) => {
                assert(s1.contains(s1[i1]));
                assert(s2.to_multiset().count(s1[i1]) > 0);
                assert(s2.contains(s1[i1]));
                let k2 = choose|k: int| 0 <= k < s2.len() && s2[k] == s1[i1];
                assert(field_value(s2[k2], f) == v);
            },
            (None, Some(i2)) => {
                assert(s2.contains(s2[i2]));
                assert(s1.to_multiset().count(s2[i2]) > 0);
                assert(s1.contains(s2[i2]));
                let k1 = choose|k: int| 0 <= k < s1.len() && s1[k] == s2[i2];
                assert(field_value(s1[k1], f) == v);
            },
            (None, None) => {},
        }
    }
}

} // verus!
