//! The template record.

use vstd::prelude::*;

verus! {

/// One tracked association: a name, a local directory and a remote source.
#[derive(Debug)]
pub struct Template {
    pub name: String,
    pub path: String,
    pub git_path: String,
}

/// The mathematical value of a record: its three fields as character sequences.
pub struct TemplateView {
    pub name: Seq<char>,
    pub path: Seq<char>,
    pub git_path: Seq<char>,
}

impl View for Template {
    type V = TemplateView;

    open spec fn view(&self) -> TemplateView {
        TemplateView { name: self.name@, path: self.path@, git_path: self.git_path@ }
    }
}

impl TemplateView {
    /// A record is well formed when none of its fields is empty.
    pub open spec fn wf(self) -> bool {
        self.name.len() > 0 && self.path.len() > 0 && self.git_path.len() > 0
    }
}

/// The views of a sequence of records.
pub open spec fn views(s: Seq<Template>) -> Seq<TemplateView> {
    s.map_values(|t: Template| t@)
}

/// Whether some record of `s` is named `name`.
pub open spec fn has_name(s: Seq<TemplateView>, name: Seq<char>) -> bool {
    exists|i: int| 0 <= i < s.len() && #[trigger] s[i].name == name
}

impl Template {
    pub fn new(name: String, path: String, git_path: String) -> (r: Self)
        ensures
            r.name == name,
            r.path == path,
            r.git_path == git_path,
    {
        Self { name, path, git_path }
    }

    /// A copy of the record, equal to it field by field.
    pub fn duplicate(&self) -> (r: Self)
        ensures
            r == *self,
    {
        Template { name: self.name.clone(), path: self.path.clone(), git_path: self.git_path.clone() }
    }

    /// Whether all three fields are non-empty.
    pub fn is_complete(&self) -> (r: bool)
        ensures
            r == self@.wf(),
    {
        self.name.as_str().unicode_len() > 0 && self.path.as_str().unicode_len() > 0
            && self.git_path.as_str().unicode_len() > 0
    }
}

/// Whether a record of `records` is named `name`.
pub fn contains_name(records: &Vec<Template>, name: &String) -> (r: bool)
    ensures
        r == has_name(views(records@), name@),
{
    let mut i: usize = 0;
    while i < records.len()
        invariant
            0 <= i <= records@.len(),
            forall|j: int| 0 <= j < i ==> records@[j].name@ != name@,
        decreases records@.len() - i,
    {
        if records[i].name == *name {
            assert(views(records@)[i as int].name == name@);
            return true;
        }
        i = i + 1;
    }
    assert forall|j: int| 0 <= j < records@.len() implies #[trigger] views(records@)[j].name
        != name@ by {
        assert(views(records@)[j] == records@[j]@);
    }
    false
}

} // verus!
