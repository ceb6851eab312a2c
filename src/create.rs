//! Creation of a record as a state machine: the library decides, the caller
//! inspects paths, prompts, clones and writes.

use crate::error::TemplateError;
use crate::paths::{expand_home, expanded};
use crate::template::{contains_name, has_name, views, Template};
use vstd::prelude::*;

verus! {

/// What the filesystem holds at a template's local path.
#[derive(Clone, Copy, Debug, PartialEq, Eq, Structural)]
pub enum PathState {
    Missing,
    File,
    EmptyDir,
    PopulatedDir,
}

/// Where a creation stands; each phase names what the caller does next.
#[derive(Clone, Copy, Debug, PartialEq, Eq, Structural)]
pub enum CreatePhase {
    /// Inspect the local path and report a `PathState`.
    Inspect,
    /// Ask the user whether to clone the remote into the local path.
    Consent,
    /// Clone the remote into the local path.
    Clone,
    /// Check that the working copy has an origin and that the remote is reachable.
    Verify,
    /// Write the record file.
    Write,
    /// The record is stored.
    Done,
    /// The creation ended with this error.
    Failed(TemplateError),
}

/// How writing a record file ended.
#[derive(Clone, Copy, Debug, PartialEq, Eq, Structural)]
pub enum WriteOutcome {
    Stored,
    /// A record file of that name exists; it was not overwritten.
    AlreadyExists,
    Failed,
}

/// What the caller observed while carrying out a phase.
#[derive(Clone, Copy, Debug, PartialEq, Eq, Structural)]
pub enum CreateEvent {
    Inspected(PathState),
    Answered(bool),
    Cloned(bool),
    Verified { has_origin: bool, reachable: bool },
    Written(WriteOutcome),
}

/// A creation in progress: the record to store, its phase, and whether a
/// clone has already been made.
#[derive(Debug)]
pub struct CreateRun {
    pub template: Template,
    pub phase: CreatePhase,
    pub cloned: bool,
}

/// The field was given and is not empty.
pub open spec fn given(v: Option<String>) -> bool {
    v is Some && v->0@.len() > 0
}

/// The next phase and clone flag after `e` is observed in `phase`. An event
/// that does not belong to the phase leaves it as it is; `Done` and
/// `Failed` are final.
pub open spec fn next_phase(phase: CreatePhase, cloned: bool, e: CreateEvent) -> (CreatePhase, bool) {
    match (phase, e) {
        (CreatePhase::Inspect, CreateEvent::Inspected(s)) => match s {
            PathState::File => (CreatePhase::Failed(TemplateError::NotADirectory), cloned),
            PathState::PopulatedDir => (CreatePhase::Verify, cloned),
            _ => if cloned {
                (CreatePhase::Failed(TemplateError::CloneFailed), cloned)
            } else {
                (CreatePhase::Consent, cloned)
            },
        },
        (CreatePhase::Consent, CreateEvent::Answered(yes)) => if yes {
            (CreatePhase::Clone, cloned)
        } else {
            (CreatePhase::Failed(TemplateError::UserAborted), cloned)
        },
        (CreatePhase::Clone, CreateEvent::Cloned(ok)) => if ok {
            (CreatePhase::Inspect, true)
        } else {
            (CreatePhase::Failed(TemplateError::CloneFailed), cloned)
        },
        (CreatePhase::Verify, CreateEvent::Verified { has_origin, reachable }) => if has_origin
            && reachable {
            (CreatePhase::Write, cloned)
        } else {
            (CreatePhase::Failed(TemplateError::RemoteVerificationFailed), cloned)
        },
        (CreatePhase::Write, CreateEvent::Written(w)) => match w {
            WriteOutcome::Stored => (CreatePhase::Done, cloned),
            WriteOutcome::AlreadyExists => (CreatePhase::Failed(TemplateError::AlreadyExists), cloned),
            WriteOutcome::Failed => (CreatePhase::Failed(TemplateError::Io), cloned),
        },
        _ => (phase, cloned),
    }
}

/// Why a creation is refused before it starts, if it is: a field missing or
/// empty, or the name taken.
pub open spec fn create_refusal(
    records: Seq<Template>,
    name: Option<String>,
    path: Option<String>,
    git_path: Option<String>,
) -> Option<TemplateError> {
    if !(given(name) && given(path) && given(git_path)) {
        Some(TemplateError::InsufficientInput)
    } else if has_name(views(records), name->0@) {
        Some(TemplateError::AlreadyExists)
    } else {
        None
    }
}

/// Starts the creation of a record: every field must be given and non-empty
/// (else `InsufficientInput`) and the name must be free (else
/// `AlreadyExists`). The local path is kept with `~` expanded to `home`.
pub fn create_template(
    records: &Vec<Template>,
    name: Option<String>,
    path: Option<String>,
    git_path: Option<String>,
    home: &String,
) -> (r: Result<CreateRun, TemplateError>)
    ensures
        match create_refusal(records@, name, path, git_path) {
            Some(e) => r == Err::<CreateRun, TemplateError>(e),
            None => r matches Ok(run) && run.phase == CreatePhase::Inspect && !run.cloned
                && run.template.name@ == name->0@ && run.template.path@ == expanded(
                path->0@,
                home@,
            ) && run.template.git_path@ == git_path->0@,
        },
{
    match (name, path, git_path) {
        (Some(n), Some(p), Some(g)) => {
            if n.as_str().unicode_len() == 0 || p.as_str().unicode_len() == 0
                || g.as_str().unicode_len() == 0 {
                return Err(TemplateError::InsufficientInput);
            }
            if contains_name(records, &n) {
                return Err(TemplateError::AlreadyExists);
            }
            let full = expand_home(&p, home);
            Ok(CreateRun { template: Template::new(n, full, g), phase: CreatePhase::Inspect, cloned: false })
        },
        _ => Err(TemplateError::InsufficientInput),
    }
}

impl CreateRun {
    /// Advances the creation by one observed event.
    pub fn step(self, e: CreateEvent) -> (r: CreateRun)
        ensures
            (r.phase, r.cloned) == next_phase(self.phase, self.cloned, e),
            r.template == self.template,
    {
        let (phase, cloned) = match (self.phase, e) {
            (CreatePhase::Inspect, CreateEvent::Inspected(s)) => match s {
                PathState::File => (CreatePhase::Failed(TemplateError::NotADirectory), self.cloned),
                PathState::PopulatedDir => (CreatePhase::Verify, self.cloned),
                _ => if self.cloned {
                    (CreatePhase::Failed(TemplateError::CloneFailed), self.cloned)
                } else {
                    (CreatePhase::Consent, self.cloned)
                },
            },
            (CreatePhase::Consent, CreateEvent::Answered(yes)) => if yes {
                (CreatePhase::Clone, self.cloned)
            } else {
                (CreatePhase::Failed(TemplateError::UserAborted), self.cloned)
            },
            (CreatePhase::Clone, CreateEvent::Cloned(ok)) => if ok {
                (CreatePhase::Inspect, true)
            } else {
                (CreatePhase::Failed(TemplateError::CloneFailed), self.cloned)
            },
            (CreatePhase::Verify, CreateEvent::Verified { has_origin, reachable }) => if has_origin
                && reachable {
                (CreatePhase::Write, self.cloned)
            } else {
                (CreatePhase::Failed(TemplateError::RemoteVerificationFailed), self.cloned)
            },
            (CreatePhase::Write, CreateEvent::Written(w)) => match w {
                WriteOutcome::Stored => (CreatePhase::Done, self.cloned),
                WriteOutcome::AlreadyExists => (
                    CreatePhase::Failed(TemplateError::AlreadyExists),
                    self.cloned,
                ),
                WriteOutcome::Failed => (CreatePhase::Failed(TemplateError::Io), self.cloned),
            },
            (p, _) => (p, self.cloned),
        };
        CreateRun { template: self.template, phase, cloned }
    }

    /// Whether the creation has ended, stored or failed.
    pub fn is_finished(&self) -> (r: bool)
        ensures
            r == (self.phase == CreatePhase::Done || self.phase is Failed),
    {
        match self.phase {
            CreatePhase::Done | CreatePhase::Failed(_) => true,
            _ => false,
        }
    }
}

/// The clone is offered and made at most once: once a clone has been made,
/// the creation never again asks for consent or clones.
pub open spec fn clone_bounded(phase: CreatePhase, cloned: bool) -> bool {
    cloned ==> phase != CreatePhase::Consent && phase != CreatePhase::Clone
}

/// Every step keeps the clone bound, and a clone once made stays recorded.
pub proof fn lemma_clone_at_most_once(phase: CreatePhase, cloned: bool, e: CreateEvent)
    requires
        clone_bounded(phase, cloned),
    ensures
        clone_bounded(next_phase(phase, cloned, e).0, next_phase(phase, cloned, e).1),
        cloned ==> next_phase(phase, cloned, e).1,
{
}

/// A creation starts within the clone bound.
pub proof fn lemma_start_is_bounded()
    ensures
        clone_bounded(CreatePhase::Inspect, false),
{
}

/// Once a record is stored under a name (`insert_record` pushes it), a
/// second creation under that name is refused with `AlreadyExists` before it
/// starts, whatever its local path and remote.
pub proof fn lemma_second_create_refused(
    s: Seq<Template>,
    t: Template,
    name: Option<String>,
    path: Option<String>,
    git_path: Option<String>,
)
    requires
        given(name),
        given(path),
        given(git_path),
        name->0@ == t.name@,
    ensures
        create_refusal(s.push(t), name, path, git_path) == Some(TemplateError::AlreadyExists),
{
    assert(views(s.push(t))[s.len() as int] == t@);
    assert(views(s.push(t))[s.len() as int].name == t.name@);
}

} // verus!
