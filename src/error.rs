//! The errors of registry operations.

use vstd::prelude::*;

verus! {

/// Every way in which an operation on the registry can end without success.
#[derive(Clone, Copy, Debug, PartialEq, Eq, Structural)]
pub enum TemplateError {
    /// No identifying field (name, local path or remote path) was supplied.
    InsufficientInput,
    /// No record matches the identifier that was supplied.
    NotFound,
    /// A record of that name exists already.
    AlreadyExists,
    /// The local path is a file, not a directory.
    NotADirectory,
    /// Cloning the remote repository into the local path failed.
    CloneFailed,
    /// The local working copy has no origin, or the remote cannot be reached.
    RemoteVerificationFailed,
    /// A record file does not hold a complete record.
    MalformedRecord,
    /// A bulk file is not a readable TOML file of named sections.
    InvalidFile,
    /// The user declined a confirmation prompt.
    UserAborted,
    /// A filesystem operation failed.
    Io,
}

/// The description shown for each error.
pub open spec fn message_of(e: TemplateError) -> Seq<char> {
    match e {
        TemplateError::InsufficientInput => "At least one of name, path or git path is required"@,
        TemplateError::NotFound => "Not found"@,
        TemplateError::AlreadyExists => "Template already exists"@,
        TemplateError::NotADirectory => "Path is a file"@,
        TemplateError::CloneFailed => "Could not clone template from Git repository"@,
        TemplateError::RemoteVerificationFailed => "Remote could not be verified"@,
        TemplateError::MalformedRecord => "Template record is malformed"@,
        TemplateError::InvalidFile => "File is not a valid toml file"@,
        TemplateError::UserAborted => "Aborting"@,
        TemplateError::Io => "Filesystem operation failed"@,
    }
}

impl TemplateError {
    /// A short human-readable description of the error.
    pub fn message(&self) -> (r: String)
        ensures
            r@ == message_of(*self),
    {
        let s: &str = match self {
            TemplateError::InsufficientInput => "At least one of name, path or git path is required",
            TemplateError::NotFound => "Not found",
            TemplateError::AlreadyExists => "Template already exists",
            TemplateError::NotADirectory => "Path is a file",
            TemplateError::CloneFailed => "Could not clone template from Git repository",
            TemplateError::RemoteVerificationFailed => "Remote could not be verified",
            TemplateError::MalformedRecord => "Template record is malformed",
            TemplateError::InvalidFile => "File is not a valid toml file",
            TemplateError::UserAborted => "Aborting",
            TemplateError::Io => "Filesystem operation failed",
        };
        String::from_str(s)
    }
}

} // verus!
