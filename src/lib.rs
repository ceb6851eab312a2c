//! Bookkeeping of dotfile templates: a registry of named records, each pairing a
//! local directory with the remote repository it is synchronised from.

pub mod codec;
pub mod create;
pub mod error;
pub mod layout;
pub mod order;
pub mod paths;
pub mod progress;
pub mod registry;
pub mod resolver;
pub mod template;
