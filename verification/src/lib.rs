//! Keeps the files of a multi-project repository in step: manifests spread over
//! the tree name files to copy, and templates say where each copy goes.
//!
//! A directory may hold a manifest, a file named `MONO`. Each of its rules
//! names files below that directory by a glob pattern, and gives the place of
//! their copies by a template such as
//! `/.github/workflows/${ dir_slug }-${ file_name }`.
//!
//! The crate decides and computes; it reads and writes nothing. A run of the
//! sync command ([`commands::SyncRun`]) says what is to be done next, and
//! whoever drives it walks the tree, reads the manifests, lists the matches
//! and copies the files.

pub mod commands;
pub mod globbing;
pub mod interpolated_string;
pub mod monofile;
pub mod paths;
pub mod protocol;
pub mod template;
pub mod text;

pub use crate::commands::{Command, SyncAction, SyncCommand, SyncError, SyncEvent, SyncRun};
pub use crate::interpolated_string::{InterpolatedString, InterpolatedStringError, VariableBinding};
pub use crate::monofile::{Glob, Monofile, SyncFiles};
