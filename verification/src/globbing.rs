//! Glob patterns: the step from a pattern to the list of what it matches.
//!
//! Patterns are read by the `glob` crate. What a pattern matches depends on
//! the files that are there, so the list is made by whoever drives the run;
//! here the pattern is read, and a pattern that `glob` refuses becomes an
//! error of the run.

use crate::commands::SyncError;
use vstd::prelude::*;

verus! {

/// `glob::Paths`, the matches of a pattern that are still to be listed.
/// Nothing is known of what it holds.
#[verifier::external_type_specification]
#[verifier::external_body]
pub struct ExPaths(glob::Paths);

/// `glob::PatternError`, the reason why `glob` refused a pattern. Nothing is
/// known of what it holds.
#[verifier::external_type_specification]
#[verifier::external_body]
pub struct ExPatternError(glob::PatternError);

/// `glob::GlobError`, the reason why a match could not be listed. It is
/// declared because `glob::Paths` hands it out; nothing here takes one.
#[verifier::external_type_specification]
#[verifier::external_body]
pub struct ExGlobError(glob::GlobError);

/// `std::path::PathBuf`. It is declared because `glob::Paths` hands it out;
/// nothing here takes one.
#[verifier::external_type_specification]
#[verifier::external_body]
pub struct ExPathBuf(std::path::PathBuf);

/// `glob::glob` reads `pattern` and returns the matches still to be listed,
/// or the reason why it is no pattern. Nothing is claimed of either: which
/// patterns are refused is for `glob` to say.
pub assume_specification[ glob::glob ](pattern: &str) -> (paths: Result<
    glob::Paths,
    glob::PatternError,
>)
;

/// `PatternError` written out by its `Display`: where in the pattern the
/// error is, and what it is. Nothing is claimed of the text.
#[verifier::external_body]
fn pattern_error_text(error: &glob::PatternError) -> (text: String) {
    error.to_string()
}

/// What the run makes of the answer that `glob` gave to a pattern: the
/// matches still to be listed are handed on as they are, and a pattern that
/// was refused is a `SyncError::Glob`.
pub fn expansion(answer: Result<glob::Paths, glob::PatternError>) -> (matches: Result<
    glob::Paths,
    SyncError,
>)
    ensures
        match answer {
            Ok(paths) => matches == Ok::<glob::Paths, SyncError>(paths),
            Err(_) => matches matches Err(error) && error is Glob,
        },
{
    match answer {
        Ok(paths) => Ok(paths),
        Err(error) => Err(SyncError::Glob(pattern_error_text(&error))),
    }
}

/// Begins to list what `pattern` matches. The matches themselves are for the
/// caller to take from the result, one by one.
///
/// Whether `pattern` is well formed is for `glob` to say; one that it refuses
/// is a `SyncError::Glob`.
pub fn expand(pattern: &str) -> (matches: Result<glob::Paths, SyncError>)
    ensures
        matches matches Err(error) ==> error is Glob,
{
    expansion(glob::glob(pattern))
}

} // verus!
