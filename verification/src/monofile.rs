//! The manifest that a directory may hold: the files to copy out of it, and
//! where to.

use crate::interpolated_string::InterpolatedString;
use crate::template::Part;
use vstd::prelude::*;

verus! {

/// One rule of a manifest, as the contracts see it.
pub struct Rule {
    /// The glob pattern of the files to copy, as seen from the manifest's
    /// directory.
    pub from: Seq<char>,
    /// The template of the place each copy goes to.
    pub to: Seq<Part>,
}

/// A glob pattern.
#[derive(Debug)]
pub struct Glob(pub String);

impl View for Glob {
    type V = Seq<char>;

    open spec fn view(&self) -> Seq<char> {
        self.0@
    }
}

/// One rule of a manifest: which files to copy, and where to.
#[derive(Debug)]
pub struct SyncFiles {
    /// The files to copy, as seen from the manifest's directory.
    pub from: Glob,
    /// The place each copy goes to.
    pub to: InterpolatedString,
}

impl View for SyncFiles {
    type V = Rule;

    open spec fn view(&self) -> Rule {
        Rule { from: self.from@, to: self.to@ }
    }
}

/// A manifest: the rules of one directory, in the order in which they are
/// carried out.
#[derive(Debug)]
pub struct Monofile {
    /// The rules, first to last.
    pub sync_files: Vec<SyncFiles>,
}

impl View for Monofile {
    type V = Seq<Rule>;

    open spec fn view(&self) -> Seq<Rule> {
        self.sync_files@.map_values(|rule: SyncFiles| rule@)
    }
}

} // verus!
