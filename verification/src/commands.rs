//! The sync command, which brings the tree in step with its manifests.
//!
//! A run walks the tree below its root. Each manifest it meets is read, and
//! each rule of the manifest is carried out in turn: the files that its
//! pattern matches are copied, one by one, to the place that its template
//! names. The run itself touches nothing. It hands out one [`SyncAction`] at a
//! time, and is told what came of it by the next [`SyncEvent`].

use crate::interpolated_string::{InterpolatedStringError, VariableBinding};
use crate::monofile::{Monofile, Rule, SyncFiles};
use crate::paths::{dir_slug, join, path_file_name, path_parent, resolve};
use crate::protocol::{bound_in, refused, take_up, transition, Action, Event, Failure, State};
use vstd::prelude::*;
use vstd::string::*;

verus! {

/// Why a run ended early.
#[derive(Debug, PartialEq, Eq)]
pub enum SyncError {
    /// The manifest at `path` could not be decoded.
    ManifestParse { path: String, reason: String },
    /// A template could not be filled in.
    Template(InterpolatedStringError),
    /// A pattern was malformed, or its matches could not be listed.
    Glob(String),
    /// A file could not be read or written, or the tree could not be walked.
    Io(String),
    /// A path is not text.
    PathEncoding(String),
    /// The run was told of something that it had not asked for.
    UnexpectedEvent,
}

impl View for SyncError {
    type V = Failure;

    open spec fn view(&self) -> Failure {
        match self {
            SyncError::ManifestParse { path, reason } => Failure::ManifestParse {
                path: path@,
                reason: reason@,
            },
            SyncError::Template(e) => Failure::Template(e@),
            SyncError::Glob(reason) => Failure::Glob(reason@),
            SyncError::Io(reason) => Failure::Io(reason@),
            SyncError::PathEncoding(path) => Failure::PathEncoding(path@),
            SyncError::UnexpectedEvent => Failure::UnexpectedEvent,
        }
    }
}

/// What came of the last action.
#[derive(Debug)]
pub enum SyncEvent {
    /// The run begins. This is the first event of every run.
    Begin,
    /// The walk has come to this path, given as seen from the root.
    Entry(String),
    /// The walk has seen the whole tree.
    EndOfEntries,
    /// The manifest was read, and this is what it holds.
    Manifest(Monofile),
    /// The pattern matches this path.
    Match(String),
    /// The pattern matches nothing more.
    EndOfMatches,
    /// The copy was made.
    Copied,
    /// What was asked for could not be done.
    Failed(SyncError),
}

impl View for SyncEvent {
    type V = Event;

    open spec fn view(&self) -> Event {
        match self {
            SyncEvent::Begin => Event::Begin,
            SyncEvent::Entry(path) => Event::Entry(path@),
            SyncEvent::EndOfEntries => Event::EndOfEntries,
            SyncEvent::Manifest(manifest) => Event::Manifest(manifest@),
            SyncEvent::Match(path) => Event::Match(path@),
            SyncEvent::EndOfMatches => Event::EndOfMatches,
            SyncEvent::Copied => Event::Copied,
            SyncEvent::Failed(error) => Event::Failed(error@),
        }
    }
}

/// What is to be done next.
#[derive(Debug, PartialEq, Eq)]
pub enum SyncAction {
    /// Take the next entry of the walk: answer with `Entry` or `EndOfEntries`.
    NextEntry,
    /// Read and decode the manifest at this path: answer with `Manifest`.
    ReadManifest(String),
    /// List what this pattern matches, and take its first match: answer with
    /// `Match` or `EndOfMatches`.
    Expand(String),
    /// Take the next match of the pattern: answer with `Match` or
    /// `EndOfMatches`.
    NextMatch,
    /// Write what the file `from` holds to the file `to`: answer with
    /// `Copied`.
    Copy { from: String, to: String },
    /// The run is over, and all went well.
    Finish,
    /// The run is over, for this reason.
    Abort(SyncError),
}

impl View for SyncAction {
    type V = Action;

    open spec fn view(&self) -> Action {
        match self {
            SyncAction::NextEntry => Action::NextEntry,
            SyncAction::ReadManifest(path) => Action::ReadManifest(path@),
            SyncAction::Expand(pattern) => Action::Expand(pattern@),
            SyncAction::NextMatch => Action::NextMatch,
            SyncAction::Copy { from, to } => Action::Copy { from: from@, to: to@ },
            SyncAction::Finish => Action::Finish,
            SyncAction::Abort(error) => Action::Abort(error@),
        }
    }
}

#[derive(Debug, Clone, Copy, PartialEq, Eq, Structural)]
enum Phase {
    Ready,
    Walking,
    Loading,
    Matching,
    Copying,
    Stopped,
}

/// One run of the sync command.
///
/// A run is made by [`SyncCommand::run`] and moved on by [`SyncRun::step`].
/// What it is at any time is its view, a [`State`].
pub struct SyncRun {
    /// The directory that the run started from.
    root: String,
    phase: Phase,
    /// The directory of the manifest at hand.
    dir: String,
    /// The rules of the manifest at hand.
    rules: Vec<SyncFiles>,
    /// The position in `rules` of the rule at hand.
    rule: usize,
    /// The variables of the rule at hand.
    vars: VariableBinding,
}

impl View for SyncRun {
    type V = State;

    closed spec fn view(&self) -> State {
        match self.phase {
            Phase::Ready => State::Ready { root: self.root@ },
            Phase::Walking => State::Walking { root: self.root@ },
            Phase::Loading => State::Loading { root: self.root@, dir: self.dir@ },
            Phase::Matching => State::Matching {
                root: self.root@,
                dir: self.dir@,
                rules: self.pending(),
                vars: self.vars@,
            },
            Phase::Copying => State::Copying {
                root: self.root@,
                dir: self.dir@,
                rules: self.pending(),
                vars: self.vars@,
            },
            Phase::Stopped => State::Stopped,
        }
    }
}

impl SyncRun {
    /// The rules from the current one on.
    closed spec fn pending(&self) -> Seq<Rule> {
        if self.rule <= self.rules@.len() {
            self.rules@.map_values(|rule: SyncFiles| rule@).skip(self.rule as int)
        } else {
            Seq::empty()
        }
    }

    /// Whether the run is over.
    pub fn is_stopped(&self) -> (stopped: bool)
        ensures
            stopped == (self@ is Stopped),
    {
        self.phase == Phase::Stopped
    }

    /// The value that `name` has for the rule at hand, if there is a rule at
    /// hand and `name` is bound.
    pub fn variable(&self, name: &str) -> (value: Option<&String>)
        ensures
            match value {
                Some(v) => bound_in(self@, name@) == Some(v@),
                None => bound_in(self@, name@) is None,
            },
    {
        if self.phase == Phase::Matching || self.phase == Phase::Copying {
            self.vars.get(name)
        } else {
            None
        }
    }

    /// Ends the run over an event that it had not asked for.
    fn refuse(&mut self) -> (action: SyncAction)
        ensures
            (final(self)@, action@) == refused(),
    {
        self.phase = Phase::Stopped;
        SyncAction::Abort(SyncError::UnexpectedEvent)
    }

    /// Takes up the rule at `self.rule`, or goes back to the walk when there
    /// is none.
    fn take_up(&mut self) -> (action: SyncAction)
        ensures
            (final(self)@, action@) == take_up(
                old(self).root@,
                old(self).dir@,
                old(self).pending(),
                old(self).vars@,
            ),
    {
        if self.rule < self.rules.len() {
            let pattern = join(self.dir.as_str(), self.rules[self.rule].from.0.as_str());
            self.phase = Phase::Matching;
            SyncAction::Expand(pattern)
        } else {
            self.phase = Phase::Walking;
            SyncAction::NextEntry
        }
    }

    /// Takes in what came of the last action, and says what to do next.
    pub fn step(&mut self, event: SyncEvent) -> (action: SyncAction)
        ensures
            (final(self)@, action@) == transition(old(self)@, event@),
    {
        if self.phase == Phase::Stopped {
            return SyncAction::Abort(SyncError::UnexpectedEvent);
        }
        match event {
            SyncEvent::Failed(error) => {
                self.phase = Phase::Stopped;
                SyncAction::Abort(error)
            },
            SyncEvent::Begin => {
                if self.phase == Phase::Ready {
                    self.phase = Phase::Walking;
                    SyncAction::NextEntry
                } else {
                    self.refuse()
                }
            },
            SyncEvent::Entry(path) => {
                if self.phase == Phase::Walking {
                    let name = path_file_name(path.as_str());
                    if name == String::from_str("MONO") {
                        self.dir = path_parent(path.as_str());
                        self.phase = Phase::Loading;
                        SyncAction::ReadManifest(path)
                    } else {
                        SyncAction::NextEntry
                    }
                } else {
                    self.refuse()
                }
            },
            SyncEvent::EndOfEntries => {
                if self.phase == Phase::Walking {
                    self.phase = Phase::Stopped;
                    SyncAction::Finish
                } else {
                    self.refuse()
                }
            },
            SyncEvent::Manifest(manifest) => {
                if self.phase == Phase::Loading {
                    let mut vars = VariableBinding::new();
                    vars.insert(String::from_str("dir_slug"), dir_slug(self.dir.as_str()));
                    self.vars = vars;
                    self.rule = 0;
                    self.rules = manifest.sync_files;
                    assert(self.pending() =~= manifest@);
                    self.take_up()
                } else {
                    self.refuse()
                }
            },
            SyncEvent::Match(path) => {
                if self.phase == Phase::Matching && self.rule < self.rules.len() {
                    self.vars.insert(String::from_str("file_name"), path_file_name(path.as_str()));
                    match self.rules[self.rule].to.interpolate(&self.vars) {
                        Ok(to) => {
                            let to = resolve(self.root.as_str(), self.dir.as_str(), to.as_str());
                            self.phase = Phase::Copying;
                            SyncAction::Copy { from: path, to }
                        },
                        Err(e) => {
                            self.phase = Phase::Stopped;
                            SyncAction::Abort(SyncError::Template(e))
                        },
                    }
                } else {
                    self.refuse()
                }
            },
            SyncEvent::EndOfMatches => {
                if self.phase == Phase::Matching && self.rule < self.rules.len() {
                    self.vars.remove("file_name");
                    self.rule = self.rule + 1;
                    assert(self.pending() =~= old(self).pending().drop_first());
                    self.take_up()
                } else {
                    self.refuse()
                }
            },
            SyncEvent::Copied => {
                if self.phase == Phase::Copying {
                    self.phase = Phase::Matching;
                    SyncAction::NextMatch
                } else {
                    self.refuse()
                }
            },
        }
    }
}

/// The command that brings the tree in step with its manifests.
#[derive(Debug)]
pub struct SyncCommand {}

impl SyncCommand {
    /// A run of the command on the tree below `root`. Its first event is
    /// `Begin`.
    pub fn run(self, root: String) -> (run: SyncRun)
        ensures
            run@ == (State::Ready { root: root@ }),
    {
        SyncRun {
            root,
            phase: Phase::Ready,
            dir: String::new(),
            rules: Vec::new(),
            rule: 0,
            vars: VariableBinding::new(),
        }
    }
}

/// The commands of the tool.
#[derive(Debug)]
pub enum Command {
    /// Bring the tree in step with its manifests, changing files where needed.
    Sync(SyncCommand),
}

impl Command {
    /// A run of the command on the tree below `root`.
    pub fn run(self, root: String) -> (run: SyncRun)
        ensures
            run@ == (State::Ready { root: root@ }),
    {
        match self {
            Command::Sync(cmd) => cmd.run(root),
        }
    }
}

} // verus!
