//! The course of a run, as the contracts see it: what can happen, what is to
//! be done then, and what holds of every state on the way.
//!
//! A run and whoever drives it take turns. The run hands out an [`Action`];
//! the driver does what it says and answers with an [`Event`]; from the two
//! [`transition`] gives the next state and the next action. The first event
//! is `Begin`, and after `Finish` or `Abort` the run is over.

use crate::monofile::Rule;
use crate::paths::{destination, file_name, joined, parent, slug};
use crate::template::{interpolated, TemplateError};
use vstd::prelude::*;

verus! {

/// The file name that marks a manifest.
pub open spec fn manifest_name() -> Seq<char> {
    "MONO"@
}

/// The variable that holds the slug of the manifest's directory.
pub open spec fn dir_slug_variable() -> Seq<char> {
    "dir_slug"@
}

/// The variable that holds the file name of the file being copied.
pub open spec fn file_name_variable() -> Seq<char> {
    "file_name"@
}

/// Why a run ended early, as the contracts see it.
pub enum Failure {
    /// A manifest could not be decoded.
    ManifestParse { path: Seq<char>, reason: Seq<char> },
    /// A template could not be filled in.
    Template(TemplateError),
    /// A pattern was malformed, or its matches could not be listed.
    Glob(Seq<char>),
    /// A file could not be read or written, or the tree could not be walked.
    Io(Seq<char>),
    /// A path is not text.
    PathEncoding(Seq<char>),
    /// The run was told of something that it had not asked for.
    UnexpectedEvent,
}

/// What has happened, as the contracts see it.
pub enum Event {
    /// The run begins.
    Begin,
    /// The walk has come to this path, given as seen from the root.
    Entry(Seq<char>),
    /// The walk has seen the whole tree.
    EndOfEntries,
    /// The manifest was read, and these are its rules.
    Manifest(Seq<Rule>),
    /// The pattern matches this path.
    Match(Seq<char>),
    /// The pattern matches nothing more.
    EndOfMatches,
    /// The copy was made.
    Copied,
    /// What was asked for could not be done.
    Failed(Failure),
}

/// What to do next, as the contracts see it.
pub enum Action {
    /// Take the next entry of the walk.
    NextEntry,
    /// Read and decode the manifest at this path.
    ReadManifest(Seq<char>),
    /// List what this pattern matches, and take its first match.
    Expand(Seq<char>),
    /// Take the next match of the pattern.
    NextMatch,
    /// Write what the file `from` holds to the file `to`.
    Copy { from: Seq<char>, to: Seq<char> },
    /// The run is over, and all went well.
    Finish,
    /// The run is over, for this reason.
    Abort(Failure),
}

/// Where a run stands, as the contracts see it.
pub enum State {
    /// Nothing has happened yet.
    Ready { root: Seq<char> },
    /// The next entry of the tree is awaited.
    Walking { root: Seq<char> },
    /// The manifest of `dir` is awaited.
    Loading { root: Seq<char>, dir: Seq<char> },
    /// The next match of the first of `rules` is awaited. The rules after the
    /// first are still to be carried out.
    Matching { root: Seq<char>, dir: Seq<char>, rules: Seq<Rule>, vars: Map<Seq<char>, Seq<char>> },
    /// A copy for the first of `rules` is under way.
    Copying { root: Seq<char>, dir: Seq<char>, rules: Seq<Rule>, vars: Map<Seq<char>, Seq<char>> },
    /// The run is over.
    Stopped,
}

/// The variables that a manifest in `dir` starts out with.
pub open spec fn manifest_vars(dir: Seq<char>) -> Map<Seq<char>, Seq<char>> {
    Map::empty().insert(dir_slug_variable(), slug(dir))
}

/// The run ends, because it was told of something that it had not asked for.
pub open spec fn refused() -> (State, Action) {
    (State::Stopped, Action::Abort(Failure::UnexpectedEvent))
}

/// Takes up the first of `rules`, or goes back to the walk when none is left.
pub open spec fn take_up(
    root: Seq<char>,
    dir: Seq<char>,
    rules: Seq<Rule>,
    vars: Map<Seq<char>, Seq<char>>,
) -> (State, Action) {
    if rules.len() > 0 {
        (State::Matching { root, dir, rules, vars }, Action::Expand(joined(dir, rules[0].from)))
    } else {
        (State::Walking { root }, Action::NextEntry)
    }
}

/// The state that follows `state` when `event` happens, and what to do then.
///
/// A failure ends the run at once, whatever it was doing. So does an event
/// that the last action did not ask for.
pub open spec fn transition(state: State, event: Event) -> (State, Action) {
    match (state, event) {
        (State::Stopped, _) => refused(),
        (_, Event::Failed(failure)) => (State::Stopped, Action::Abort(failure)),
        (State::Ready { root }, Event::Begin) => (State::Walking { root }, Action::NextEntry),
        (State::Walking { root }, Event::Entry(path)) => if file_name(path) == manifest_name() {
            (State::Loading { root, dir: parent(path) }, Action::ReadManifest(path))
        } else {
            (State::Walking { root }, Action::NextEntry)
        },
        (State::Walking { root }, Event::EndOfEntries) => (State::Stopped, Action::Finish),
        (State::Loading { root, dir }, Event::Manifest(rules)) => take_up(
            root,
            dir,
            rules,
            manifest_vars(dir),
        ),
        (State::Matching { root, dir, rules, vars }, Event::Match(path)) => if rules.len() > 0 {
            let bound = vars.insert(file_name_variable(), file_name(path));
            match interpolated(rules[0].to, bound) {
                Ok(to) => (
                    State::Copying { root, dir, rules, vars: bound },
                    Action::Copy { from: path, to: destination(root, dir, to) },
                ),
                Err(e) => (State::Stopped, Action::Abort(Failure::Template(e))),
            }
        } else {
            refused()
        },
        (State::Matching { root, dir, rules, vars }, Event::EndOfMatches) => if rules.len() > 0 {
            take_up(root, dir, rules.drop_first(), vars.remove(file_name_variable()))
        } else {
            refused()
        },
        (State::Copying { root, dir, rules, vars }, Event::Copied) => (
            State::Matching { root, dir, rules, vars },
            Action::NextMatch,
        ),
        _ => refused(),
    }
}

/// The value that `name` has in `state`. Outside the rules of a manifest no
/// name has a value.
pub open spec fn bound_in(state: State, name: Seq<char>) -> Option<Seq<char>> {
    match state {
        State::Matching { vars, .. } | State::Copying { vars, .. } => if vars.contains_key(name) {
            Some(vars[name])
        } else {
            None
        },
        _ => None,
    }
}

impl State {
    /// What holds of every state that a run can be in. While the rules of a
    /// manifest are carried out there is a rule at hand, and the variables are
    /// those of the manifest with, at most, a file name besides. While a copy
    /// is under way the file name is bound.
    pub open spec fn well_formed(self) -> bool {
        match self {
            State::Matching { dir, rules, vars, .. } => {
                &&& rules.len() > 0
                &&& vars.remove(file_name_variable()) == manifest_vars(dir)
            },
            State::Copying { dir, rules, vars, .. } => {
                &&& rules.len() > 0
                &&& vars.remove(file_name_variable()) == manifest_vars(dir)
                &&& vars.contains_key(file_name_variable())
            },
            _ => true,
        }
    }
}

/// The state that a run is in when it was in `state` and `events` have
/// happened since, one after the other.
pub open spec fn state_from(state: State, events: Seq<Event>) -> State
    decreases events.len(),
{
    if events.len() == 0 {
        state
    } else {
        state_from(transition(state, events[0]).0, events.drop_first())
    }
}

/// What a run in `state` asks for, one action for each of `events`.
pub open spec fn actions_from(state: State, events: Seq<Event>) -> Seq<Action>
    decreases events.len(),
{
    if events.len() == 0 {
        Seq::empty()
    } else {
        seq![transition(state, events[0]).1] + actions_from(
            transition(state, events[0]).0,
            events.drop_first(),
        )
    }
}

/// Where the copy of `path` goes when `rule`, of the manifest in `dir`, has
/// matched it: the place that the template names under the variables of the
/// manifest and the file name of `path`.
pub open spec fn placed(root: Seq<char>, dir: Seq<char>, rule: Rule, path: Seq<char>) -> Result<
    Seq<char>,
    TemplateError,
> {
    match interpolated(
        rule.to,
        manifest_vars(dir).insert(file_name_variable(), file_name(path)),
    ) {
        Ok(to) => Ok(destination(root, dir, to)),
        Err(e) => Err(e),
    }
}

/// What happens while a rule with these matches is carried out and all goes
/// well: each match is found and copied, and then the matches run out.
pub open spec fn rule_events(matches: Seq<Seq<char>>) -> Seq<Event>
    decreases matches.len(),
{
    if matches.len() == 0 {
        seq![Event::EndOfMatches]
    } else {
        seq![Event::Match(matches[0]), Event::Copied] + rule_events(matches.drop_first())
    }
}

/// What is owed for the matches of a rule: each is copied to its place, in
/// the order in which they were found.
pub open spec fn rule_copies(
    root: Seq<char>,
    dir: Seq<char>,
    rule: Rule,
    matches: Seq<Seq<char>>,
) -> Seq<Action>
    decreases matches.len(),
{
    if matches.len() == 0 {
        Seq::empty()
    } else {
        seq![
            Action::Copy { from: matches[0], to: placed(root, dir, rule, matches[0])->Ok_0 },
            Action::NextMatch,
        ] + rule_copies(root, dir, rule, matches.drop_first())
    }
}

/// What happens while the rules of a manifest are carried out and all goes
/// well, where `found[i]` is what rule `i` matches.
pub open spec fn manifest_events(found: Seq<Seq<Seq<char>>>) -> Seq<Event>
    decreases found.len(),
{
    if found.len() == 0 {
        Seq::empty()
    } else {
        rule_events(found[0]) + manifest_events(found.drop_first())
    }
}

/// What is owed for a manifest in `dir`: each rule is expanded and its
/// matches are copied, rule by rule in the order of the manifest, and then
/// the walk goes on.
pub open spec fn manifest_actions(
    root: Seq<char>,
    dir: Seq<char>,
    rules: Seq<Rule>,
    found: Seq<Seq<Seq<char>>>,
) -> Seq<Action>
    decreases rules.len(),
{
    if rules.len() == 0 {
        seq![Action::NextEntry]
    } else {
        seq![Action::Expand(joined(dir, rules[0].from))] + rule_copies(
            root,
            dir,
            rules[0],
            found[0],
        ) + manifest_actions(root, dir, rules.drop_first(), found.drop_first())
    }
}

/// The two variables have different names.
pub proof fn lemma_variables_differ()
    ensures
        dir_slug_variable() != file_name_variable(),
{
    reveal_strlit("dir_slug");
    reveal_strlit("file_name");
    assert("dir_slug"@.len() == 8);
    assert("file_name"@.len() == 9);
}

/// A step from a well-formed state leads to a well-formed state.
pub proof fn lemma_transition_keeps_well_formed(state: State, event: Event)
    requires
        state.well_formed(),
    ensures
        transition(state, event).0.well_formed(),
{
    lemma_variables_differ();
    match (state, event) {
        (State::Loading { root, dir }, Event::Manifest(rules)) => {
            assert(manifest_vars(dir).remove(file_name_variable()) =~= manifest_vars(dir));
        },
        (State::Matching { root, dir, rules, vars }, Event::Match(path)) => {
            let bound = vars.insert(file_name_variable(), file_name(path));
            assert(bound.remove(file_name_variable()) =~= vars.remove(file_name_variable()));
        },
        (State::Matching { root, dir, rules, vars }, Event::EndOfMatches) => {
            let unbound = vars.remove(file_name_variable());
            assert(unbound.remove(file_name_variable()) =~= unbound);
        },
        _ => {},
    }
}

/// Whatever happens, a run that is in a well-formed state stays in one. A
/// run starts out in `Ready`, which is well formed, so it is in a well-formed
/// state at all times.
pub proof fn lemma_every_state_is_well_formed(state: State, events: Seq<Event>)
    requires
        state.well_formed(),
    ensures
        state_from(state, events).well_formed(),
    decreases events.len(),
{
    if events.len() > 0 {
        lemma_transition_keeps_well_formed(state, events[0]);
        lemma_every_state_is_well_formed(transition(state, events[0]).0, events.drop_first());
    }
}

/// When the matches of a rule have run out, the file name is unbound again:
/// the next rule of the manifest starts out with the variables of the
/// manifest and no others, whether or not the rule before it matched a file.
pub proof fn lemma_file_name_does_not_outlive_its_rule(state: State)
    requires
        state.well_formed(),
        state is Matching,
    ensures
        match transition(state, Event::EndOfMatches) {
            (State::Matching { root, dir, rules, vars }, Action::Expand(pattern)) => {
                &&& root == state->Matching_root
                &&& dir == state->Matching_dir
                &&& rules == state->Matching_rules.drop_first()
                &&& vars == manifest_vars(dir)
                &&& !vars.contains_key(file_name_variable())
                &&& pattern == joined(dir, rules[0].from)
            },
            (State::Walking { root }, Action::NextEntry) => {
                &&& root == state->Matching_root
                &&& state->Matching_rules.len() == 1
            },
            _ => false,
        },
{
    lemma_variables_differ();
}

/// A match is copied to the place that the template of its rule names under
/// the variables of the manifest and the file name of the match itself.
/// Nothing that was matched before has a part in it. A match whose place
/// cannot be worked out ends the run.
pub proof fn lemma_match_is_placed_by_its_own_name(state: State, path: Seq<char>)
    requires
        state.well_formed(),
        state is Matching,
    ensures
        ({
            let root = state->Matching_root;
            let dir = state->Matching_dir;
            let rules = state->Matching_rules;
            match placed(root, dir, rules[0], path) {
                Ok(to) => {
                    &&& transition(state, Event::Match(path)).0 is Copying
                    &&& transition(state, Event::Match(path)).1 == (Action::Copy { from: path, to })
                },
                Err(e) => transition(state, Event::Match(path)) == (
                    State::Stopped,
                    Action::Abort(Failure::Template(e)),
                ),
            }
        }),
{
    let dir = state->Matching_dir;
    let vars = state->Matching_vars;
    let own = manifest_vars(dir).insert(file_name_variable(), file_name(path));
    assert(vars.insert(file_name_variable(), file_name(path)) =~= own) by {
        assert(vars.remove(file_name_variable()).insert(file_name_variable(), file_name(path))
            =~= vars.insert(file_name_variable(), file_name(path)));
    }
}

/// What happens in two parts: the run goes through the first part, and from
/// where it then stands through the second.
pub proof fn lemma_events_in_turn(state: State, first: Seq<Event>, then: Seq<Event>)
    ensures
        state_from(state, first + then) == state_from(state_from(state, first), then),
        actions_from(state, first + then) == actions_from(state, first) + actions_from(
            state_from(state, first),
            then,
        ),
    decreases first.len(),
{
    if first.len() == 0 {
        assert(first + then =~= then);
        assert(Seq::<Action>::empty() + actions_from(state, then) =~= actions_from(state, then));
    } else {
        let next = transition(state, first[0]).0;
        let action = transition(state, first[0]).1;
        assert((first + then)[0] == first[0]);
        assert((first + then).drop_first() =~= first.drop_first() + then);
        lemma_events_in_turn(next, first.drop_first(), then);
        assert(seq![action] + (actions_from(next, first.drop_first()) + actions_from(
            state_from(next, first.drop_first()),
            then,
        )) =~= (seq![action] + actions_from(next, first.drop_first())) + actions_from(
            state_from(next, first.drop_first()),
            then,
        ));
    }
}

/// A rule is carried out in full: where every match has a place, each match
/// is copied to its place, in the order in which the matches were found, and
/// then the next rule is taken up with the variables of the manifest alone.
pub proof fn lemma_rule_is_carried_out(state: State, matches: Seq<Seq<char>>)
    requires
        state.well_formed(),
        state is Matching,
        forall|k: int|
            0 <= k < matches.len() ==> placed(
                state->Matching_root,
                state->Matching_dir,
                state->Matching_rules[0],
                #[trigger] matches[k],
            ) is Ok,
    ensures
        ({
            let root = state->Matching_root;
            let dir = state->Matching_dir;
            let rules = state->Matching_rules;
            let next = take_up(root, dir, rules.drop_first(), manifest_vars(dir));
            &&& state_from(state, rule_events(matches)) == next.0
            &&& actions_from(state, rule_events(matches)) == rule_copies(
                root,
                dir,
                rules[0],
                matches,
            ) + seq![next.1]
        }),
    decreases matches.len(),
{
    let root = state->Matching_root;
    let dir = state->Matching_dir;
    let rules = state->Matching_rules;
    let next = take_up(root, dir, rules.drop_first(), manifest_vars(dir));
    let events = rule_events(matches);
    if matches.len() == 0 {
        lemma_file_name_does_not_outlive_its_rule(state);
        assert(events.drop_first() =~= Seq::<Event>::empty());
        assert(transition(state, events[0]) == next);
        assert(state_from(next.0, events.drop_first()) == next.0);
        assert(actions_from(next.0, events.drop_first()) == Seq::<Action>::empty());
        assert(seq![next.1] + Seq::<Action>::empty() =~= Seq::<Action>::empty() + seq![next.1]);
    } else {
        let path = matches[0];
        let rest = matches.drop_first();
        let copying = transition(state, Event::Match(path)).0;
        let copy = transition(state, Event::Match(path)).1;
        let back = transition(copying, Event::Copied).0;
        assert(placed(root, dir, rules[0], matches[0]) is Ok);
        lemma_match_is_placed_by_its_own_name(state, path);
        lemma_transition_keeps_well_formed(state, Event::Match(path));
        lemma_transition_keeps_well_formed(copying, Event::Copied);
        assert forall|k: int| 0 <= k < rest.len() implies placed(
            root,
            dir,
            rules[0],
            #[trigger] rest[k],
        ) is Ok by {
            assert(rest[k] == matches[k + 1]);
        }
        lemma_rule_is_carried_out(back, rest);
        let tail = events.drop_first();
        assert(events[0] == Event::Match(path));
        assert(tail[0] == Event::Copied);
        assert(tail.drop_first() =~= rule_events(rest));
        assert(state_from(state, events) == state_from(copying, tail));
        assert(state_from(copying, tail) == state_from(back, rule_events(rest)));
        assert(actions_from(state, events) == seq![copy] + actions_from(copying, tail));
        assert(actions_from(copying, tail) == seq![Action::NextMatch] + actions_from(
            back,
            rule_events(rest),
        ));
        assert(actions_from(state, events) =~= rule_copies(root, dir, rules[0], matches) + seq![
            next.1,
        ]);
    }
}

/// The rules of a manifest are carried out in full, from the one at hand on.
proof fn lemma_rules_are_carried_out(
    root: Seq<char>,
    dir: Seq<char>,
    rules: Seq<Rule>,
    found: Seq<Seq<Seq<char>>>,
)
    requires
        found.len() == rules.len(),
        forall|i: int, k: int|
            0 <= i < rules.len() && 0 <= k < found[i].len() ==> placed(
                root,
                dir,
                rules[i],
                #[trigger] found[i][k],
            ) is Ok,
    ensures
        ({
            let start = take_up(root, dir, rules, manifest_vars(dir));
            &&& state_from(start.0, manifest_events(found)) == (State::Walking { root })
            &&& seq![start.1] + actions_from(start.0, manifest_events(found)) == manifest_actions(
                root,
                dir,
                rules,
                found,
            )
        }),
    decreases rules.len(),
{
    let start = take_up(root, dir, rules, manifest_vars(dir));
    if rules.len() == 0 {
        assert(seq![start.1] + Seq::<Action>::empty() =~= seq![Action::NextEntry]);
    } else {
        let later = rules.drop_first();
        let later_found = found.drop_first();
        let next = take_up(root, dir, later, manifest_vars(dir));
        lemma_variables_differ();
        assert(manifest_vars(dir).remove(file_name_variable()) =~= manifest_vars(dir));
        assert forall|k: int| 0 <= k < found[0].len() implies placed(
            root,
            dir,
            rules[0],
            #[trigger] found[0][k],
        ) is Ok by {}
        lemma_rule_is_carried_out(start.0, found[0]);
        assert forall|i: int, k: int|
            0 <= i < later.len() && 0 <= k < later_found[i].len() implies placed(
            root,
            dir,
            later[i],
            #[trigger] later_found[i][k],
        ) is Ok by {
            assert(later[i] == rules[i + 1]);
            assert(later_found[i] == found[i + 1]);
            assert(placed(root, dir, rules[i + 1], found[i + 1][k]) is Ok);
        }
        lemma_rules_are_carried_out(root, dir, later, later_found);
        lemma_events_in_turn(start.0, rule_events(found[0]), manifest_events(later_found));
        let copies = rule_copies(root, dir, rules[0], found[0]);
        let rest = actions_from(next.0, manifest_events(later_found));
        assert(seq![start.1] + ((copies + seq![next.1]) + rest) =~= seq![start.1] + copies + (seq![
            next.1,
        ] + rest));
    }
}

/// A manifest is carried out in full. Where every match has a place, the run
/// asks for just this, from the moment the manifest was read: each rule is
/// expanded in the order of the manifest, each of its matches is copied to
/// its place in the order in which they were found, and then the walk goes
/// on.
pub proof fn lemma_manifest_is_carried_out(
    root: Seq<char>,
    dir: Seq<char>,
    rules: Seq<Rule>,
    found: Seq<Seq<Seq<char>>>,
)
    requires
        found.len() == rules.len(),
        forall|i: int, k: int|
            0 <= i < rules.len() && 0 <= k < found[i].len() ==> placed(
                root,
                dir,
                rules[i],
                #[trigger] found[i][k],
            ) is Ok,
    ensures
        ({
            let events = seq![Event::Manifest(rules)] + manifest_events(found);
            &&& state_from(State::Loading { root, dir }, events) == (State::Walking { root })
            &&& actions_from(State::Loading { root, dir }, events) == manifest_actions(
                root,
                dir,
                rules,
                found,
            )
        }),
{
    let loading = State::Loading { root, dir };
    let events = seq![Event::Manifest(rules)] + manifest_events(found);
    lemma_rules_are_carried_out(root, dir, rules, found);
    assert(events[0] == Event::Manifest(rules));
    assert(events.drop_first() =~= manifest_events(found));
}

/// A failure ends the run at once, and a run that is over stays over: no
/// action but `Abort` follows.
pub proof fn lemma_failure_ends_the_run(state: State, failure: Failure, later: Event)
    ensures
        !(state is Stopped) ==> transition(state, Event::Failed(failure)) == (
            State::Stopped,
            Action::Abort(failure),
        ),
        transition(State::Stopped, later) == refused(),
{
}

} // verus!
