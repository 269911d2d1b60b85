//! Templates, as the contracts see them: how a string is read as a template,
//! what a template stands for once its variables have values, and how it is
//! written out again.
//!
//! A template is literal text interleaved with placeholders. A placeholder is
//! the name of a variable between `${` and `}`; whitespace around the name
//! does not count.

use crate::text::{
    contains, find, is_trimmed, lemma_find, lemma_find_is, lemma_occurs_at_char,
    lemma_occurs_at_pair, lemma_trim, lemma_trim_of_padded, lemma_trim_of_trimmed, occurs_at,
    split_once, trim, trim_start,
};
use vstd::prelude::*;

verus! {

/// One piece of a template, as the contracts see it.
pub enum Part {
    /// Text that is copied as it stands.
    Text(Seq<char>),
    /// A placeholder, by the name of its variable.
    Var(Seq<char>),
}

/// What can go wrong with a template, as the contracts see it.
pub enum TemplateError {
    /// The template names a variable that has no value.
    MissingVar(Seq<char>),
    /// A placeholder is opened and never closed.
    MissingClosingBrace,
}

/// The two characters that open a placeholder.
pub open spec fn open_marker() -> Seq<char> {
    seq!['$', '{']
}

/// The character that closes a placeholder.
pub open spec fn close_marker() -> Seq<char> {
    seq!['}']
}

/// The template that `s` denotes.
///
/// What stands before the first open marker is text. What stands between that
/// marker and the first close marker after it, without the whitespace around
/// it, names a variable. What follows the close marker is read in the same
/// way. An open marker that no close marker follows makes the whole of `s`
/// malformed.
pub open spec fn parsed(s: Seq<char>) -> Result<Seq<Part>, TemplateError>
    decreases s.len(),
    via parsed_decreases
{
    match split_once(s, open_marker()) {
        None => Ok(seq![Part::Text(s)]),
        Some((text, opened)) => match split_once(opened, close_marker()) {
            None => Err(TemplateError::MissingClosingBrace),
            Some((name, rest)) => match parsed(rest) {
                Ok(parts) => Ok(seq![Part::Text(text), Part::Var(trim(name))] + parts),
                Err(e) => Err(e),
            },
        },
    }
}

#[via_fn]
proof fn parsed_decreases(s: Seq<char>) {
    lemma_find(s, open_marker());
    if let Some((_, opened)) = split_once(s, open_marker()) {
        lemma_find(opened, close_marker());
    }
}

/// What a single part stands for under `vars`.
pub open spec fn part_value(part: Part, vars: Map<Seq<char>, Seq<char>>) -> Result<
    Seq<char>,
    TemplateError,
> {
    match part {
        Part::Text(text) => Ok(text),
        Part::Var(name) => if vars.contains_key(name) {
            Ok(vars[name])
        } else {
            Err(TemplateError::MissingVar(name))
        },
    }
}

/// The text that `parts` stand for under `vars`: the values of the parts, one
/// after the other. The first variable without a value is the error.
pub open spec fn interpolated(parts: Seq<Part>, vars: Map<Seq<char>, Seq<char>>) -> Result<
    Seq<char>,
    TemplateError,
>
    decreases parts.len(),
{
    if parts.len() == 0 {
        Ok(Seq::empty())
    } else {
        match part_value(parts[0], vars) {
            Err(e) => Err(e),
            Ok(head) => match interpolated(parts.drop_first(), vars) {
                Ok(tail) => Ok(head + tail),
                Err(e) => Err(e),
            },
        }
    }
}

/// The parts `done`, followed by what is still to come.
pub open spec fn after_parts(done: Seq<Part>, then: Result<Seq<Part>, TemplateError>) -> Result<
    Seq<Part>,
    TemplateError,
> {
    match then {
        Ok(parts) => Ok(done + parts),
        Err(e) => Err(e),
    }
}

/// The text `done`, followed by what is still to come.
pub open spec fn after_text(done: Seq<char>, then: Result<Seq<char>, TemplateError>) -> Result<
    Seq<char>,
    TemplateError,
> {
    match then {
        Ok(text) => Ok(done + text),
        Err(e) => Err(e),
    }
}

/// How a part is written in a template: text as it stands, a variable
/// between the markers, with one space on either side of its name.
pub open spec fn part_source(part: Part) -> Seq<char> {
    match part {
        Part::Text(text) => text,
        Part::Var(name) => open_marker() + seq![' '] + name + seq![' '] + close_marker(),
    }
}

/// A template written out: its parts as they are written, one after the
/// other.
pub open spec fn rendered(parts: Seq<Part>) -> Seq<char>
    decreases parts.len(),
{
    if parts.len() == 0 {
        Seq::empty()
    } else {
        part_source(parts[0]) + rendered(parts.drop_first())
    }
}

/// What an error says of itself.
pub open spec fn message_of(error: TemplateError) -> Seq<char> {
    match error {
        TemplateError::MissingVar(name) => "unknown interpolation variable "@ + name,
        TemplateError::MissingClosingBrace => "missing closing brace"@,
    }
}

/// The shape of every template that `parsed` returns: text and variables
/// take turns, from a text to a text. No text before a variable, nor the last
/// text, holds an open marker. No name holds a close marker, and each name is
/// trimmed.
pub open spec fn is_template(parts: Seq<Part>) -> bool
    decreases parts.len(),
{
    if parts.len() == 0 {
        false
    } else if parts.len() == 1 {
        parts[0] matches Part::Text(text) && !contains(text, open_marker())
    } else {
        &&& parts[0] matches Part::Text(text) && !contains(text, open_marker())
        &&& parts[1] matches Part::Var(name) && !contains(name, close_marker()) && is_trimmed(name)
        &&& is_template(parts.skip(2))
    }
}

/// An open marker stands in `s` at position `i`, and no close marker follows
/// it.
pub open spec fn unclosed_at(s: Seq<char>, i: int) -> bool {
    &&& occurs_at(s, open_marker(), i)
    &&& forall|j: int| i + 2 <= j < s.len() ==> s[j] != '}'
}

/// A string without an open marker is one text, and stands for itself under
/// every binding.
pub proof fn lemma_plain_text(s: Seq<char>, vars: Map<Seq<char>, Seq<char>>)
    requires
        !contains(s, open_marker()),
    ensures
        parsed(s) == Ok::<Seq<Part>, TemplateError>(seq![Part::Text(s)]),
        interpolated(seq![Part::Text(s)], vars) == Ok::<Seq<char>, TemplateError>(s),
{
    lemma_find(s, open_marker());
    let parts = seq![Part::Text(s)];
    assert(parts.drop_first() =~= Seq::<Part>::empty());
    assert(interpolated(parts.drop_first(), vars) == Ok::<Seq<char>, TemplateError>(Seq::empty()));
    assert(s + Seq::<char>::empty() =~= s);
}

/// A string that begins with text, an open marker, a name and a close marker
/// is read as that text, that name without the whitespace around it, and
/// whatever the rest of the string is read as.
pub proof fn lemma_parsed_placeholder(text: Seq<char>, name: Seq<char>, rest: Seq<char>)
    requires
        !contains(text, open_marker()),
        !contains(name, close_marker()),
    ensures
        parsed(text + open_marker() + name + close_marker() + rest) == after_parts(
            seq![Part::Text(text), Part::Var(trim(name))],
            parsed(rest),
        ),
{
    let s = text + open_marker() + name + close_marker() + rest;
    let at = text.len() as int;
    assert(occurs_at(s, open_marker(), at)) by {
        lemma_occurs_at_pair(s, '$', '{', at);
    }
    assert forall|j: int| 0 <= j < at implies !occurs_at(s, open_marker(), j) by {
        lemma_occurs_at_pair(s, '$', '{', j);
        lemma_occurs_at_pair(text, '$', '{', j);
        assert(!occurs_at(text, open_marker(), j));
    }
    lemma_find_is(s, open_marker(), at);
    let opened = s.subrange(at + 2, s.len() as int);
    assert(s.subrange(0, at) =~= text);
    assert(opened =~= name + close_marker() + rest);
    let end = name.len() as int;
    assert(occurs_at(opened, close_marker(), end)) by {
        lemma_occurs_at_char(opened, '}', end);
    }
    assert forall|j: int| 0 <= j < end implies !occurs_at(opened, close_marker(), j) by {
        lemma_occurs_at_char(opened, '}', j);
        lemma_occurs_at_char(name, '}', j);
        assert(!occurs_at(name, close_marker(), j));
    }
    lemma_find_is(opened, close_marker(), end);
    assert(opened.subrange(0, end) =~= name);
    assert(opened.subrange(end + 1, opened.len() as int) =~= rest);
}

/// A template with one placeholder, filled in: the value stands where the
/// placeholder stood, between the text before it and the text after it.
pub proof fn lemma_single_placeholder(
    before: Seq<char>,
    name: Seq<char>,
    after: Seq<char>,
    value: Seq<char>,
)
    requires
        !contains(before, open_marker()),
        !contains(name, close_marker()),
        !contains(after, open_marker()),
    ensures
        parsed(before + open_marker() + name + close_marker() + after) == Ok::<
            Seq<Part>,
            TemplateError,
        >(seq![Part::Text(before), Part::Var(trim(name)), Part::Text(after)]),
        interpolated(
            seq![Part::Text(before), Part::Var(trim(name)), Part::Text(after)],
            Map::empty().insert(trim(name), value),
        ) == Ok::<Seq<char>, TemplateError>(before + value + after),
{
    let vars = Map::<Seq<char>, Seq<char>>::empty().insert(trim(name), value);
    let parts = seq![Part::Text(before), Part::Var(trim(name)), Part::Text(after)];
    lemma_parsed_placeholder(before, name, after);
    lemma_plain_text(after, vars);
    assert(seq![Part::Text(before), Part::Var(trim(name))] + seq![Part::Text(after)] =~= parts);
    assert(parts.drop_first() =~= seq![Part::Var(trim(name)), Part::Text(after)]);
    assert(parts.drop_first().drop_first() =~= seq![Part::Text(after)]);
    assert(interpolated(parts.drop_first(), vars) == Ok::<Seq<char>, TemplateError>(value + after));
    assert(before + (value + after) =~= before + value + after);
}

/// Reading fails exactly when some open marker has no close marker after it,
/// and then the failure is the missing close marker.
pub proof fn lemma_unclosed_placeholder(s: Seq<char>)
    ensures
        parsed(s) is Err <==> exists|i: int| unclosed_at(s, i),
        parsed(s) is Err ==> parsed(s) == Err::<Seq<Part>, TemplateError>(
            TemplateError::MissingClosingBrace,
        ),
    decreases s.len(),
{
    lemma_find(s, open_marker());
    match find(s, open_marker()) {
        None => {
            assert forall|i: int| !unclosed_at(s, i) by {}
        },
        Some(at) => {
            let opened = s.subrange(at + 2, s.len() as int);
            lemma_find(opened, close_marker());
            assert forall|j: int| occurs_at(opened, close_marker(), j) <==> 0 <= j < opened.len()
                && s[at + 2 + j] == '}' by {
                lemma_occurs_at_char(opened, '}', j);
            }
            match find(opened, close_marker()) {
                None => {
                    assert forall|j: int| at + 2 <= j < s.len() implies s[j] != '}' by {
                        assert(!occurs_at(opened, close_marker(), j - (at + 2)));
                    }
                    assert(unclosed_at(s, at));
                },
                Some(end) => {
                    let skip = at + 2 + end + 1;
                    let rest = opened.subrange(end + 1, opened.len() as int);
                    assert(rest =~= s.subrange(skip, s.len() as int));
                    lemma_unclosed_placeholder(rest);
                    assert forall|i: int| unclosed_at(rest, i) <==> unclosed_at(s, i + skip) by {
                        lemma_occurs_at_pair(rest, '$', '{', i);
                        lemma_occurs_at_pair(s, '$', '{', i + skip);
                        if unclosed_at(rest, i) {
                            assert forall|j: int| i + skip + 2 <= j < s.len() implies s[j]
                                != '}' by {
                                assert(rest[j - skip] == s[j]);
                            }
                        }
                        if unclosed_at(s, i + skip) {
                            assert forall|j: int| i + 2 <= j < rest.len() implies rest[j]
                                != '}' by {
                                assert(rest[j] == s[j + skip]);
                            }
                        }
                    }
                    if exists|i: int| unclosed_at(rest, i) {
                        let i = choose|i: int| unclosed_at(rest, i);
                        assert(unclosed_at(s, i + skip));
                    }
                    if exists|i: int| unclosed_at(s, i) {
                        let i = choose|i: int| unclosed_at(s, i);
                        lemma_occurs_at_pair(s, '$', '{', i);
                        assert(s[skip - 1] == '}');
                        assert(i >= skip);
                        assert(unclosed_at(rest, i - skip));
                    }
                },
            }
        },
    }
}

/// The first variable of a template that the binding does not hold is the
/// one that the failure names.
pub proof fn lemma_first_missing_variable(
    parts: Seq<Part>,
    vars: Map<Seq<char>, Seq<char>>,
    at: int,
)
    requires
        0 <= at < parts.len(),
        part_value(parts[at], vars) is Err,
        forall|j: int| 0 <= j < at ==> part_value(parts[j], vars) is Ok,
    ensures
        parts[at] is Var,
        interpolated(parts, vars) == Err::<Seq<char>, TemplateError>(
            TemplateError::MissingVar(parts[at]->Var_0),
        ),
    decreases at,
{
    if at > 0 {
        let tail = parts.drop_first();
        assert forall|j: int| 0 <= j < at - 1 implies part_value(tail[j], vars) is Ok by {
            assert(tail[j] == parts[j + 1]);
        }
        lemma_first_missing_variable(tail, vars, at - 1);
    }
}

/// Under a binding without variables, a template with a variable fails, and
/// the failure names its first variable.
pub proof fn lemma_nothing_is_bound(parts: Seq<Part>, at: int)
    requires
        0 <= at < parts.len(),
        parts[at] is Var,
        forall|j: int| 0 <= j < at ==> parts[j] is Text,
    ensures
        interpolated(parts, Map::empty()) == Err::<Seq<char>, TemplateError>(
            TemplateError::MissingVar(parts[at]->Var_0),
        ),
{
    lemma_first_missing_variable(parts, Map::empty(), at);
}

/// A template is filled in exactly when the binding holds all its
/// variables.
pub proof fn lemma_interpolated_is_ok(parts: Seq<Part>, vars: Map<Seq<char>, Seq<char>>)
    ensures
        interpolated(parts, vars) is Ok <==> forall|j: int|
            0 <= j < parts.len() ==> part_value(parts[j], vars) is Ok,
    decreases parts.len(),
{
    if parts.len() > 0 {
        let tail = parts.drop_first();
        lemma_interpolated_is_ok(tail, vars);
        if interpolated(parts, vars) is Ok {
            assert forall|j: int| 0 <= j < parts.len() implies part_value(
                parts[j],
                vars,
            ) is Ok by {
                if j > 0 {
                    assert(parts[j] == tail[j - 1]);
                }
            }
        } else {
            if part_value(parts[0], vars) is Ok {
                let j = choose|j: int| 0 <= j < tail.len() && !(part_value(tail[j], vars) is Ok);
                assert(parts[j + 1] == tail[j]);
            }
        }
    }
}

/// Whatever `parsed` returns has the shape of a template.
pub proof fn lemma_parsed_is_template(s: Seq<char>)
    ensures
        parsed(s) matches Ok(parts) ==> is_template(parts),
    decreases s.len(),
{
    lemma_find(s, open_marker());
    match find(s, open_marker()) {
        None => {},
        Some(at) => {
            let text = s.subrange(0, at);
            let opened = s.subrange(at + 2, s.len() as int);
            lemma_find(opened, close_marker());
            match find(opened, close_marker()) {
                None => {},
                Some(end) => {
                    let inner = opened.subrange(0, end);
                    let rest = opened.subrange(end + 1, opened.len() as int);
                    lemma_parsed_is_template(rest);
                    if let Ok(tail) = parsed(rest) {
                        let parts = seq![Part::Text(text), Part::Var(trim(inner))] + tail;
                        assert(parts.skip(2) =~= tail);
                        assert forall|j: int| !occurs_at(text, open_marker(), j) by {
                            lemma_occurs_at_pair(text, '$', '{', j);
                            lemma_occurs_at_pair(s, '$', '{', j);
                        }
                        lemma_trim(inner);
                        let from = inner.len() - trim_start(inner).len();
                        assert forall|j: int| !occurs_at(trim(inner), close_marker(), j) by {
                            lemma_occurs_at_char(trim(inner), '}', j);
                            lemma_occurs_at_char(opened, '}', from + j);
                        }
                    }
                },
            }
        },
    }
}

/// A template written out: the text, the variable between the markers, and
/// the rest written out.
proof fn lemma_rendered_placeholder(parts: Seq<Part>)
    requires
        parts.len() >= 2,
        parts[0] is Text,
        parts[1] is Var,
    ensures
        rendered(parts) == parts[0]->Text_0 + open_marker() + (seq![' '] + parts[1]->Var_0
            + seq![' ']) + close_marker() + rendered(parts.skip(2)),
{
    let tail = parts.drop_first();
    assert(tail.drop_first() =~= parts.skip(2));
    assert(rendered(tail) == part_source(tail[0]) + rendered(tail.drop_first()));
    assert(rendered(parts) =~= parts[0]->Text_0 + open_marker() + (seq![' '] + parts[1]->Var_0
        + seq![' ']) + close_marker() + rendered(parts.skip(2)));
}

/// A template that is written out and read again is the same template.
pub proof fn lemma_rendered_parses_back(parts: Seq<Part>)
    requires
        is_template(parts),
    ensures
        parsed(rendered(parts)) == Ok::<Seq<Part>, TemplateError>(parts),
    decreases parts.len(),
{
    if parts.len() == 1 {
        let text = parts[0]->Text_0;
        assert(parts.drop_first() =~= Seq::<Part>::empty());
        assert(rendered(parts.drop_first()) == Seq::<char>::empty());
        assert(rendered(parts) =~= text);
        lemma_plain_text(text, Map::empty());
        assert(parts =~= seq![Part::Text(text)]);
    } else {
        let text = parts[0]->Text_0;
        let name = parts[1]->Var_0;
        let rest = parts.skip(2);
        let padded = seq![' '] + name + seq![' '];
        lemma_rendered_parses_back(rest);
        lemma_rendered_placeholder(parts);
        assert forall|j: int| !occurs_at(padded, close_marker(), j) by {
            lemma_occurs_at_char(padded, '}', j);
            lemma_occurs_at_char(name, '}', j - 1);
        }
        lemma_parsed_placeholder(text, padded, rendered(rest));
        lemma_trim_of_padded(name, ' ', ' ');
        lemma_trim_of_trimmed(name);
        assert(seq![Part::Text(text), Part::Var(name)] + rest =~= parts);
    }
}

/// Reading a string, writing the template out and reading it again gives the
/// template that the string was read as.
pub proof fn lemma_render_round_trip(s: Seq<char>)
    requires
        parsed(s) is Ok,
    ensures
        parsed(rendered(parsed(s)->Ok_0)) == parsed(s),
{
    lemma_parsed_is_template(s);
    lemma_rendered_parses_back(parsed(s)->Ok_0);
}

} // verus!
