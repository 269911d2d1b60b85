//! Templates and the variables that fill them in.
//!
//! An [`InterpolatedString`] is read from text such as
//! `/.github/workflows/${ dir_slug }-${ file_name }`, and is filled in from a
//! [`VariableBinding`].

use crate::template::{
    after_parts, after_text, close_marker, interpolated, is_template, lemma_parsed_is_template,
    lemma_rendered_parses_back, message_of, open_marker, parsed, part_source, part_value, rendered,
    Part, TemplateError,
};
use crate::text::{chars_of, index_of, lemma_find, lemma_find_in_suffix, substring, trim, trim_range};
use core::str::FromStr;
use vstd::hash_map::StringHashMap;
use vstd::prelude::*;
use vstd::string::*;

verus! {

/// The variables of one expansion: names and their values.
pub struct VariableBinding {
    vars: StringHashMap<String>,
}

impl View for VariableBinding {
    type V = Map<Seq<char>, Seq<char>>;

    closed spec fn view(&self) -> Map<Seq<char>, Seq<char>> {
        self.vars@.map_values(|value: String| value@)
    }
}

impl VariableBinding {
    /// A binding without variables.
    pub fn new() -> (binding: VariableBinding)
        ensures
            binding@ == Map::<Seq<char>, Seq<char>>::empty(),
    {
        let binding = VariableBinding { vars: StringHashMap::new() };
        assert(binding@ =~= Map::<Seq<char>, Seq<char>>::empty());
        binding
    }

    /// Gives `name` the value `value`, in place of any value it had.
    pub fn insert(&mut self, name: String, value: String)
        ensures
            final(self)@ == old(self)@.insert(name@, value@),
    {
        self.vars.insert(name, value);
        assert(self@ =~= old(self)@.insert(name@, value@));
    }

    /// Takes `name` out of the binding, if it is there.
    pub fn remove(&mut self, name: &str)
        ensures
            final(self)@ == old(self)@.remove(name@),
    {
        self.vars.remove(name);
        assert(self@ =~= old(self)@.remove(name@));
    }

    /// The value of `name`, if it has one.
    pub fn get(&self, name: &str) -> (value: Option<&String>)
        ensures
            match value {
                Some(v) => self@.contains_key(name@) && self@[name@] == v@,
                None => !self@.contains_key(name@),
            },
    {
        self.vars.get(name)
    }
}

/// Why a template could not be read or filled in.
#[derive(Debug, PartialEq, Eq)]
pub enum InterpolatedStringError {
    /// The template names a variable that the binding does not hold.
    MissingVar(String),
    /// A placeholder is opened and never closed.
    MissingClosingBrace,
}

impl View for InterpolatedStringError {
    type V = TemplateError;

    open spec fn view(&self) -> TemplateError {
        match self {
            InterpolatedStringError::MissingVar(name) => TemplateError::MissingVar(name@),
            InterpolatedStringError::MissingClosingBrace => TemplateError::MissingClosingBrace,
        }
    }
}

impl InterpolatedStringError {
    /// What the error says of itself.
    pub fn message(&self) -> (text: String)
        ensures
            text@ == message_of(self@),
    {
        match self {
            InterpolatedStringError::MissingVar(name) => {
                let mut text = "unknown interpolation variable ".to_owned();
                text.append(name.as_str());
                text
            },
            InterpolatedStringError::MissingClosingBrace => "missing closing brace".to_owned(),
        }
    }
}

#[derive(Debug)]
enum Segment {
    String(String),
    Expr(String),
}

impl View for Segment {
    type V = Part;

    closed spec fn view(&self) -> Part {
        match self {
            Segment::String(text) => Part::Text(text@),
            Segment::Expr(name) => Part::Var(name@),
        }
    }
}

/// A parsed template.
#[derive(Debug)]
pub struct InterpolatedString {
    segments: Vec<Segment>,
}

impl View for InterpolatedString {
    type V = Seq<Part>;

    closed spec fn view(&self) -> Seq<Part> {
        self.segments@.map_values(|segment: Segment| segment@)
    }
}

impl InterpolatedString {
    /// Every value has the shape that reading gives a template.
    #[verifier::type_invariant]
    spec fn well_formed(&self) -> bool {
        is_template(self@)
    }
}

impl FromStr for InterpolatedString {
    type Err = InterpolatedStringError;

    /// Reads `s` as a template.
    fn from_str(s: &str) -> (r: Result<InterpolatedString, InterpolatedStringError>)
        ensures
            match r {
                Ok(template) => parsed(s@) == Ok::<Seq<Part>, TemplateError>(template@),
                Err(e) => parsed(s@) == Err::<Seq<Part>, TemplateError>(e@),
            },
    {
        let chars = chars_of(s);
        let n = chars.len();
        let open: [char; 2] = ['$', '{'];
        let close: [char; 1] = ['}'];
        let mut segments: Vec<Segment> = Vec::new();
        let mut pos: usize = 0;
        proof {
            assert(s@.subrange(0, n as int) =~= s@);
            assert(segments@.map_values(|segment: Segment| segment@) =~= Seq::<Part>::empty());
            if let Ok(parts) = parsed(s@) {
                assert(Seq::<Part>::empty() + parts =~= parts);
            }
        }
        loop
            invariant
                chars@ == s@,
                n == s@.len(),
                open@ == open_marker(),
                close@ == close_marker(),
                pos <= n,
                parsed(s@) == after_parts(
                    segments@.map_values(|segment: Segment| segment@),
                    parsed(s@.subrange(pos as int, n as int)),
                ),
            decreases n - pos,
        {
            let ghost rest = s@.subrange(pos as int, n as int);
            let ghost done = segments@.map_values(|segment: Segment| segment@);
            proof {
                lemma_find_in_suffix(s@, open_marker(), pos as int);
                lemma_find(rest, open_marker());
            }
            match index_of(&chars, open.as_slice(), pos) {
                None => {
                    segments.push(Segment::String(substring(s, pos, n)));
                    proof {
                        assert(segments@.map_values(|segment: Segment| segment@) =~= done
                            + seq![Part::Text(rest)]);
                        lemma_parsed_is_template(s@);
                    }
                    return Ok(InterpolatedString { segments });
                },
                Some(start) => {
                    let ghost opened = rest.subrange(start - pos + 2, rest.len() as int);
                    proof {
                        assert(opened =~= s@.subrange(start + 2, n as int));
                        lemma_find_in_suffix(s@, close_marker(), start + 2);
                        lemma_find(opened, close_marker());
                    }
                    match index_of(&chars, close.as_slice(), start + 2) {
                        None => {
                            return Err(InterpolatedStringError::MissingClosingBrace);
                        },
                        Some(end) => {
                            let (lo, hi) = trim_range(&chars, start + 2, end);
                            segments.push(Segment::String(substring(s, pos, start)));
                            segments.push(Segment::Expr(substring(s, lo, hi)));
                            proof {
                                let text = rest.subrange(0, start - pos);
                                let name = opened.subrange(0, end - (start + 2));
                                let next = opened.subrange(
                                    end - (start + 2) + 1,
                                    opened.len() as int,
                                );
                                assert(text =~= s@.subrange(pos as int, start as int));
                                assert(name =~= s@.subrange(start + 2, end as int));
                                assert(next =~= s@.subrange(end + 1, n as int));
                                assert(segments@.map_values(|segment: Segment| segment@) =~= done
                                    + seq![Part::Text(text), Part::Var(trim(name))]);
                                assert(parsed(rest) == after_parts(
                                    seq![Part::Text(text), Part::Var(trim(name))],
                                    parsed(next),
                                ));
                                if let Ok(parts) = parsed(next) {
                                    assert(done + (seq![Part::Text(text), Part::Var(trim(name))]
                                        + parts) =~= (done + seq![
                                        Part::Text(text),
                                        Part::Var(trim(name)),
                                    ]) + parts);
                                }
                            }
                            pos = end + 1;
                        },
                    }
                },
            }
        }
    }
}

impl InterpolatedString {
    /// Writes the template out again: text as it stands, each variable
    /// between the markers with one space on either side of its name. What
    /// is written reads as this template.
    pub fn render(&self) -> (source: String)
        ensures
            source@ == rendered(self@),
            parsed(source@) == Ok::<Seq<Part>, TemplateError>(self@),
    {
        let mut out = String::new();
        let mut i: usize = 0;
        proof {
            use_type_invariant(self);
            lemma_rendered_parses_back(self@);
            reveal_strlit("${ ");
            reveal_strlit(" }");
            assert("${ "@ =~= open_marker() + seq![' ']);
            assert(" }"@ =~= seq![' '] + close_marker());
            assert(self@.skip(0) =~= self@);
            assert(out@ + rendered(self@) =~= rendered(self@));
        }
        while i < self.segments.len()
            invariant
                i <= self.segments@.len(),
                "${ "@ == open_marker() + seq![' '],
                " }"@ == seq![' '] + close_marker(),
                rendered(self@) == out@ + rendered(self@.skip(i as int)),
            decreases self.segments@.len() - i,
        {
            let ghost ahead = self@.skip(i as int);
            let ghost before = out@;
            assert(ahead[0] == self.segments@[i as int]@);
            assert(ahead.drop_first() =~= self@.skip(i + 1));
            match &self.segments[i] {
                Segment::String(text) => {
                    out.append(text.as_str());
                },
                Segment::Expr(name) => {
                    out.append("${ ");
                    out.append(name.as_str());
                    out.append(" }");
                },
            }
            assert(out@ =~= before + part_source(ahead[0]));
            assert(before + (part_source(ahead[0]) + rendered(ahead.drop_first())) =~= (before
                + part_source(ahead[0])) + rendered(ahead.drop_first()));
            i += 1;
        }
        assert(self@.skip(i as int) =~= Seq::<Part>::empty());
        assert(out@ + Seq::<char>::empty() =~= out@);
        out
    }

    /// Fills the placeholders in from `map` and returns the text.
    ///
    /// Fails on the first placeholder whose variable `map` does not hold.
    pub fn interpolate(&self, map: &VariableBinding) -> (r: Result<String, InterpolatedStringError>)
        ensures
            match r {
                Ok(text) => interpolated(self@, map@) == Ok::<Seq<char>, TemplateError>(text@),
                Err(e) => interpolated(self@, map@) == Err::<Seq<char>, TemplateError>(e@),
            },
    {
        let mut out = String::new();
        let mut i: usize = 0;
        proof {
            assert(self@.skip(0) =~= self@);
            if let Ok(text) = interpolated(self@, map@) {
                assert(out@ + text =~= text);
            }
        }
        while i < self.segments.len()
            invariant
                i <= self.segments@.len(),
                interpolated(self@, map@) == after_text(
                    out@,
                    interpolated(self@.skip(i as int), map@),
                ),
            decreases self.segments@.len() - i,
        {
            let ghost ahead = self@.skip(i as int);
            let ghost before = out@;
            assert(ahead[0] == self.segments@[i as int]@);
            assert(ahead.drop_first() =~= self@.skip(i + 1));
            match &self.segments[i] {
                Segment::String(text) => {
                    out.append(text.as_str());
                },
                Segment::Expr(name) => {
                    match map.get(name.as_str()) {
                        Some(value) => {
                            out.append(value.as_str());
                        },
                        None => {
                            return Err(InterpolatedStringError::MissingVar(name.clone()));
                        },
                    }
                },
            }
            proof {
                let head = part_value(ahead[0], map@)->Ok_0;
                assert(out@ == before + head);
                if let Ok(tail) = interpolated(ahead.drop_first(), map@) {
                    assert(before + (head + tail) =~= (before + head) + tail);
                }
            }
            i += 1;
        }
        assert(self@.skip(i as int) =~= Seq::<Part>::empty());
        assert(out@ + Seq::<char>::empty() =~= out@);
        Ok(out)
    }
}

} // verus!
