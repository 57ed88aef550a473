//! Events and the line that each is written as.

use vstd::prelude::*;
use vstd::string::StringExecFns;
use crate::log::fields::{
    fields_single_line, joined, lemma_joined_holds_each_token, lemma_joined_single_line, token,
    token_start, FieldMap, FieldView,
};
use crate::log::level::{lemma_level_name_single_line, Level};
use crate::text::{append_decimal, decimal, lemma_decimal_is_digits, single_line};

verus! {

/// One diagnostic event: severity, target, where in the source it was
/// raised as far as that is known, and its fields.
#[derive(Debug, PartialEq, Eq)]
pub struct Event {
    pub level: Level,
    pub target: String,
    pub file: Option<String>,
    pub line: Option<u32>,
    pub fields: FieldMap,
}

/// What an [`Event`] holds, as mathematics.
pub struct EventView {
    pub level: Level,
    pub target: Seq<char>,
    pub file: Option<Seq<char>>,
    pub line: Option<u32>,
    pub fields: Seq<FieldView>,
}

impl View for Event {
    type V = EventView;

    open spec fn view(&self) -> EventView {
        EventView {
            level: self.level,
            target: self.target@,
            file: match self.file {
                Some(file) => Some(file@),
                None => None,
            },
            line: self.line,
            fields: self.fields@,
        }
    }
}

impl EventView {
    /// `file:line` where both are known, empty otherwise.
    pub open spec fn location(self) -> Seq<char> {
        match (self.file, self.line) {
            (Some(file), Some(line)) => file + seq![':'] + decimal(line as nat),
            _ => Seq::empty(),
        }
    }

    /// The line of the event, without a line break:
    /// `[LEVEL][target] name=value name=value - file:line`.
    pub open spec fn rendered(self) -> Seq<char> {
        seq!['['] + self.level.name() + seq![']', '['] + self.target + seq![']', ' '] + joined(
            self.fields,
        ) + seq![' ', '-', ' '] + self.location()
    }
}

impl Event {
    /// Appends `file:line` to `out` where both are known, and nothing
    /// otherwise.
    pub fn append_location(&self, out: &mut String)
        ensures
            final(out)@ == old(out)@ + self@.location(),
    {
        match (&self.file, &self.line) {
            (Some(file), Some(line)) => {
                out.append(file.as_str());
                out.append(":");
                append_decimal(out, *line as u128);
                proof {
                    reveal_strlit(":");
                    assert(":"@ =~= seq![':']);
                    assert(final(out)@ =~= old(out)@ + (file@ + seq![':'] + decimal(*line as nat)));
                }
            },
            _ => {
                assert(final(out)@ =~= old(out)@ + Seq::<char>::empty());
            },
        }
    }
}

/// The sink's formatter: turns each event into one line of text.
#[derive(Clone, Copy, Debug, Default)]
pub struct PrintLnLayer;

impl PrintLnLayer {
    /// The line for `event`. Fields come in the order of the event's field
    /// map; an event without fields leaves two spaces before the dash.
    pub fn on_event(&self, event: &Event) -> (line: String)
        ensures
            line@ == event@.rendered(),
    {
        let mut line = String::new();
        line.append("[");
        line.append(event.level.as_str());
        line.append("][");
        line.append(event.target.as_str());
        line.append("] ");
        event.fields.append_joined(&mut line);
        line.append(" - ");
        event.append_location(&mut line);
        proof {
            reveal_strlit("[");
            reveal_strlit("][");
            reveal_strlit("] ");
            reveal_strlit(" - ");
            assert("["@ =~= seq!['[']);
            assert("]["@ =~= seq![']', '[']);
            assert("] "@ =~= seq![']', ' ']);
            assert(" - "@ =~= seq![' ', '-', ' ']);
            assert(line@ =~= event@.rendered());
        }
        line
    }
}

/// Where the fields start within the line of an event: after the level and
/// the target in their brackets and one space.
pub open spec fn fields_start(event: EventView) -> int {
    (event.level.name().len() + event.target.len() + 5) as int
}

/// An event without fields leaves an empty place for them: two spaces
/// stand before the dash.
pub proof fn lemma_line_without_fields(event: EventView)
    requires
        event.fields.len() == 0,
    ensures
        event.rendered() == seq!['['] + event.level.name() + seq![']', '['] + event.target + seq![
            ']',
            ' ',
            ' ',
            '-',
            ' ',
        ] + event.location(),
{
    assert(event.rendered() =~= seq!['['] + event.level.name() + seq![']', '['] + event.target
        + seq![']', ' ', ' ', '-', ' '] + event.location());
}

/// The line of an event begins with the level and the target in their
/// brackets, holds the joined fields after one space, and ends with the
/// dash between two spaces and the location.
pub proof fn lemma_line_parts(event: EventView)
    ensures
        event.rendered().len() == fields_start(event) + joined(event.fields).len() + 3
            + event.location().len(),
        event.rendered().subrange(0, fields_start(event)) == seq!['['] + event.level.name() + seq![
            ']',
            '[',
        ] + event.target + seq![']', ' '],
        event.rendered().subrange(
            fields_start(event),
            fields_start(event) + joined(event.fields).len(),
        ) == joined(event.fields),
        event.rendered().subrange(
            fields_start(event) + joined(event.fields).len(),
            event.rendered().len() as int,
        ) == seq![' ', '-', ' '] + event.location(),
{
    let line = event.rendered();
    let start = fields_start(event);
    let end = start + joined(event.fields).len();
    assert(line.subrange(0, start) =~= seq!['['] + event.level.name() + seq![']', '[']
        + event.target + seq![']', ' ']);
    assert(line.subrange(start, end) =~= joined(event.fields));
    assert(line.subrange(end, line.len() as int) =~= seq![' ', '-', ' '] + event.location());
}

/// The line of an event holds the token of each of its fields, whole.
pub proof fn lemma_line_holds_each_token(event: EventView, i: int)
    requires
        0 <= i < event.fields.len(),
    ensures
        event.rendered().subrange(
            fields_start(event) + token_start(event.fields, i),
            fields_start(event) + token_start(event.fields, i) + token(event.fields[i]).len(),
        ) == token(event.fields[i]),
{
    lemma_line_parts(event);
    lemma_joined_holds_each_token(event.fields, i);
    let start = fields_start(event);
    let from = token_start(event.fields, i);
    let to = from + token(event.fields[i]).len();
    let all = joined(event.fields);
    assert(event.rendered().subrange(start + from, start + to) =~= event.rendered().subrange(
        start,
        start + all.len(),
    ).subrange(from, to));
}

impl EventView {
    /// Whether no part of the event brings a line feed: not the target, not
    /// the file's name, not a field.
    pub open spec fn single_line(self) -> bool {
        &&& single_line(self.target)
        &&& self.file matches Some(file) ==> single_line(file)
        &&& fields_single_line(self.fields)
    }
}

/// One event, one line: the line of an event holds no line feed unless a
/// part of the event brought one.
pub proof fn lemma_line_is_one_line(event: EventView)
    requires
        event.single_line(),
    ensures
        single_line(event.rendered()),
{
    lemma_level_name_single_line(event.level);
    lemma_joined_single_line(event.fields);
    match (event.file, event.line) {
        (Some(file), Some(line)) => {
            lemma_decimal_is_digits(line as nat);
        },
        _ => {},
    }
}

} // verus!
