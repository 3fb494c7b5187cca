//! Turning the bytes of a configuration file into events.
//!
//! A file is a sequence of comments, whitespace and line ends, followed by
//! sections. A section is a header in brackets and, behind it, keys with
//! their values among more comments, whitespace and line ends. Every piece
//! becomes an event that holds the bytes it was made of.

use vstd::prelude::*;
use crate::bytes::{copy_range, lemma_views_concat, views};
use crate::config::parse::bom::{bom_len, bom_length};
use crate::config::parse::grammar::{
    events_spec, lemma_followed_by_nothing, optional, stopped_in, Piece,
};
use crate::config::parse::lexical::take_leading;
use crate::config::parse::section::{config_name, section, take_sections};

pub mod bom;
pub mod chars;
pub mod grammar;
pub mod header;
pub mod lexical;
pub mod section;
pub mod value;

verus! {

/// A comment: the byte that starts it and the text up to the end of the line.
#[derive(Debug, Clone, PartialEq, Eq)]
pub struct Comment {
    /// `;` or `#`.
    pub tag: u8,
    /// What follows the tag on its line.
    pub text: Vec<u8>,
}

/// The header of a section.
#[derive(Debug, Clone, PartialEq, Eq)]
pub struct Header {
    /// The name of the section.
    pub name: Vec<u8>,
    /// What stands between the name and the subsection: a dot, or whitespace
    /// where the subsection is quoted.
    pub separator: Option<Vec<u8>>,
    /// The name of the subsection, without quotes and escapes.
    pub subsection_name: Option<Vec<u8>>,
}

/// The model of a `Header`.
pub struct HeaderView {
    pub name: Seq<u8>,
    pub separator: Option<Seq<u8>>,
    pub subsection_name: Option<Seq<u8>>,
}

/// The bytes of `bytes`, if there are any.
pub open spec fn optional_bytes(bytes: Option<Vec<u8>>) -> Option<Seq<u8>> {
    match bytes {
        Some(bytes) => Some(bytes@),
        None => None,
    }
}

impl View for Header {
    type V = HeaderView;

    open spec fn view(&self) -> HeaderView {
        HeaderView {
            name: self.name@,
            separator: optional_bytes(self.separator),
            subsection_name: optional_bytes(self.subsection_name),
        }
    }
}

/// A piece of a configuration file.
#[derive(Debug, Clone, PartialEq, Eq)]
pub enum Event {
    /// A comment up to the end of its line.
    Comment(Comment),
    /// The header that opens a section.
    SectionHeader(Header),
    /// The name of a key.
    SectionKey(Vec<u8>),
    /// A value that stands on one line, as it is written.
    Value(Vec<u8>),
    /// One or more line ends.
    Newline(Vec<u8>),
    /// The part of a value before a backslash at the end of a line.
    ValueNotDone(Vec<u8>),
    /// The last part of a value that spans several lines.
    ValueDone(Vec<u8>),
    /// Spaces and tabs.
    Whitespace(Vec<u8>),
    /// The `=` between a key and its value.
    KeyValueSeparator,
}

/// The model of an `Event`.
pub enum EventView {
    Comment { tag: u8, text: Seq<u8> },
    SectionHeader(HeaderView),
    SectionKey(Seq<u8>),
    Value(Seq<u8>),
    Newline(Seq<u8>),
    ValueNotDone(Seq<u8>),
    ValueDone(Seq<u8>),
    Whitespace(Seq<u8>),
    KeyValueSeparator,
}

impl View for Event {
    type V = EventView;

    open spec fn view(&self) -> EventView {
        match self {
            Event::Comment(comment) => EventView::Comment {
                tag: comment.tag,
                text: comment.text@,
            },
            Event::SectionHeader(header) => EventView::SectionHeader(header@),
            Event::SectionKey(name) => EventView::SectionKey(name@),
            Event::Value(bytes) => EventView::Value(bytes@),
            Event::Newline(bytes) => EventView::Newline(bytes@),
            Event::ValueNotDone(bytes) => EventView::ValueNotDone(bytes@),
            Event::ValueDone(bytes) => EventView::ValueDone(bytes@),
            Event::Whitespace(bytes) => EventView::Whitespace(bytes@),
            Event::KeyValueSeparator => EventView::KeyValueSeparator,
        }
    }
}

/// What the parser was reading when it gave up.
#[derive(Debug, Clone, Copy, PartialEq, Eq, Structural)]
pub enum ParseNode {
    /// The header of a section.
    SectionHeader,
    /// The name of a key.
    Name,
    /// The value of a key.
    Value,
}

/// Why a file could not be parsed.
#[derive(Debug, Clone, PartialEq, Eq)]
pub struct Error {
    /// The number of line ends before the place where the parser gave up,
    /// those inside an unfinished value not counted.
    pub line_number: usize,
    /// What the parser was reading there.
    pub last_attempted_parser: ParseNode,
    /// The input from that place on.
    pub parsed_until: Vec<u8>,
}

/// The model of an `Error`.
pub struct ErrorView {
    pub line_number: nat,
    pub last_attempted_parser: ParseNode,
    pub parsed_until: Seq<u8>,
}

impl View for Error {
    type V = ErrorView;

    open spec fn view(&self) -> ErrorView {
        ErrorView {
            line_number: self.line_number as nat,
            last_attempted_parser: self.last_attempted_parser,
            parsed_until: self.parsed_until@,
        }
    }
}

/// The events of a stretch of input, where it ends, and the line ends in it.
#[derive(Debug, Clone, PartialEq, Eq)]
pub struct Parsed {
    pub events: Vec<Event>,
    pub end: usize,
    pub newlines: usize,
}

impl View for Parsed {
    type V = grammar::Piece;

    open spec fn view(&self) -> grammar::Piece {
        grammar::Piece {
            events: views(self.events@),
            end: self.end as int,
            newlines: self.newlines as nat,
        }
    }
}

/// The model of a stretch that may have been found.
pub open spec fn found(r: Option<Parsed>) -> Option<Piece> {
    match r {
        Some(parsed) => Some(parsed@),
        None => None,
    }
}

/// Whether `piece` starts at `pos`, ends in `s` and has no more line ends
/// than bytes.
pub open spec fn within(piece: Piece, s: Seq<u8>, pos: int) -> bool {
    pos <= piece.end <= s.len() && piece.newlines <= piece.end - pos
}

impl Parsed {
    /// The empty stretch at `pos`.
    pub fn nothing(pos: usize) -> (r: Parsed)
        ensures
            r@ == Piece::nothing(pos as int),
    {
        let r = Parsed { events: Vec::new(), end: pos, newlines: 0 };
        assert(views(r.events@) =~= Seq::<EventView>::empty());
        r
    }

    /// A stretch of one event without line ends.
    pub fn single(event: Event, end: usize) -> (r: Parsed)
        ensures
            r@ == Piece::single(event@, end as int),
    {
        let mut events: Vec<Event> = Vec::new();
        events.push(event);
        let r = Parsed { events, end, newlines: 0 };
        assert(views(r.events@) =~= seq![event@]);
        r
    }

    /// Lets `next` follow this stretch if there is one.
    pub fn extend_optional(&mut self, next: Option<Parsed>)
        requires
            next matches Some(parsed) ==> old(self).newlines + parsed.newlines <= usize::MAX,
        ensures
            final(self)@ == old(self)@.followed_by(optional(found(next), old(self).end as int)),
    {
        proof {
            lemma_followed_by_nothing(self@, 0);
        }
        match next {
            Some(parsed) => self.extend(parsed),
            None => {},
        }
    }

    /// Lets `next`, which starts where this stretch ends, follow it.
    pub fn extend(&mut self, next: Parsed)
        requires
            old(self).newlines + next.newlines <= usize::MAX,
        ensures
            final(self)@ == old(self)@.followed_by(next@),
    {
        let mut next = next;
        proof {
            lemma_views_concat(self.events@, next.events@);
        }
        self.events.append(&mut next.events);
        self.end = next.end;
        self.newlines = self.newlines + next.newlines;
    }
}

/// The model of what parsing a file returns.
pub open spec fn outcome(r: Result<Vec<Event>, Error>) -> Result<Seq<EventView>, ErrorView> {
    match r {
        Ok(events) => Ok(views(events@)),
        Err(e) => Err(e@),
    }
}

/// The events of the configuration file that `input` holds from `start`
/// on, or the place where it stops being one.
pub fn events_from(input: &[u8], start: usize) -> (r: Result<Vec<Event>, Error>)
    requires
        start <= input.len(),
    ensures
        outcome(r) == events_spec(input@, start as int),
        r matches Err(e) ==> exists|at: int|
            {
                &&& start <= at < input.len()
                &&& e.parsed_until@ == #[trigger] input@.subrange(at, input.len() as int)
                &&& e.line_number <= at - start
            },
{
    let lead = take_leading(input, start);
    if lead.end == input.len() {
        return Ok(lead.events);
    }
    let mut all = match section(input, lead.end) {
        None => {
            return Err(
                Error {
                    line_number: lead.newlines,
                    last_attempted_parser: ParseNode::SectionHeader,
                    parsed_until: copy_range(input, lead.end, input.len()),
                },
            );
        },
        Some(first) => first,
    };
    let rest = take_sections(input, all.end);
    all.extend(rest);
    if all.end == input.len() {
        let mut events = lead.events;
        proof {
            lemma_views_concat(events@, all.events@);
        }
        events.append(&mut all.events);
        Ok(events)
    } else {
        let node = match config_name(input, all.end) {
            Some(_) => ParseNode::Value,
            None => ParseNode::Name,
        };
        Err(
            Error {
                line_number: lead.newlines + all.newlines,
                last_attempted_parser: node,
                parsed_until: copy_range(input, all.end, input.len()),
            },
        )
    }
}

/// The events of the configuration file that `input` holds behind its
/// byte-order mark, if it has one, or the place where it stops being one.
pub fn from_bytes(input: &[u8]) -> (r: Result<Vec<Event>, Error>)
    ensures
        outcome(r) == events_spec(input@, bom_len(input@) as int),
        r matches Err(e) ==> exists|at: int|
            {
                &&& bom_len(input@) <= at < input.len()
                &&& e.parsed_until@ == #[trigger] input@.subrange(at, input.len() as int)
                &&& e.line_number <= at - bom_len(input@)
            },
{
    let start = bom_length(input);
    events_from(input, start)
}

} // verus!
