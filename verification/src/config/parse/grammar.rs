//! The grammar of configuration files, as functions on a sequence of bytes
//! and a position in it.

use vstd::prelude::*;
use crate::config::parse::{ErrorView, EventView, HeaderView, ParseNode};
use crate::config::parse::chars::{
    is_alphabetic, is_subsection_escapeable_char_spec, is_subsection_unescaped_char_spec,
    is_whitespace, run_end, Class, BACKSLASH, CLOSE, CR, DOT, EQUALS, HASH, LF, OPEN, QUOTE,
    SEMICOLON,
};

verus! {

/// The events read from a stretch of input, the position behind it, and the
/// number of line ends in it.
pub struct Piece {
    pub events: Seq<EventView>,
    pub end: int,
    pub newlines: nat,
}

impl Piece {
    /// The empty stretch at `pos`.
    pub open spec fn nothing(pos: int) -> Piece {
        Piece { events: Seq::empty(), end: pos, newlines: 0 }
    }

    /// A stretch of one event without line ends.
    pub open spec fn single(event: EventView, end: int) -> Piece {
        Piece { events: seq![event], end, newlines: 0 }
    }

    /// This stretch and `next`, which starts where this one ends, as one.
    pub open spec fn followed_by(self, next: Piece) -> Piece {
        Piece {
            events: self.events + next.events,
            end: next.end,
            newlines: self.newlines + next.newlines,
        }
    }
}

/// An empty stretch before or behind a stretch changes nothing.
pub proof fn lemma_followed_by_nothing(piece: Piece, pos: int)
    ensures
        piece.followed_by(Piece::nothing(piece.end)) == piece,
        Piece::nothing(pos).followed_by(piece) == piece,
{
    assert(piece.followed_by(Piece::nothing(piece.end)).events =~= piece.events);
    assert(Piece::nothing(pos).followed_by(piece).events =~= piece.events);
}

/// Three stretches in a row are one stretch, however they are grouped.
pub proof fn lemma_followed_by_groups(a: Piece, b: Piece, c: Piece)
    ensures
        a.followed_by(b).followed_by(c) == a.followed_by(b.followed_by(c)),
{
    assert(a.followed_by(b).followed_by(c).events =~= a.followed_by(b.followed_by(c)).events);
}

/// The piece if there is one, and else the empty stretch at `pos`.
pub open spec fn optional(piece: Option<Piece>, pos: int) -> Piece {
    match piece {
        Some(piece) => piece,
        None => Piece::nothing(pos),
    }
}

/// A comment at `pos`: a `;` or `#` and everything up to the end of the line.
pub open spec fn comment_at(s: Seq<u8>, pos: int) -> Option<Piece> {
    if 0 <= pos < s.len() && (s[pos] == SEMICOLON || s[pos] == HASH) {
        let end = run_end(s, pos + 1, Class::Line);
        Some(Piece::single(EventView::Comment { tag: s[pos], text: s.subrange(pos + 1, end) }, end))
    } else {
        None
    }
}

/// Spaces and tabs at `pos`, at least one.
pub open spec fn spaces_at(s: Seq<u8>, pos: int) -> Option<Piece> {
    let end = run_end(s, pos, Class::Space);
    if end > pos {
        Some(Piece::single(EventView::Whitespace(s.subrange(pos, end)), end))
    } else {
        None
    }
}

/// The length of the line end at `pos`: 2 for a carriage return and a line
/// feed, 1 for a line feed, 0 where no line ends.
pub open spec fn line_end_len(s: Seq<u8>, pos: int) -> int {
    if 0 <= pos && pos + 1 < s.len() && s[pos] == CR && s[pos + 1] == LF {
        2
    } else if 0 <= pos < s.len() && s[pos] == LF {
        1
    } else {
        0
    }
}

/// Where the line ends that follow each other from `pos` on stop, and how
/// many they are.
pub open spec fn line_ends(s: Seq<u8>, pos: int) -> (int, nat)
    decreases s.len() - pos,
{
    let n = line_end_len(s, pos);
    if n > 0 {
        let rest = line_ends(s, pos + n);
        (rest.0, rest.1 + 1)
    } else {
        (pos, 0)
    }
}

/// Line ends at `pos`, at least one.
pub open spec fn newlines_at(s: Seq<u8>, pos: int) -> Option<Piece> {
    let (end, count) = line_ends(s, pos);
    if count > 0 {
        Some(Piece { events: seq![EventView::Newline(s.subrange(pos, end))], end, newlines: count })
    } else {
        None
    }
}

/// What may stand before the first section: a comment, or else whitespace,
/// or else line ends.
pub open spec fn filler_at(s: Seq<u8>, pos: int) -> Option<Piece> {
    match comment_at(s, pos) {
        Some(piece) => Some(piece),
        None => match spaces_at(s, pos) {
            Some(piece) => Some(piece),
            None => newlines_at(s, pos),
        },
    }
}

/// Everything from `pos` on that may stand before the first section.
pub open spec fn leading(s: Seq<u8>, pos: int) -> Piece
    decreases s.len() - pos,
{
    match filler_at(s, pos) {
        Some(piece) => if pos < piece.end <= s.len() {
            piece.followed_by(leading(s, piece.end))
        } else {
            Piece::nothing(pos)
        },
        None => Piece::nothing(pos),
    }
}

/// The quoted subsection name at `pos`, free of escapes, and where it ends:
/// each byte stands for itself, but a backslash stands for the byte behind
/// it. A quote, a line feed, a zero byte and the end of the input end the name.
pub open spec fn subsection_at(s: Seq<u8>, pos: int) -> (Seq<u8>, int)
    decreases s.len() - pos,
{
    if 0 <= pos < s.len() && is_subsection_unescaped_char_spec(s[pos]) {
        let rest = subsection_at(s, pos + 1);
        (seq![s[pos]] + rest.0, rest.1)
    } else if 0 <= pos && pos + 1 < s.len() && s[pos] == BACKSLASH
        && is_subsection_escapeable_char_spec(s[pos + 1]) {
        let rest = subsection_at(s, pos + 2);
        (seq![s[pos + 1]] + rest.0, rest.1)
    } else {
        (Seq::empty(), pos)
    }
}

/// The position of the last `b` in `s`.
pub open spec fn last_index_of(s: Seq<u8>, b: u8) -> Option<int>
    decreases s.len(),
{
    if s.len() == 0 {
        None
    } else if s.last() == b {
        Some(s.len() - 1)
    } else {
        last_index_of(s.drop_last(), b)
    }
}

/// The header written as `[name]` or `[name.subsection]`, given what stands
/// between the brackets: the last dot separates the subsection, and the
/// name before it must not be empty.
pub open spec fn plain_header(inner: Seq<u8>) -> Option<HeaderView> {
    match last_index_of(inner, DOT) {
        Some(dot) => if dot == 0 {
            None
        } else {
            Some(
                HeaderView {
                    name: inner.subrange(0, dot),
                    separator: Some(inner.subrange(dot, dot + 1)),
                    subsection_name: Some(inner.subrange(dot + 1, inner.len() as int)),
                },
            )
        },
        None => if inner.len() == 0 {
            None
        } else {
            Some(HeaderView { name: inner, separator: None, subsection_name: None })
        },
    }
}

/// The section header at `pos` and where it ends: `[name]`,
/// `[name.subsection]` or `[name "subsection"]`.
pub open spec fn header_at(s: Seq<u8>, pos: int) -> Option<(HeaderView, int)> {
    if !(0 <= pos < s.len() && s[pos] == OPEN) {
        None
    } else {
        let name_end = run_end(s, pos + 1, Class::Section);
        if name_end == pos + 1 {
            None
        } else if name_end < s.len() && s[name_end] == CLOSE {
            match plain_header(s.subrange(pos + 1, name_end)) {
                Some(header) => Some((header, name_end + 1)),
                None => None,
            }
        } else {
            let quote = run_end(s, name_end, Class::Space);
            if quote == name_end || !(quote < s.len() && s[quote] == QUOTE) {
                None
            } else {
                let (subsection, end) = subsection_at(s, quote + 1);
                if end + 1 < s.len() && s[end] == QUOTE && s[end + 1] == CLOSE {
                    Some(
                        (
                            HeaderView {
                                name: s.subrange(pos + 1, name_end),
                                separator: Some(s.subrange(name_end, quote)),
                                subsection_name: Some(subsection),
                            },
                            end + 2,
                        ),
                    )
                } else {
                    None
                }
            }
        }
    }
}

/// Where the key at `pos` ends: a letter, then letters, digits and hyphens.
pub open spec fn key_end(s: Seq<u8>, pos: int) -> Option<int> {
    if 0 <= pos < s.len() && is_alphabetic(s[pos]) {
        Some(run_end(s, pos + 1, Class::Key))
    } else {
        None
    }
}

/// What the scan of a value has found so far.
pub struct ValueState {
    /// The events of the lines that ended in a backslash.
    pub events: Seq<EventView>,
    /// Where the current line of the value starts.
    pub start: int,
    /// Whether a quote is open.
    pub in_quotes: bool,
    /// Whether a line ended in a backslash.
    pub partial: bool,
    /// The number of such lines.
    pub newlines: nat,
}

/// Where `s` ends between `from` and `to` once whitespace at its end is dropped.
pub open spec fn trimmed_end(s: Seq<u8>, from: int, to: int) -> int
    decreases to - from,
{
    if from < to <= s.len() && is_whitespace(s[to - 1]) {
        trimmed_end(s, from, to - 1)
    } else {
        to
    }
}

/// The value that stops at `stop`: its last line without the whitespace at
/// its end, which is left unread. An open quote spoils the value.
pub open spec fn value_finish(s: Seq<u8>, state: ValueState, stop: int) -> Option<Piece> {
    if state.in_quotes {
        None
    } else {
        let end = trimmed_end(s, state.start, stop);
        let bytes = s.subrange(state.start, end);
        Some(
            Piece {
                events: state.events.push(
                    if state.partial {
                        EventView::ValueDone(bytes)
                    } else {
                        EventView::Value(bytes)
                    },
                ),
                end,
                newlines: state.newlines,
            },
        )
    }
}

/// The state after a line that ends in the backslash at `at`, where the
/// next line starts at `next`.
pub open spec fn continued(s: Seq<u8>, state: ValueState, at: int, next: int) -> ValueState {
    ValueState {
        events: state.events.push(EventView::ValueNotDone(s.subrange(state.start, at))).push(
            EventView::Newline(s.subrange(at + 1, next)),
        ),
        start: next,
        in_quotes: state.in_quotes,
        partial: true,
        newlines: state.newlines + 1,
    }
}

/// Whether `b` may follow a backslash inside a value: `n`, `t`, `b`, a
/// backslash or a quote.
pub open spec fn is_escaped_in_value(b: u8) -> bool {
    b == 110 || b == 116 || b == 98 || b == BACKSLASH || b == QUOTE
}

/// The value whose scan has come to `at` in `state`.
///
/// A line feed ends the value, and so does a `;` or `#` outside quotes. A
/// backslash before a line end continues the value on the next line. Any
/// other backslash must be followed by a byte it may escape.
pub open spec fn value_scan(s: Seq<u8>, at: int, state: ValueState) -> Option<Piece>
    decreases s.len() - at,
{
    if at < 0 {
        None
    } else if at >= s.len() {
        value_finish(s, state, s.len() as int)
    } else if s[at] == LF || ((s[at] == SEMICOLON || s[at] == HASH) && !state.in_quotes) {
        value_finish(s, state, at)
    } else if s[at] == BACKSLASH {
        if at + 1 >= s.len() {
            None
        } else if s[at + 1] == CR {
            if at + 2 < s.len() && s[at + 2] == LF {
                value_scan(s, at + 3, continued(s, state, at, at + 3))
            } else {
                None
            }
        } else if s[at + 1] == LF {
            value_scan(s, at + 2, continued(s, state, at, at + 2))
        } else if is_escaped_in_value(s[at + 1]) {
            value_scan(s, at + 2, state)
        } else {
            None
        }
    } else if s[at] == QUOTE {
        value_scan(s, at + 1, ValueState { in_quotes: !state.in_quotes, ..state })
    } else {
        value_scan(s, at + 1, state)
    }
}

/// The value at `pos`.
pub open spec fn value_at(s: Seq<u8>, pos: int) -> Option<Piece> {
    value_scan(
        s,
        pos,
        ValueState {
            events: Seq::empty(),
            start: pos,
            in_quotes: false,
            partial: false,
            newlines: 0,
        },
    )
}

/// What follows a key: `=`, whitespace if any, and the value; or nothing,
/// which stands for an empty value.
pub open spec fn assignment_at(s: Seq<u8>, pos: int) -> Option<Piece> {
    if 0 <= pos < s.len() && s[pos] == EQUALS {
        let separator = Piece::single(EventView::KeyValueSeparator, pos + 1);
        let space = optional(spaces_at(s, pos + 1), pos + 1);
        match value_at(s, space.end) {
            Some(value) => Some(separator.followed_by(space).followed_by(value)),
            None => None,
        }
    } else {
        Some(Piece::single(EventView::Value(Seq::empty()), pos))
    }
}

/// A key at `pos` with whitespace behind it, if any, and what follows a key.
pub open spec fn key_value_at(s: Seq<u8>, pos: int) -> Option<Piece> {
    match key_end(s, pos) {
        None => None,
        Some(end) => {
            let key = Piece::single(EventView::SectionKey(s.subrange(pos, end)), end);
            let space = optional(spaces_at(s, end), end);
            match assignment_at(s, space.end) {
                Some(value) => Some(key.followed_by(space).followed_by(value)),
                None => None,
            }
        },
    }
}

/// One round through the body of a section: whitespace, line ends, a key
/// with its value and a comment, in this order, each only if it is there.
pub open spec fn body_round(s: Seq<u8>, pos: int) -> Piece {
    let space = optional(spaces_at(s, pos), pos);
    let lines = optional(newlines_at(s, space.end), space.end);
    let pair = optional(key_value_at(s, lines.end), lines.end);
    let comment = optional(comment_at(s, pair.end), pair.end);
    space.followed_by(lines).followed_by(pair).followed_by(comment)
}

/// The body of a section from `pos` on: rounds until one reads nothing.
pub open spec fn body_at(s: Seq<u8>, pos: int) -> Piece
    decreases s.len() - pos,
{
    let round = body_round(s, pos);
    if pos < round.end <= s.len() {
        round.followed_by(body_at(s, round.end))
    } else {
        Piece::nothing(pos)
    }
}

/// The section at `pos`: its header and its body.
pub open spec fn section_at(s: Seq<u8>, pos: int) -> Option<Piece> {
    match header_at(s, pos) {
        None => None,
        Some((header, end)) => Some(
            Piece::single(EventView::SectionHeader(header), end).followed_by(body_at(s, end)),
        ),
    }
}

/// The sections that follow each other from `pos` on.
pub open spec fn sections_at(s: Seq<u8>, pos: int) -> Piece
    decreases s.len() - pos,
{
    match section_at(s, pos) {
        Some(section) => if pos < section.end <= s.len() {
            section.followed_by(sections_at(s, section.end))
        } else {
            Piece::nothing(pos)
        },
        None => Piece::nothing(pos),
    }
}

/// What the parser was reading when it stopped at `pos` behind a section: a
/// value if a key stands there, and else the name of a key.
pub open spec fn stopped_in(s: Seq<u8>, pos: int) -> ParseNode {
    if key_end(s, pos) is Some {
        ParseNode::Value
    } else {
        ParseNode::Name
    }
}

/// The error for giving up at `pos` after `lines` line ends.
pub open spec fn failure(s: Seq<u8>, pos: int, lines: nat, node: ParseNode) -> ErrorView {
    ErrorView {
        line_number: lines,
        last_attempted_parser: node,
        parsed_until: s.subrange(pos, s.len() as int),
    }
}

/// The events of the file `s` from `start` on, or the error if that is no
/// configuration file.
///
/// The file is what may stand before the first section and then, unless the
/// input ends there, one or more sections. It must be read to its end.
pub open spec fn events_spec(s: Seq<u8>, start: int) -> Result<Seq<EventView>, ErrorView> {
    let lead = leading(s, start);
    if lead.end == s.len() {
        Ok(lead.events)
    } else {
        match section_at(s, lead.end) {
            None => Err(failure(s, lead.end, lead.newlines, ParseNode::SectionHeader)),
            Some(first) => {
                let all = first.followed_by(sections_at(s, first.end));
                if all.end == s.len() {
                    Ok(lead.events + all.events)
                } else {
                    Err(
                        failure(
                            s,
                            all.end,
                            lead.newlines + all.newlines,
                            stopped_in(s, all.end),
                        ),
                    )
                }
            },
        }
    }
}

} // verus!
