//! Values, on one line or continued over several.

use vstd::prelude::*;
use crate::bytes::{copy_range, lemma_views_push, views};
use crate::config::parse::{found, within, Event, EventView, Parsed};
use crate::config::parse::chars::{
    is_whitespace, BACKSLASH, CR, FF, HASH, LF, QUOTE, SEMICOLON, SPACE, TAB,
};
use crate::config::parse::grammar::{
    continued, is_escaped_in_value, trimmed_end, value_at, value_finish, value_scan, ValueState,
};

verus! {

/// What is trimmed off is whitespace, and no whitespace stands before it.
pub proof fn lemma_trimmed_end(s: Seq<u8>, from: int, to: int)
    requires
        0 <= from <= to <= s.len(),
    ensures
        from <= trimmed_end(s, from, to) <= to,
        forall|i: int| trimmed_end(s, from, to) <= i < to ==> is_whitespace(s[i]),
        trimmed_end(s, from, to) > from ==> !is_whitespace(s[trimmed_end(s, from, to) - 1]),
    decreases to - from,
{
    if from < to && is_whitespace(s[to - 1]) {
        lemma_trimmed_end(s, from, to - 1);
    }
}

/// Where `input` ends between `from` and `to` once whitespace at its end is dropped.
fn trim_end(input: &[u8], from: usize, to: usize) -> (end: usize)
    requires
        from <= to <= input.len(),
    ensures
        end == trimmed_end(input@, from as int, to as int),
        from <= end <= to,
        forall|i: int| end <= i < to ==> is_whitespace(input@[i]),
        end > from ==> !is_whitespace(input@[end - 1]),
{
    proof {
        lemma_trimmed_end(input@, from as int, to as int);
    }
    let mut end: usize = to;
    while end > from && is_blank(input[end - 1])
        invariant
            from <= end <= to <= input.len(),
            trimmed_end(input@, from as int, to as int) == trimmed_end(
                input@,
                from as int,
                end as int,
            ),
        decreases end - from,
    {
        end -= 1;
    }
    end
}

/// Whether `b` is ASCII whitespace.
fn is_blank(b: u8) -> (r: bool)
    ensures
        r == is_whitespace(b),
{
    b == SPACE || b == TAB || b == LF || b == FF || b == CR
}

/// Whether `b` may follow a backslash inside a value.
fn is_escaped(b: u8) -> (r: bool)
    ensures
        r == is_escaped_in_value(b),
{
    b == 110 || b == 116 || b == 98 || b == BACKSLASH || b == QUOTE
}

/// The value at `pos`, one event for each of its lines and each line end
/// between them. `None` if a quote stays open or a backslash escapes what
/// it cannot escape.
pub fn value_impl(input: &[u8], pos: usize) -> (r: Option<Parsed>)
    requires
        pos <= input.len(),
    ensures
        found(r) == value_at(input@, pos as int),
        r matches Some(parsed) ==> within(parsed@, input@, pos as int),
{
    let mut events: Vec<Event> = Vec::new();
    let mut start: usize = pos;
    let mut in_quotes = false;
    let mut partial = false;
    let mut newlines: usize = 0;
    let mut at: usize = pos;
    let mut stop: usize = input.len();
    let mut scanning = true;
    assert(views(events@) =~= Seq::<EventView>::empty());
    while scanning
        invariant
            pos <= start <= at <= input.len(),
            newlines <= start - pos,
            scanning ==> value_at(input@, pos as int) == value_scan(
                input@,
                at as int,
                ValueState {
                    events: views(events@),
                    start: start as int,
                    in_quotes,
                    partial,
                    newlines: newlines as nat,
                },
            ),
            !scanning ==> start <= stop <= input.len() && value_at(input@, pos as int)
                == value_finish(
                input@,
                ValueState {
                    events: views(events@),
                    start: start as int,
                    in_quotes,
                    partial,
                    newlines: newlines as nat,
                },
                stop as int,
            ),
        decreases input.len() - at + (if scanning { 1int } else { 0int }),
    {
        let ghost state = ValueState {
            events: views(events@),
            start: start as int,
            in_quotes,
            partial,
            newlines: newlines as nat,
        };
        if at >= input.len() {
            stop = input.len();
            scanning = false;
        } else {
            let c = input[at];
            if c == LF || ((c == SEMICOLON || c == HASH) && !in_quotes) {
                stop = at;
                scanning = false;
            } else if c == BACKSLASH {
                if input.len() - at < 2 {
                    return None;
                }
                let escaped = input[at + 1];
                let next: usize = if escaped == CR {
                    if input.len() - at >= 3 && input[at + 2] == LF {
                        at + 3
                    } else {
                        return None;
                    }
                } else if escaped == LF {
                    at + 2
                } else if is_escaped(escaped) {
                    at += 2;
                    continue ;
                } else {
                    return None;
                };
                let line = Event::ValueNotDone(copy_range(input, start, at));
                let line_end = Event::Newline(copy_range(input, at + 1, next));
                proof {
                    lemma_views_push(events@, line);
                    lemma_views_push(events@.push(line), line_end);
                    assert(views(events@.push(line).push(line_end)) == continued(
                        input@,
                        state,
                        at as int,
                        next as int,
                    ).events);
                }
                events.push(line);
                events.push(line_end);
                start = next;
                partial = true;
                newlines += 1;
                at = next;
            } else if c == QUOTE {
                in_quotes = !in_quotes;
                at += 1;
            } else {
                at += 1;
            }
        }
    }
    if in_quotes {
        return None;
    }
    let end = trim_end(input, start, stop);
    let bytes = copy_range(input, start, end);
    let last = if partial {
        Event::ValueDone(bytes)
    } else {
        Event::Value(bytes)
    };
    proof {
        lemma_views_push(events@, last);
    }
    events.push(last);
    Some(Parsed { events, end, newlines })
}

} // verus!
