//! Comments, whitespace and line ends.

use vstd::prelude::*;
use crate::bytes::copy_range;
use crate::config::parse::{found, within, Comment, Event, Parsed};
use crate::config::parse::chars::{skip, Class, CR, HASH, LF, SEMICOLON};
use crate::config::parse::grammar::{
    comment_at, filler_at, leading, lemma_followed_by_groups, lemma_followed_by_nothing,
    line_end_len, line_ends, newlines_at, spaces_at,
};

verus! {

/// The comment at `pos`, if one starts there.
pub fn comment(input: &[u8], pos: usize) -> (r: Option<Parsed>)
    requires
        pos <= input.len(),
    ensures
        found(r) == comment_at(input@, pos as int),
        r matches Some(parsed) ==> pos < parsed.end && within(parsed@, input@, pos as int),
{
    if pos < input.len() && (input[pos] == SEMICOLON || input[pos] == HASH) {
        let end = skip(input, pos + 1, Class::Line);
        let text = copy_range(input, pos + 1, end);
        Some(Parsed::single(Event::Comment(Comment { tag: input[pos], text }), end))
    } else {
        None
    }
}

/// The spaces and tabs at `pos`, if there are any.
pub fn take_spaces1(input: &[u8], pos: usize) -> (r: Option<Parsed>)
    requires
        pos <= input.len(),
    ensures
        found(r) == spaces_at(input@, pos as int),
        r matches Some(parsed) ==> pos < parsed.end && within(parsed@, input@, pos as int),
{
    let end = skip(input, pos, Class::Space);
    if end > pos {
        Some(Parsed::single(Event::Whitespace(copy_range(input, pos, end)), end))
    } else {
        None
    }
}

/// The line ends at `pos`, if there are any, and their number.
pub fn take_newlines1(input: &[u8], pos: usize) -> (r: Option<Parsed>)
    requires
        pos <= input.len(),
    ensures
        found(r) == newlines_at(input@, pos as int),
        r matches Some(parsed) ==> pos < parsed.end && within(parsed@, input@, pos as int),
{
    let mut end: usize = pos;
    let mut count: usize = 0;
    let mut more = true;
    while more
        invariant
            pos <= end <= input.len(),
            count <= end - pos,
            count == 0 ==> end == pos,
            line_ends(input@, pos as int) == (
                line_ends(input@, end as int).0,
                line_ends(input@, end as int).1 + count as nat,
            ),
            !more ==> line_end_len(input@, end as int) == 0,
        decreases input.len() - end + (if more { 1int } else { 0int }),
    {
        if end < input.len() && input.len() - end >= 2 && input[end] == CR && input[end + 1] == LF {
            end += 2;
            count += 1;
        } else if end < input.len() && input[end] == LF {
            end += 1;
            count += 1;
        } else {
            more = false;
        }
    }
    if count > 0 {
        let mut parsed = Parsed::single(Event::Newline(copy_range(input, pos, end)), end);
        parsed.newlines = count;
        Some(parsed)
    } else {
        None
    }
}

/// A comment, whitespace or line ends at `pos`, whichever is there.
fn filler(input: &[u8], pos: usize) -> (r: Option<Parsed>)
    requires
        pos <= input.len(),
    ensures
        found(r) == filler_at(input@, pos as int),
        r matches Some(parsed) ==> pos < parsed.end && within(parsed@, input@, pos as int),
{
    match comment(input, pos) {
        Some(parsed) => Some(parsed),
        None => match take_spaces1(input, pos) {
            Some(parsed) => Some(parsed),
            None => take_newlines1(input, pos),
        },
    }
}

/// Everything from `pos` on that may stand before the first section.
pub fn take_leading(input: &[u8], pos: usize) -> (r: Parsed)
    requires
        pos <= input.len(),
    ensures
        r@ == leading(input@, pos as int),
        within(r@, input@, pos as int),
{
    let mut all = Parsed::nothing(pos);
    let mut more = true;
    while more
        invariant
            pos <= all.end <= input.len(),
            within(all@, input@, pos as int),
            leading(input@, pos as int) == all@.followed_by(leading(input@, all.end as int)),
            !more ==> filler_at(input@, all.end as int) is None,
        decreases input.len() - all.end + (if more { 1int } else { 0int }),
    {
        match filler(input, all.end) {
            Some(parsed) => {
                proof {
                    lemma_followed_by_groups(all@, parsed@, leading(input@, parsed.end as int));
                }
                all.extend(parsed);
            },
            None => {
                more = false;
            },
        }
    }
    proof {
        lemma_followed_by_nothing(all@, pos as int);
    }
    all
}

} // verus!
