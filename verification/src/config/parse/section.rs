//! Keys with their values, and the sections that hold them.

use vstd::prelude::*;
use crate::bytes::copy_range;
use crate::config::parse::{found, within, Event, Parsed};
use crate::config::parse::chars::{is_letter, skip, Class, EQUALS};
use crate::config::parse::grammar::{
    assignment_at, body_at, body_round, key_end, key_value_at, lemma_followed_by_groups,
    lemma_followed_by_nothing, optional, section_at, sections_at, Piece,
};
use crate::config::parse::header::section_header;
use crate::config::parse::lexical::{comment, take_newlines1, take_spaces1};
use crate::config::parse::value::value_impl;

verus! {

/// Where the key at `pos` ends, if one starts there.
pub fn config_name(input: &[u8], pos: usize) -> (r: Option<usize>)
    requires
        pos <= input.len(),
    ensures
        key_end(input@, pos as int) == (match r {
            Some(end) => Some(end as int),
            None => None,
        }),
        r matches Some(end) ==> pos < end <= input.len(),
{
    if pos < input.len() && is_letter(input[pos]) {
        Some(skip(input, pos + 1, Class::Key))
    } else {
        None
    }
}

/// What follows a key at `pos`: `=` and the value, or an empty value where
/// no `=` stands.
pub fn config_value(input: &[u8], pos: usize) -> (r: Option<Parsed>)
    requires
        pos <= input.len(),
    ensures
        found(r) == assignment_at(input@, pos as int),
        r matches Some(parsed) ==> within(parsed@, input@, pos as int),
{
    if pos < input.len() && input[pos] == EQUALS {
        let mut all = Parsed::single(Event::KeyValueSeparator, pos + 1);
        all.extend_optional(take_spaces1(input, pos + 1));
        match value_impl(input, all.end) {
            Some(value) => {
                all.extend(value);
                Some(all)
            },
            None => None,
        }
    } else {
        Some(Parsed::single(Event::Value(Vec::new()), pos))
    }
}

/// The key at `pos` with what follows it, if a key starts there and its
/// value is well-formed.
pub fn key_value_pair(input: &[u8], pos: usize) -> (r: Option<Parsed>)
    requires
        pos <= input.len(),
    ensures
        found(r) == key_value_at(input@, pos as int),
        r matches Some(parsed) ==> pos < parsed.end && within(parsed@, input@, pos as int),
{
    let end = match config_name(input, pos) {
        None => {
            return None;
        },
        Some(end) => end,
    };
    let mut all = Parsed::single(Event::SectionKey(copy_range(input, pos, end)), end);
    all.extend_optional(take_spaces1(input, end));
    match config_value(input, all.end) {
        Some(value) => {
            all.extend(value);
            Some(all)
        },
        None => None,
    }
}

/// One round through the body of a section.
fn round(input: &[u8], pos: usize) -> (r: Parsed)
    requires
        pos <= input.len(),
    ensures
        r@ == body_round(input@, pos as int),
        within(r@, input@, pos as int),
{
    let mut all = Parsed::nothing(pos);
    let space = take_spaces1(input, pos);
    proof {
        lemma_followed_by_nothing(optional(found(space), pos as int), pos as int);
    }
    all.extend_optional(space);
    all.extend_optional(take_newlines1(input, all.end));
    all.extend_optional(key_value_pair(input, all.end));
    all.extend_optional(comment(input, all.end));
    all
}

/// The body of a section from `pos` on.
fn body(input: &[u8], pos: usize) -> (r: Parsed)
    requires
        pos <= input.len(),
    ensures
        r@ == body_at(input@, pos as int),
        within(r@, input@, pos as int),
{
    let mut all = Parsed::nothing(pos);
    let mut more = true;
    proof {
        lemma_followed_by_nothing(body_at(input@, pos as int), pos as int);
    }
    while more
        invariant
            pos <= all.end <= input.len(),
            within(all@, input@, pos as int),
            body_at(input@, pos as int) == all@.followed_by(body_at(input@, all.end as int)),
            !more ==> body_at(input@, all.end as int) == Piece::nothing(all.end as int),
        decreases input.len() - all.end + (if more { 1int } else { 0int }),
    {
        let next = round(input, all.end);
        if next.end > all.end {
            proof {
                lemma_followed_by_groups(all@, next@, body_at(input@, next.end as int));
            }
            all.extend(next);
        } else {
            more = false;
        }
    }
    proof {
        lemma_followed_by_nothing(all@, pos as int);
    }
    all
}

/// The section at `pos`, if a header stands there.
pub fn section(input: &[u8], pos: usize) -> (r: Option<Parsed>)
    requires
        pos <= input.len(),
    ensures
        found(r) == section_at(input@, pos as int),
        r matches Some(parsed) ==> pos < parsed.end && within(parsed@, input@, pos as int),
{
    match section_header(input, pos) {
        None => None,
        Some((header, end)) => {
            let mut all = Parsed::single(Event::SectionHeader(header), end);
            all.extend(body(input, end));
            Some(all)
        },
    }
}

/// The sections that follow each other from `pos` on.
pub fn take_sections(input: &[u8], pos: usize) -> (r: Parsed)
    requires
        pos <= input.len(),
    ensures
        r@ == sections_at(input@, pos as int),
        within(r@, input@, pos as int),
{
    let mut all = Parsed::nothing(pos);
    let mut more = true;
    proof {
        lemma_followed_by_nothing(sections_at(input@, pos as int), pos as int);
    }
    while more
        invariant
            pos <= all.end <= input.len(),
            within(all@, input@, pos as int),
            sections_at(input@, pos as int) == all@.followed_by(
                sections_at(input@, all.end as int),
            ),
            !more ==> sections_at(input@, all.end as int) == Piece::nothing(all.end as int),
        decreases input.len() - all.end + (if more { 1int } else { 0int }),
    {
        match section(input, all.end) {
            Some(next) => {
                proof {
                    lemma_followed_by_groups(all@, next@, sections_at(input@, next.end as int));
                }
                all.extend(next);
            },
            None => {
                more = false;
            },
        }
    }
    proof {
        lemma_followed_by_nothing(all@, pos as int);
    }
    all
}

} // verus!
