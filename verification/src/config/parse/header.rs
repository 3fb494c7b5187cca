//! Section headers.

use vstd::prelude::*;
use vstd::slice::slice_subrange;
use crate::bytes::copy_range;
use crate::config::parse::{Header, HeaderView};
use crate::config::parse::chars::{
    is_subsection_escapeable_char, is_subsection_unescaped_char, skip, Class, BACKSLASH, CLOSE,
    DOT, OPEN, QUOTE,
};
use crate::config::parse::grammar::{header_at, last_index_of, plain_header, subsection_at};

verus! {

/// The position of the last `needle` in `haystack`.
///
/// Calls `memchr::memrchr` and states what its documentation says: the
/// result is the position of the last occurrence of the byte, and `None`
/// where the byte does not occur.
#[verifier::external_body]
fn memrchr(needle: u8, haystack: &[u8]) -> (r: Option<usize>)
    ensures
        match r {
            Some(i) => {
                &&& i < haystack@.len()
                &&& haystack@[i as int] == needle
                &&& forall|j: int| i < j < haystack@.len() ==> haystack@[j] != needle
            },
            None => forall|j: int| 0 <= j < haystack@.len() ==> haystack@[j] != needle,
        },
{
    memchr::memrchr(needle, haystack)
}

/// What `last_index_of` finds is the last occurrence, and it finds one if
/// there is any.
pub proof fn lemma_last_index_of(s: Seq<u8>, b: u8)
    ensures
        match last_index_of(s, b) {
            Some(i) => {
                &&& 0 <= i < s.len()
                &&& s[i] == b
                &&& forall|j: int| i < j < s.len() ==> s[j] != b
            },
            None => forall|j: int| 0 <= j < s.len() ==> s[j] != b,
        },
    decreases s.len(),
{
    if s.len() > 0 && s.last() != b {
        let front = s.drop_last();
        lemma_last_index_of(front, b);
        match last_index_of(front, b) {
            Some(i) => {
                assert forall|j: int| i < j < s.len() implies s[j] != b by {
                    if j < front.len() {
                        assert(front[j] == s[j]);
                    }
                }
                assert(front[i] == s[i]);
            },
            None => {
                assert forall|j: int| 0 <= j < s.len() implies s[j] != b by {
                    if j < front.len() {
                        assert(front[j] == s[j]);
                    }
                }
            },
        }
    }
}

/// The model of a header that may have been found.
pub open spec fn header_found(r: Option<(Header, usize)>) -> Option<(HeaderView, int)> {
    match r {
        Some((header, end)) => Some((header@, end as int)),
        None => None,
    }
}

/// The quoted subsection name at `pos`, free of escapes, and where it ends.
pub fn sub_section(input: &[u8], pos: usize) -> (r: (Vec<u8>, usize))
    requires
        pos <= input.len(),
    ensures
        (r.0@, r.1 as int) == subsection_at(input@, pos as int),
        pos <= r.1 <= input.len(),
{
    let mut name: Vec<u8> = Vec::new();
    let mut at: usize = pos;
    let mut more = true;
    while more
        invariant
            pos <= at <= input.len(),
            subsection_at(input@, pos as int) == (
                name@ + subsection_at(input@, at as int).0,
                subsection_at(input@, at as int).1,
            ),
            !more ==> subsection_at(input@, at as int) == (Seq::<u8>::empty(), at as int),
        decreases input.len() - at + (if more { 1int } else { 0int }),
    {
        let ghost before = name@;
        if at < input.len() && is_subsection_unescaped_char(input[at]) {
            name.push(input[at]);
            at += 1;
            assert(name@ + subsection_at(input@, at as int).0 =~= before + (seq![
                input@[at - 1],
            ] + subsection_at(input@, at as int).0));
        } else if at < input.len() && input.len() - at >= 2 && input[at] == BACKSLASH
            && is_subsection_escapeable_char(input[at + 1]) {
            name.push(input[at + 1]);
            at += 2;
            assert(name@ + subsection_at(input@, at as int).0 =~= before + (seq![
                input@[at - 1],
            ] + subsection_at(input@, at as int).0));
        } else {
            more = false;
        }
    }
    assert(name@ + Seq::<u8>::empty() =~= name@);
    (name, at)
}

/// The header that stands between brackets as `inner`, without quotes.
fn plain(inner: &[u8]) -> (r: Option<Header>)
    ensures
        plain_header(inner@) == (match r {
            Some(header) => Some(header@),
            None => None,
        }),
{
    proof {
        lemma_last_index_of(inner@, DOT);
    }
    match memrchr(DOT, inner) {
        Some(dot) => {
            assert(last_index_of(inner@, DOT) == Some(dot as int));
            assert(dot < inner.len());
            if dot == 0 {
                None
            } else {
                Some(
                    Header {
                        name: copy_range(inner, 0, dot),
                        separator: Some(copy_range(inner, dot, dot + 1)),
                        subsection_name: Some(copy_range(inner, dot + 1, inner.len())),
                    },
                )
            }
        },
        None => {
            assert(last_index_of(inner@, DOT) is None);
            if inner.len() == 0 {
                None
            } else {
                let name = copy_range(inner, 0, inner.len());
                assert(name@ =~= inner@);
                Some(Header { name, separator: None, subsection_name: None })
            }
        },
    }
}

/// The section header at `pos`, if one stands there, and where it ends.
pub fn section_header(input: &[u8], pos: usize) -> (r: Option<(Header, usize)>)
    requires
        pos <= input.len(),
    ensures
        header_found(r) == header_at(input@, pos as int),
        r matches Some((_, end)) ==> pos < end <= input.len(),
{
    if !(pos < input.len() && input[pos] == OPEN) {
        return None;
    }
    let name_end = skip(input, pos + 1, Class::Section);
    if name_end == pos + 1 {
        return None;
    }
    if name_end < input.len() && input[name_end] == CLOSE {
        let inner = slice_subrange(input, pos + 1, name_end);
        return match plain(inner) {
            Some(header) => Some((header, name_end + 1)),
            None => None,
        };
    }
    let quote = skip(input, name_end, Class::Space);
    if quote == name_end || !(quote < input.len() && input[quote] == QUOTE) {
        return None;
    }
    let (subsection, end) = sub_section(input, quote + 1);
    if end < input.len() && input.len() - end >= 2 && input[end] == QUOTE && input[end + 1]
        == CLOSE {
        Some(
            (
                Header {
                    name: copy_range(input, pos + 1, name_end),
                    separator: Some(copy_range(input, name_end, quote)),
                    subsection_name: Some(subsection),
                },
                end + 2,
            ),
        )
    } else {
        None
    }
}

} // verus!
