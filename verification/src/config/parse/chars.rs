//! The bytes that have a meaning in a configuration file, and runs of them.

use vstd::prelude::*;

verus! {

/// A horizontal tab.
pub const TAB: u8 = 9;

/// A line feed, which ends a line.
pub const LF: u8 = 10;

/// A form feed.
pub const FF: u8 = 12;

/// A carriage return, which may stand before a line feed.
pub const CR: u8 = 13;

/// A space.
pub const SPACE: u8 = 32;

/// A double quote, `"`.
pub const QUOTE: u8 = 34;

/// A number sign, `#`, which starts a comment.
pub const HASH: u8 = 35;

/// A hyphen, `-`.
pub const HYPHEN: u8 = 45;

/// A dot, `.`.
pub const DOT: u8 = 46;

/// A semicolon, `;`, which starts a comment.
pub const SEMICOLON: u8 = 59;

/// An equals sign, `=`, which separates a key from its value.
pub const EQUALS: u8 = 61;

/// An opening bracket, `[`, which starts a section header.
pub const OPEN: u8 = 91;

/// A backslash, which escapes the byte behind it.
pub const BACKSLASH: u8 = 92;

/// A closing bracket, `]`, which ends a section header.
pub const CLOSE: u8 = 93;

/// Whether `b` is an ASCII letter.
pub open spec fn is_alphabetic(b: u8) -> bool {
    65 <= b <= 90 || 97 <= b <= 122
}

/// Whether `b` is an ASCII letter or digit.
pub open spec fn is_alphanumeric(b: u8) -> bool {
    is_alphabetic(b) || 48 <= b <= 57
}

/// Whether `b` is a space or a tab.
pub open spec fn is_space(b: u8) -> bool {
    b == SPACE || b == TAB
}

/// Whether `b` is ASCII whitespace: a space, a tab, a line feed, a form
/// feed or a carriage return.
pub open spec fn is_whitespace(b: u8) -> bool {
    b == SPACE || b == TAB || b == LF || b == FF || b == CR
}

/// Whether `b` may stand in the name of a section.
pub open spec fn is_section_char_spec(b: u8) -> bool {
    is_alphanumeric(b) || b == HYPHEN || b == DOT
}

/// Whether `b` may follow a backslash in a quoted subsection name.
pub open spec fn is_subsection_escapeable_char_spec(b: u8) -> bool {
    b != LF
}

/// Whether `b` may stand for itself in a quoted subsection name.
pub open spec fn is_subsection_unescaped_char_spec(b: u8) -> bool {
    b != QUOTE && b != BACKSLASH && b != LF && b != 0
}

/// Whether `b` may stand in a key behind its first letter.
pub open spec fn is_key_char(b: u8) -> bool {
    is_alphanumeric(b) || b == HYPHEN
}

/// Whether `b` is an ASCII letter.
pub fn is_letter(b: u8) -> (r: bool)
    ensures
        r == is_alphabetic(b),
{
    (65 <= b && b <= 90) || (97 <= b && b <= 122)
}

/// Whether `b` is an ASCII letter or digit.
pub fn is_letter_or_digit(b: u8) -> (r: bool)
    ensures
        r == is_alphanumeric(b),
{
    is_letter(b) || (48 <= b && b <= 57)
}

/// Whether `c` may stand in the name of a section.
#[verifier::when_used_as_spec(is_section_char_spec)]
pub fn is_section_char(c: u8) -> (r: bool)
    ensures
        r == is_section_char_spec(c),
{
    is_letter_or_digit(c) || c == HYPHEN || c == DOT
}

/// Whether `c` may follow a backslash in a quoted subsection name.
#[verifier::when_used_as_spec(is_subsection_escapeable_char_spec)]
pub fn is_subsection_escapeable_char(c: u8) -> (r: bool)
    ensures
        r == is_subsection_escapeable_char_spec(c),
{
    c != LF
}

/// Whether `c` may stand for itself in a quoted subsection name.
#[verifier::when_used_as_spec(is_subsection_unescaped_char_spec)]
pub fn is_subsection_unescaped_char(c: u8) -> (r: bool)
    ensures
        r == is_subsection_unescaped_char_spec(c),
{
    c != QUOTE && c != BACKSLASH && c != LF && c != 0
}

/// The kinds of bytes of which the grammar takes whole runs.
#[derive(Debug, Clone, Copy, PartialEq, Eq, Structural)]
pub enum Class {
    /// Spaces and tabs.
    Space,
    /// The bytes of a section name.
    Section,
    /// The bytes of a key behind its first.
    Key,
    /// Everything up to the end of the line.
    Line,
}

/// Whether `b` belongs to `class`.
pub open spec fn in_class(class: Class, b: u8) -> bool {
    match class {
        Class::Space => is_space(b),
        Class::Section => is_section_char_spec(b),
        Class::Key => is_key_char(b),
        Class::Line => b != LF,
    }
}

/// Where the run of bytes of `class` that starts at `pos` ends.
pub open spec fn run_end(s: Seq<u8>, pos: int, class: Class) -> int
    decreases s.len() - pos,
{
    if 0 <= pos < s.len() && in_class(class, s[pos]) {
        run_end(s, pos + 1, class)
    } else {
        pos
    }
}

/// A run ends in the input, holds bytes of its class only, and no byte of
/// its class follows it.
pub proof fn lemma_run_end(s: Seq<u8>, pos: int, class: Class)
    requires
        0 <= pos <= s.len(),
    ensures
        pos <= run_end(s, pos, class) <= s.len(),
        forall|i: int| pos <= i < run_end(s, pos, class) ==> in_class(class, s[i]),
        run_end(s, pos, class) < s.len() ==> !in_class(class, s[run_end(s, pos, class)]),
    decreases s.len() - pos,
{
    if pos < s.len() && in_class(class, s[pos]) {
        lemma_run_end(s, pos + 1, class);
    }
}

/// Whether `b` belongs to `class`.
fn belongs(class: Class, b: u8) -> (r: bool)
    ensures
        r == in_class(class, b),
{
    match class {
        Class::Space => b == SPACE || b == TAB,
        Class::Section => is_section_char(b),
        Class::Key => is_letter_or_digit(b) || b == HYPHEN,
        Class::Line => b != LF,
    }
}

/// Where the run of bytes of `class` that starts at `pos` ends.
pub fn skip(input: &[u8], pos: usize, class: Class) -> (end: usize)
    requires
        pos <= input.len(),
    ensures
        end == run_end(input@, pos as int, class),
        pos <= end <= input.len(),
        forall|i: int| pos <= i < end ==> in_class(class, input@[i]),
        end < input.len() ==> !in_class(class, input@[end as int]),
{
    proof {
        lemma_run_end(input@, pos as int, class);
    }
    let mut end: usize = pos;
    while end < input.len() && belongs(class, input[end])
        invariant
            pos <= end <= input.len(),
            run_end(input@, pos as int, class) == run_end(input@, end as int, class),
        decreases input.len() - end,
    {
        end += 1;
    }
    end
}

} // verus!
