//! Byte-order marks.

use vstd::prelude::*;

verus! {

/// Whether `s` starts with the three bytes.
pub open spec fn starts_with3(s: Seq<u8>, a: u8, b: u8, c: u8) -> bool {
    s.len() >= 3 && s[0] == a && s[1] == b && s[2] == c
}

/// Whether `s` starts with the four bytes.
pub open spec fn starts_with4(s: Seq<u8>, a: u8, b: u8, c: u8, d: u8) -> bool {
    s.len() >= 4 && s[0] == a && s[1] == b && s[2] == c && s[3] == d
}

/// The length of the byte-order mark that `s` starts with, 0 if it starts
/// with none.
///
/// Four bytes mark UTF-32 in either byte order, GB 18030, UTF-EBCDIC and
/// UTF-7; three mark SCSU, UTF-8, UTF-1 and BOCU-1; two mark UTF-16 in
/// either byte order.
pub open spec fn bom_len(s: Seq<u8>) -> nat {
    if starts_with4(s, 0x00, 0x00, 0xfe, 0xff) || starts_with4(s, 0xff, 0xfe, 0x00, 0x00)
        || starts_with4(s, 0x84, 0x31, 0x95, 0x33) || starts_with4(s, 0xdd, 0x73, 0x66, 0x73) || (
    starts_with3(s, 0x2b, 0x2f, 0x76) && s.len() >= 4 && (s[3] == 0x38 || s[3] == 0x39 || s[3]
        == 0x2b || s[3] == 0x2f)) {
        4
    } else if starts_with3(s, 0x0e, 0xfe, 0xff) || starts_with3(s, 0xef, 0xbb, 0xbf)
        || starts_with3(s, 0xf7, 0x64, 0x4c) || starts_with3(s, 0xfb, 0xee, 0x28) {
        3
    } else if s.len() >= 2 && ((s[0] == 0xfe && s[1] == 0xff) || (s[0] == 0xff && s[1] == 0xfe)) {
        2
    } else {
        0
    }
}

/// The length of the byte-order mark that `input` starts with.
///
/// Calls `unicode_bom::Bom::from` on the bytes and `Bom::len` on the mark
/// it detects. States which mark the former detects for which first bytes,
/// and the length the latter gives for it; without a mark the length is 0.
#[verifier::external_body]
pub(crate) fn bom_length(input: &[u8]) -> (r: usize)
    ensures
        r == bom_len(input@),
{
    unicode_bom::Bom::from(input).len()
}

} // verus!
