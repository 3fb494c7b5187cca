//! Object identifiers.

use vstd::prelude::*;
use crate::bytes::bytes_eq;

verus! {

/// The digest that names an object. Its view is the sequence of its bytes.
#[derive(Debug, Clone, PartialEq, Eq)]
pub struct ObjectId {
    pub bytes: Vec<u8>,
}

impl View for ObjectId {
    type V = Seq<u8>;

    open spec fn view(&self) -> Seq<u8> {
        self.bytes@
    }
}

/// The value of the hexadecimal digit `b`, in either case.
pub open spec fn hex_digit(b: u8) -> Option<int> {
    if 48 <= b <= 57 {
        Some(b - 48)
    } else if 97 <= b <= 102 {
        Some(b - 97 + 10)
    } else if 65 <= b <= 70 {
        Some(b - 65 + 10)
    } else {
        None
    }
}

/// Whether `hex` is made of hexadecimal digits only.
pub open spec fn is_hex(hex: Seq<u8>) -> bool {
    forall|i: int| 0 <= i < hex.len() ==> hex_digit(#[trigger] hex[i]) is Some
}

/// Whether `hex` spells a SHA-1 digest: 40 hexadecimal digits.
pub open spec fn is_sha1_hex(hex: Seq<u8>) -> bool {
    hex.len() == 40 && is_hex(hex)
}

/// The bytes that `hex` spells, two digits for each, the higher first.
pub open spec fn hex_decoded(hex: Seq<u8>) -> Seq<u8> {
    Seq::new(
        hex.len() / 2,
        |i: int| (16 * hex_digit(hex[2 * i])->0 + hex_digit(hex[2 * i + 1])->0) as u8,
    )
}

/// The digest that `hex` spells.
///
/// Calls `gix_hash::ObjectId::from_hex`. States that it accepts exactly 40
/// hexadecimal digits, in either case, and that the digest holds the byte
/// that each pair of digits spells.
#[verifier::external_body]
fn sha1_from_hex(hex: &[u8]) -> (r: Option<Vec<u8>>)
    ensures
        r is Some <==> is_sha1_hex(hex@),
        r matches Some(bytes) ==> bytes@ == hex_decoded(hex@),
{
    match gix_hash::ObjectId::from_hex(hex) {
        Ok(id) => Some(id.as_slice().to_vec()),
        Err(_) => None,
    }
}

/// Whether `b` is a hexadecimal digit.
fn is_hex_digit(b: u8) -> (r: bool)
    ensures
        r == hex_digit(b) is Some,
{
    (48 <= b && b <= 57) || (97 <= b && b <= 102) || (65 <= b && b <= 70)
}

/// Whether `hex` spells a SHA-1 digest.
pub fn is_sha1_hex_digest(hex: &[u8]) -> (r: bool)
    ensures
        r == is_sha1_hex(hex@),
{
    if hex.len() != 40 {
        return false;
    }
    let mut i: usize = 0;
    while i < hex.len()
        invariant
            i <= hex.len(),
            forall|k: int| 0 <= k < i ==> hex_digit(#[trigger] hex@[k]) is Some,
        decreases hex.len() - i,
    {
        if !is_hex_digit(hex[i]) {
            return false;
        }
        i += 1;
    }
    true
}

impl ObjectId {
    /// The identifier that `hex` spells, if it is 40 hexadecimal digits.
    pub fn from_hex(hex: &[u8]) -> (r: Option<ObjectId>)
        ensures
            r is Some <==> is_sha1_hex(hex@),
            r matches Some(id) ==> id@ == hex_decoded(hex@),
    {
        match sha1_from_hex(hex) {
            Some(bytes) => Some(ObjectId { bytes }),
            None => None,
        }
    }

    /// An identifier made of a copy of `bytes`.
    pub fn from_bytes(bytes: &[u8]) -> (r: ObjectId)
        ensures
            r@ == bytes@,
    {
        ObjectId { bytes: crate::bytes::copy_range(bytes, 0, bytes.len()) }
    }

    /// The bytes of the digest.
    pub fn as_slice(&self) -> (r: &[u8])
        ensures
            r@ == self@,
    {
        self.bytes.as_slice()
    }

    /// Whether both identifiers hold the same digest.
    pub fn same_as(&self, other: &ObjectId) -> (r: bool)
        ensures
            r == (self@ == other@),
    {
        bytes_eq(self.bytes.as_slice(), other.bytes.as_slice())
    }

    /// An independent copy of this identifier.
    pub fn duplicate(&self) -> (r: ObjectId)
        ensures
            r@ == self@,
    {
        ObjectId { bytes: self.bytes.clone() }
    }
}

} // verus!
