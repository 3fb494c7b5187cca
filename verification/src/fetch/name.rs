//! Full reference names and the namespaces they fall under.

use vstd::prelude::*;
use crate::bytes::{bytes_eq, has_prefix, starts_with};

verus! {

/// The complete name of a reference, such as `refs/heads/main`. Its view is
/// the sequence of its bytes.
#[derive(Debug, Clone, PartialEq, Eq)]
pub struct FullName {
    pub bytes: Vec<u8>,
}

impl View for FullName {
    type V = Seq<u8>;

    open spec fn view(&self) -> Seq<u8> {
        self.bytes@
    }
}

/// The namespaces that decide how a reference is treated when it is stored.
#[derive(Debug, Clone, Copy, PartialEq, Eq, Structural)]
pub enum Category {
    /// Below `refs/tags/`.
    Tag,
    /// Below `refs/heads/`.
    LocalBranch,
}

/// The bytes of `refs/tags/`.
pub open spec fn tag_namespace() -> Seq<u8> {
    seq![
        'r' as u8, 'e' as u8, 'f' as u8, 's' as u8, '/' as u8,
        't' as u8, 'a' as u8, 'g' as u8, 's' as u8, '/' as u8,
    ]
}

/// The bytes of `refs/heads/`.
pub open spec fn branch_namespace() -> Seq<u8> {
    seq![
        'r' as u8, 'e' as u8, 'f' as u8, 's' as u8, '/' as u8,
        'h' as u8, 'e' as u8, 'a' as u8, 'd' as u8, 's' as u8, '/' as u8,
    ]
}

/// Whether `name` lies in the tag namespace.
pub open spec fn is_tag_name(name: Seq<u8>) -> bool {
    has_prefix(name, tag_namespace())
}

/// The namespace of `name`, if it is one of those in `Category`.
pub open spec fn category_of(name: Seq<u8>) -> Option<Category> {
    if has_prefix(name, tag_namespace()) {
        Some(Category::Tag)
    } else if has_prefix(name, branch_namespace()) {
        Some(Category::LocalBranch)
    } else {
        None
    }
}

impl FullName {
    /// A name made of a copy of `bytes`.
    pub fn from_bytes(bytes: &[u8]) -> (r: FullName)
        ensures
            r@ == bytes@,
    {
        FullName { bytes: crate::bytes::copy_range(bytes, 0, bytes.len()) }
    }

    /// The bytes of the name.
    pub fn as_slice(&self) -> (r: &[u8])
        ensures
            r@ == self@,
    {
        self.bytes.as_slice()
    }

    /// Whether both names are spelled the same.
    pub fn same_as(&self, other: &FullName) -> (r: bool)
        ensures
            r == (self@ == other@),
    {
        bytes_eq(self.bytes.as_slice(), other.bytes.as_slice())
    }

    /// An independent copy of this name.
    pub fn duplicate(&self) -> (r: FullName)
        ensures
            r@ == self@,
    {
        FullName { bytes: self.bytes.clone() }
    }

    /// The namespace this name falls under.
    pub fn category(&self) -> (r: Option<Category>)
        ensures
            r == category_of(self@),
    {
        let tags: [u8; 10] = [
            'r' as u8, 'e' as u8, 'f' as u8, 's' as u8, '/' as u8,
            't' as u8, 'a' as u8, 'g' as u8, 's' as u8, '/' as u8,
        ];
        let heads: [u8; 11] = [
            'r' as u8, 'e' as u8, 'f' as u8, 's' as u8, '/' as u8,
            'h' as u8, 'e' as u8, 'a' as u8, 'd' as u8, 's' as u8, '/' as u8,
        ];
        assert(tags@ =~= tag_namespace());
        assert(heads@ =~= branch_namespace());
        if starts_with(self.bytes.as_slice(), tags.as_slice()) {
            Some(Category::Tag)
        } else if starts_with(self.bytes.as_slice(), heads.as_slice()) {
            Some(Category::LocalBranch)
        } else {
            None
        }
    }

    /// Whether this name lies in the tag namespace.
    pub fn is_tag(&self) -> (r: bool)
        ensures
            r == is_tag_name(self@),
    {
        match self.category() {
            Some(Category::Tag) => true,
            _ => false,
        }
    }
}

} // verus!
