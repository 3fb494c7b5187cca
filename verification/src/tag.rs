//! Tag objects.

use vstd::prelude::*;
use vstd::slice::slice_to_vec;
use crate::hash::{hex_decoded, is_sha1_hex, is_sha1_hex_digest, ObjectId};

verus! {

/// The kinds of objects.
#[derive(Debug, Clone, Copy, PartialEq, Eq, Structural)]
pub enum Kind {
    Tree,
    Blob,
    Commit,
    Tag,
}

/// Whether an offset from UTC lies east or west.
#[derive(Debug, Clone, Copy, PartialEq, Eq, Structural)]
pub enum Sign {
    Plus,
    Minus,
}

/// A point in time as a signature records it.
#[derive(Debug, Clone, Copy, PartialEq, Eq, Structural)]
pub struct Time {
    /// Seconds since the Unix epoch.
    pub seconds: i64,
    /// The offset from UTC in seconds.
    pub offset: i32,
    /// The direction of the offset, which tells `-0000` from `+0000`.
    pub sign: Sign,
}

/// Who made something and when, borrowed from the object's bytes.
#[derive(Debug, Clone, Copy, PartialEq, Eq)]
pub struct SignatureRef<'a> {
    pub name: &'a [u8],
    pub email: &'a [u8],
    pub time: Time,
}

/// Who made something and when.
#[derive(Debug, Clone, PartialEq, Eq)]
pub struct Signature {
    pub name: Vec<u8>,
    pub email: Vec<u8>,
    pub time: Time,
}

/// The model of a signature, borrowed or owned.
pub struct SignatureView {
    pub name: Seq<u8>,
    pub email: Seq<u8>,
    pub time: Time,
}

impl<'a> View for SignatureRef<'a> {
    type V = SignatureView;

    open spec fn view(&self) -> SignatureView {
        SignatureView { name: self.name@, email: self.email@, time: self.time }
    }
}

impl View for Signature {
    type V = SignatureView;

    open spec fn view(&self) -> SignatureView {
        SignatureView { name: self.name@, email: self.email@, time: self.time }
    }
}

/// A tag object whose fields borrow from the bytes it was read from.
#[derive(Debug, Clone, Copy, PartialEq, Eq)]
pub struct TagRef<'a> {
    /// The identifier of the tagged object, in hexadecimal digits.
    pub target: &'a [u8],
    /// The kind of the tagged object.
    pub target_kind: Kind,
    /// The name of the tag.
    pub name: &'a [u8],
    /// Who made the tag.
    pub tagger: Option<SignatureRef<'a>>,
    /// The message that describes the tag.
    pub message: &'a [u8],
    /// A cryptographic signature over the rest of the tag.
    pub pgp_signature: Option<&'a [u8]>,
}

/// A tag object that owns its fields.
#[derive(Debug, Clone, PartialEq, Eq)]
pub struct Tag {
    /// The identifier of the tagged object.
    pub target: ObjectId,
    /// The kind of the tagged object.
    pub target_kind: Kind,
    /// The name of the tag.
    pub name: Vec<u8>,
    /// Who made the tag.
    pub tagger: Option<Signature>,
    /// The message that describes the tag.
    pub message: Vec<u8>,
    /// A cryptographic signature over the rest of the tag.
    pub pgp_signature: Option<Vec<u8>>,
}

/// The model of a `Tag`.
pub struct TagView {
    pub target: Seq<u8>,
    pub target_kind: Kind,
    pub name: Seq<u8>,
    pub tagger: Option<SignatureView>,
    pub message: Seq<u8>,
    pub pgp_signature: Option<Seq<u8>>,
}

impl View for Tag {
    type V = TagView;

    open spec fn view(&self) -> TagView {
        TagView {
            target: self.target@,
            target_kind: self.target_kind,
            name: self.name@,
            tagger: match self.tagger {
                Some(tagger) => Some(tagger@),
                None => None,
            },
            message: self.message@,
            pgp_signature: match self.pgp_signature {
                Some(signature) => Some(signature@),
                None => None,
            },
        }
    }
}

impl<'a> TagRef<'a> {
    /// Whether the target is spelled as an object identifier must be.
    pub open spec fn well_formed(&self) -> bool {
        is_sha1_hex(self.target@)
    }

    /// What this tag is once its target is decoded.
    pub open spec fn owned(&self) -> TagView {
        TagView {
            target: hex_decoded(self.target@),
            target_kind: self.target_kind,
            name: self.name@,
            tagger: match self.tagger {
                Some(tagger) => Some(tagger@),
                None => None,
            },
            message: self.message@,
            pgp_signature: match self.pgp_signature {
                Some(signature) => Some(signature@),
                None => None,
            },
        }
    }

    /// Whether the target is spelled as an object identifier must be.
    pub fn is_well_formed(&self) -> (r: bool)
        ensures
            r == self.well_formed(),
    {
        is_sha1_hex_digest(self.target)
    }

    /// The object this tag points to.
    pub fn target(&self) -> (r: ObjectId)
        requires
            self.well_formed(),
        ensures
            r@ == hex_decoded(self.target@),
    {
        match ObjectId::from_hex(self.target) {
            Some(id) => id,
            None => vstd::pervasive::unreached(),
        }
    }

    /// This tag with all its data copied into an instance that owns it.
    pub fn into_owned(self) -> (r: Tag)
        requires
            self.well_formed(),
        ensures
            r@ == self.owned(),
    {
        Tag {
            target: self.target(),
            target_kind: self.target_kind,
            name: slice_to_vec(self.name),
            tagger: match self.tagger {
                Some(tagger) => Some(
                    Signature {
                        name: slice_to_vec(tagger.name),
                        email: slice_to_vec(tagger.email),
                        time: tagger.time,
                    },
                ),
                None => None,
            },
            message: slice_to_vec(self.message),
            pgp_signature: match self.pgp_signature {
                Some(signature) => Some(slice_to_vec(signature)),
                None => None,
            },
        }
    }
}

} // verus!
