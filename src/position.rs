//! Source positions: spans in a file, and the tag that says where a position comes from.
use vstd::prelude::*;


verus! {

#[verifier::external_type_specification]
#[verifier::external_body]
pub struct ExFileId(codespan::FileId);

/// Relies on the `PartialEq` that codespan derives for `FileId`: two ids compare equal exactly
/// when they are the same id.
#[verifier::external_body]
pub(crate) fn same_file(a: &codespan::FileId, b: &codespan::FileId) -> (r: bool)
    ensures
        r == (*a == *b),
{
    *a == *b
}

/// A range of offsets in a source file.
#[derive(Clone, Copy, Debug, PartialEq, Eq)]
pub struct RawSpan {
    pub src_id: codespan::FileId,
    pub start: u32,
    pub end: u32,
}

/// Where a term's position comes from.
#[derive(Clone, Copy, Debug, PartialEq, Eq)]
pub enum TermPos {
    /// The term stands at this place in the source.
    Original(RawSpan),
    /// The term was copied from another one (e.g. through substitution) and took its position.
    Inherited(RawSpan),
    /// The term has no source attribution.
    Undefined,
}

/// `a` lies within `b`: it starts no earlier and ends no later.
pub open spec fn spec_contained_in(a: RawSpan, b: RawSpan) -> bool {
    a.start >= b.start && a.end <= b.end
}

impl RawSpan {
    /// Whether `self` lies within `other` (the order `self <= other` on spans).
    pub fn contained_in(&self, other: &RawSpan) -> (r: bool)
        ensures
            r == spec_contained_in(*self, *other),
    {
        self.start >= other.start && self.end <= other.end
    }

    /// Whether `self` lies within `other` and starts at the same offset.
    pub fn is_prefix_of(&self, other: &RawSpan) -> (r: bool)
        ensures
            r == (spec_contained_in(*self, *other) && self.start == other.start),
    {
        self.contained_in(other) && self.start == other.start
    }

    /// Whether the two spans are the same span of the same file.
    pub fn same_span(&self, other: &RawSpan) -> (r: bool)
        ensures
            r == (*self == *other),
    {
        same_file(&self.src_id, &other.src_id) && self.start == other.start && self.end == other.end
    }
}

impl TermPos {
    pub open spec fn spec_is_def(self) -> bool {
        !(self is Undefined)
    }

    /// Whether the position is defined (original or inherited).
    pub fn is_def(&self) -> (r: bool)
        ensures
            r == self.spec_is_def(),
    {
        match self {
            TermPos::Undefined => false,
            _ => true,
        }
    }
}

} // verus!
