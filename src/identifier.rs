//! Identifiers as the marker log records them.
use vstd::prelude::*;

verus! {

/// A variable or field name.
#[derive(Debug, PartialEq, Eq)]
pub struct Ident {
    /// The name as written, or as generated.
    pub label: String,
    /// The name was introduced by a program transformation, not written by the user.
    pub generated: bool,
}

impl Ident {
    /// A name written by the user.
    pub fn new(label: String) -> (r: Ident)
        ensures
            r.label == label,
            !r.generated,
    {
        Ident { label, generated: false }
    }

    /// A name introduced by a program transformation.
    pub fn new_generated(label: String) -> (r: Ident)
        ensures
            r.label == label,
            r.generated,
    {
        Ident { label, generated: true }
    }

    /// Whether the name was introduced by a program transformation.
    pub fn is_generated(&self) -> (r: bool)
        ensures
            r == self.generated,
    {
        self.generated
    }
}

impl Clone for Ident {
    fn clone(&self) -> (r: Self)
        ensures
            r == *self,
    {
        Ident { label: self.label.clone(), generated: self.generated }
    }
}

/// How a variable was bound.
#[derive(Debug, Clone, Copy, PartialEq, Eq)]
pub enum IdentKind {
    /// Bound by a `let`.
    Let,
    /// Bound as a function parameter.
    Lambda,
    /// Bound as a field of a recursive record.
    Record,
}

} // verus!
