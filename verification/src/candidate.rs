//! One launchable project: a directory with its name, label and location.

use crate::normalize::{normalize, normalized};
use vstd::prelude::*;

verus! {

/// A launchable project. Its label is always the normalized form of its raw
/// name; nothing changes once it is built.
pub struct Candidate {
    raw_name: String,
    display_label: String,
    location: String,
}

impl Candidate {
    #[verifier::type_invariant]
    spec fn label_is_normalized_name(self) -> bool {
        self.display_label@ == normalized(self.raw_name@)
    }

    /// The entry name as the file system gave it.
    pub closed spec fn name(&self) -> Seq<char> {
        self.raw_name@
    }

    /// The human-readable label.
    pub closed spec fn label(&self) -> Seq<char> {
        self.display_label@
    }

    /// Where the tools are started.
    pub closed spec fn place(&self) -> Seq<char> {
        self.location@
    }

    /// Builds the candidate for the entry `raw_name` found at `location`.
    pub fn new(raw_name: String, location: String) -> (c: Candidate)
        ensures
            c.name() == raw_name@,
            c.place() == location@,
            c.label() == normalized(raw_name@),
    {
        let display_label = normalize(raw_name.as_str());
        Candidate { raw_name, display_label, location }
    }

    /// The entry name as the file system gave it.
    pub fn raw_name(&self) -> (r: &str)
        ensures
            r@ == self.name(),
    {
        self.raw_name.as_str()
    }

    /// The label, which is the normalized form of the raw name.
    pub fn display_label(&self) -> (r: &str)
        ensures
            r@ == self.label(),
            r@ == normalized(self.name()),
    {
        proof {
            use_type_invariant(self);
        }
        self.display_label.as_str()
    }

    /// Where the tools are started.
    pub fn location(&self) -> (r: &str)
        ensures
            r@ == self.place(),
    {
        self.location.as_str()
    }
}

/// The raw names of `candidates`, in order.
pub open spec fn names_of(candidates: Seq<Candidate>) -> Seq<Seq<char>> {
    Seq::new(candidates.len(), |k: int| candidates[k].name())
}

} // verus!
