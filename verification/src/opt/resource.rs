//! What a host passes along when it creates or updates records.

use crate::opt::patch::Patch;
use crate::opt::patch::PatchView;
use crate::value::Structured;
use crate::value::StructuredView;
use vstd::prelude::*;

verus! {

/// The content of records to create.
#[derive(Debug, PartialEq, Eq)]
pub struct Create {
    pub content: Structured,
}

/// How to update records; with no clause the records are touched and their
/// content stays.
#[derive(Debug, PartialEq, Eq)]
pub struct Update {
    pub clause: Option<Clause>,
}

/// The way an update changes content.
#[derive(Debug, PartialEq, Eq)]
pub enum Clause {
    /// Put this content in place of the old.
    Content(Structured),
    /// Lay this content over the old.
    Merge(Structured),
    /// Apply these changes in order.
    Patch(Vec<Patch>),
}

/// Mathematical form of a [`Clause`].
pub enum ClauseView {
    Content(StructuredView),
    Merge(StructuredView),
    Patch(Seq<PatchView>),
}

/// Mathematical form of a list of changes.
pub open spec fn patches_view(patches: Seq<Patch>) -> Seq<PatchView> {
    Seq::new(patches.len(), |i: int| patches[i]@)
}

impl View for Clause {
    type V = ClauseView;

    open spec fn view(&self) -> ClauseView {
        match self {
            Clause::Content(v) => ClauseView::Content(v@),
            Clause::Merge(v) => ClauseView::Merge(v@),
            Clause::Patch(patches) => ClauseView::Patch(patches_view(patches@)),
        }
    }
}

impl Update {
    /// The clause in mathematical form.
    pub open spec fn clause_view(self) -> Option<ClauseView> {
        match self.clause {
            Some(c) => Some(c@),
            None => None,
        }
    }
}

} // verus!
