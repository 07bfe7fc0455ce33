//! The heading of a collapsible section.

use std::sync::Arc;
use vstd::prelude::*;

verus! {

/// A section heading: its title, and the identifier of the control that
/// folds the section.
#[derive(Debug)]
pub struct SectionHeader {
    title: String,
    id: String,
}

impl SectionHeader {
    /// The title, as a specification value.
    pub closed spec fn spec_title(&self) -> Seq<char> {
        self.title@
    }

    /// The identifier, as a specification value.
    pub closed spec fn spec_id(&self) -> Seq<char> {
        self.id@
    }

    /// Creates the heading with the given title and identifier.
    pub fn new(title: String, id: String) -> (r: Arc<Self>)
        ensures
            r.spec_title() == title@,
            r.spec_id() == id@,
    {
        Arc::new(Self { title, id })
    }

    /// The title of the section.
    pub fn title(&self) -> (r: &str)
        ensures
            r@ == self.spec_title(),
    {
        self.title.as_str()
    }

    /// The identifier of the folding control.
    pub fn id(&self) -> (r: &str)
        ensures
            r@ == self.spec_id(),
    {
        self.id.as_str()
    }
}

} // verus!
