//! Textual descriptions with a title.
use vstd::prelude::*;

verus! {

/// A general description with an additional title field.
pub struct Description {
    title: &'static str,
    desc: String,
}

impl Description {
    pub closed spec fn spec_title(&self) -> Seq<char> {
        self.title@
    }

    pub closed spec fn spec_desc(&self) -> Seq<char> {
        self.desc@
    }

    /// Generates a new [`Description`] from a **title** and the actual **description**.
    pub fn new(title: &'static str, desc: String) -> (r: Self)
        ensures
            r.spec_title() == title@,
            r.spec_desc() == desc@,
    {
        Description { title, desc }
    }

    /// Returns the **title** of `self`.
    pub fn title(&self) -> (r: &'static str)
        ensures
            r@ == self.spec_title(),
    {
        self.title
    }

    /// Returns the **description** of `self`.
    pub fn desc(&self) -> (r: &str)
        ensures
            r@ == self.spec_desc(),
    {
        self.desc.as_str()
    }
}

/// Types that can describe themselves with a [`Description`].
pub trait Describe {
    /// Describes a type by providing a [`Description`] for it.
    fn describe(&self) -> Description;
}

} // verus!
