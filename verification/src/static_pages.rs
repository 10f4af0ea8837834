//! The pages without content of their own.
use crate::base::Base;
use vstd::prelude::*;

verus! {

/// The page about the author.
pub struct About {
    pub _parent: Base,
}

/// The front page.
pub struct Index {
    pub _parent: Base,
}

/// The page about the author, in the site's frame.
pub fn get_about(base: Base) -> (page: About)
    ensures
        page._parent == base,
{
    About { _parent: base }
}

/// The front page, in the site's frame.
pub fn get_index(base: Base) -> (page: Index)
    ensures
        page._parent == base,
{
    Index { _parent: base }
}

} // verus!
