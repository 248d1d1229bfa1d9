//! Sizes of the areas that a plot window is divided into.
use vstd::prelude::*;

verus! {

/// Whether an area takes as much room as it can get or as little as it needs.
pub enum LayoutPriority {
    Maximize,
    Minimize,
}

impl Default for LayoutPriority {
    fn default() -> (r: Self)
        ensures
            r == LayoutPriority::Maximize,
    {
        LayoutPriority::Maximize
    }
}

/// An area that can say how large it is, given the size in pixels of the
/// area that contains it, if there is one.
pub trait Layout {
    /// Width and height that the area asks for.
    fn calculate_size(&self, parent: Option<(u32, u32)>) -> (u32, u32);

    /// Width and height in pixels.
    fn calculate_abs_size(&self, parent: Option<(u32, u32)>) -> (u32, u32);
}

/// An area without content: it asks for nothing and fills its parent.
pub struct EmptyLayout;

impl Layout for EmptyLayout {
    fn calculate_size(&self, _parent: Option<(u32, u32)>) -> (r: (u32, u32))
        ensures
            r == (0u32, 0u32),
    {
        (0, 0)
    }

    fn calculate_abs_size(&self, parent: Option<(u32, u32)>) -> (r: (u32, u32))
        ensures
            r == match parent {
                Some(size) => size,
                None => (0u32, 0u32),
            },
    {
        match parent {
            Some(size) => size,
            None => (0, 0),
        }
    }
}

} // verus!
