//! What a plot window is opened with.
use vstd::prelude::*;

verus! {

/// Size, title and resizability of a plot window.
pub struct PlotWindowProperties {
    pub width: u32,
    pub height: u32,
    pub title: String,
    pub resizable: bool,
}

impl Default for PlotWindowProperties {
    /// A fixed window of 300 by 300 pixels.
    fn default() -> (r: Self)
        ensures
            r.width == 300,
            r.height == 300,
            r.title@ == "CLS plot window"@,
            !r.resizable,
    {
        PlotWindowProperties {
            width: 300,
            height: 300,
            title: "CLS plot window".to_string(),
            resizable: false,
        }
    }
}

} // verus!
