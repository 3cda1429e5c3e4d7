//! Coordinate types: character-indexed positions and viewport sizes.

use vstd::prelude::*;

verus! {

/// A position in the document: `x` is a character offset within line `y`
/// (not a byte or display column); `y` is a line index, or equal to the
/// line count to denote the append position at the bottom of the document.
#[derive(Debug, Clone, Copy, PartialEq, Eq, Structural)]
pub struct Loc {
    pub x: usize,
    pub y: usize,
}

impl Loc {
    /// Shorthand to create a location from a column and a line index.
    pub fn at(x: usize, y: usize) -> (r: Loc)
        ensures
            r == (Loc { x, y }),
    {
        Loc { x, y }
    }
}

/// Viewport dimensions, used only to bound how many lines are kept resident.
#[derive(Debug, Clone, Copy, PartialEq, Eq, Structural)]
pub struct Size {
    pub w: usize,
    pub h: usize,
}

impl Size {
    /// Shorthand to create a size from a width and a height.
    pub fn is(w: usize, h: usize) -> (r: Size)
        ensures
            r == (Size { w, h }),
    {
        Size { w, h }
    }
}

} // verus!
