//! The little arithmetic behind the user interface: screen layout
//! constants, menu lettering, and the inventory menu outcome.

use vstd::prelude::*;

verus! {

/// Width of the map view in terminal cells.
pub const MAP_VIEW_WIDTH: usize = 80;

/// Height of the map view in terminal cells; the rows below it hold the
/// log panel.
pub const MAP_VIEW_HEIGHT: usize = 43;

/// How a menu interaction ended.
#[derive(Debug, Clone, Copy, PartialEq, Eq, Structural)]
pub enum ItemMenuResult {
    Cancel,
    NoResponse,
    Selected,
}

/// Convert a menu index to its letter glyph code, starting with `'a'`
/// for index zero.
pub fn index_to_letter(i: usize) -> (r: u16)
    requires
        i <= 65438,
    ensures
        r == 97 + i,
{
    97 + i as u16
}

} // verus!
