//! The cells of the playing field.

use vstd::prelude::*;

verus! {

/// The colour of one settled block.  The grey variant is reserved for the
/// non-interactive ghost-piece preview drawn by the hosting interface.
#[derive(Clone, Copy, Debug, PartialEq, Eq, Structural)]
pub enum Block {
    Red,
    Green,
    Blue,
    Magenta,
    Yellow,
    Orange,
    Cyan,
    Black,
    White,
    Gray,
}

/// One cell of the playing field: empty, or one settled block colour.
pub type Tile = Option<Block>;

} // verus!
