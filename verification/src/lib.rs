//! A verified engine for a terminal falling-block puzzle game.
//!
//! The library owns the game state: the settled grid, the active, next and
//! held pieces, and the score, line and level counters.  The hosting user
//! interface feeds it timer readings and player commands and renders what the
//! accessors expose; everything the engine decides is specified and proved.

pub mod audio;
pub mod board;
pub mod piece;
pub mod save;
pub mod tile;
