//! A hand-evaluation engine for a 34-kind, 136-tile matching game.
//!
//! The library answers three questions about a player's tiles: how far a hand
//! is from completion (shanten distance), every structurally valid partition
//! of a completed hand into melds and a pair, and the best-scoring
//! interpretation among those partitions (yaku, fu and final score).

use vstd::prelude::*;

pub mod agari;
pub mod game;
pub mod interface;
pub mod mentsu;
pub mod parse;
pub mod shanten;
pub mod taku;
pub mod tile;

verus! {

/// Errors surfaced by the engine. All of them are recoverable by the caller.
#[derive(Clone, Copy, Debug, PartialEq, Eq, Structural)]
pub enum CoreError {
    /// A tile with an out-of-range kind or copy id was rejected at ingestion.
    InvalidTile,
    /// A claimed winning hand admits no partition into melds and a pair.
    NoValidDecomposition,
    /// A structurally complete hand has no qualifying yaku: the win is illegal.
    NoYaku,
    /// The acting player is not the player whose turn it is.
    NotTeban,
    /// A tile searched for is not on the table.
    NotFound,
    /// An index or range reaches outside the table.
    IndexOutOfRange,
}

} // verus!
