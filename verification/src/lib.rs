//! A deterministic cellular-automaton engine: Conway's Game of Life on a
//! fixed-topology toroidal grid.
//!
//! The engine owns a rectangular buffer of binary cells, advances it through
//! discrete generations under the classic neighbor-count rules, and exposes
//! inspection, mutation, resizing and textual rendering so that a host
//! presentation layer can drive and display it.

mod grid;
mod laws;

pub use grid::Cell;
pub use grid::GridError;
pub use grid::GridView;
pub use grid::Universe;
pub use grid::glyph;
pub use grid::lemma_wrap_dec;
pub use grid::lemma_wrap_inc;
pub use grid::next_cell;
pub use grid::toggled;
pub use grid::wrap_dec;
pub use grid::wrap_inc;
pub use laws::blinker_horizontal;
pub use laws::blinker_vertical;
pub use laws::block_cells;
pub use laws::lemma_blinker_oscillates;
pub use laws::lemma_block_still_life;
pub use laws::lemma_block_still_life_forever;
pub use laws::lemma_clear_idempotent;
pub use laws::lemma_corner_is_neighbor;
pub use laws::lemma_corner_wraparound;
pub use laws::lemma_tick_deterministic;
pub use laws::live_exactly;
