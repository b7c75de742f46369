//! A terminal snake game's model: the snake's body and its movement, apple
//! placement on the grid's interior, the cells that change between two frames,
//! and the per-tick decisions of the game loop.

mod apple;
mod game;
mod snake;

pub use apple::{in_interior, interior_full, Apple};
pub use game::{advance, fatal_move, reverse, steer, Tick};
pub use snake::{
    bites_itself, cells_left, diff, frame_diff, grown, out_of_bounds, same_cell, shifted, step,
    Direction, Pos, Snake,
};
pub use snake::{
    lemma_cells_left_within, lemma_diff_disjoint, lemma_diff_swap, lemma_distinct_never_bites,
    lemma_growing_adds_one, lemma_repeated_head_bites, lemma_shift_moves_body,
};
