use vstd::prelude::*;

use crate::apple::Apple;
use crate::snake::{bites_itself, grown, shifted, Direction, Snake};

verus! {

/// The direction straight back from `d`.
pub open spec fn reverse(d: Direction) -> Direction {
    match d {
        Direction::Up => Direction::Down,
        Direction::Down => Direction::Up,
        Direction::Left => Direction::Right,
        Direction::Right => Direction::Left,
    }
}

/// The direction the snake heads in after the player asks for `requested` while it
/// heads in `current`: a request to turn straight back is ignored.
pub fn steer(current: Direction, requested: Direction) -> (r: Direction)
    ensures
        r == (if requested == reverse(current) { current } else { requested }),
{
    let back = match current {
        Direction::Up => Direction::Down,
        Direction::Down => Direction::Up,
        Direction::Left => Direction::Right,
        Direction::Right => Direction::Left,
    };
    if requested == back {
        current
    } else {
        requested
    }
}

/// What one tick of the game does with the snake.
#[derive(Clone, Debug, PartialEq, Eq)]
pub enum Tick {
    /// The move was fatal; the game ends with the snake as it was.
    Over,
    /// The snake moved onto the given body.
    Moved(Snake),
    /// The snake's head reached the apple, and the snake grew onto it; a new apple
    /// is to be placed.
    Ate(Snake),
}

/// Whether the move of `old` to `moved` ends the game on a `width` by `height` grid:
/// the head did not move, it left the grid, or it ran into the body.
pub open spec fn fatal_move(old: Seq<(u8, u8)>, moved: Seq<(u8, u8)>, width: int, height: int) -> bool {
    moved[0] == old[0] || moved[0].0 >= width || moved[0].1 >= height || bites_itself(moved)
}

/// One tick of the game: move `snake` in direction `dir`; end the game if the move
/// is fatal; otherwise, if the moved head is on the apple, grow the snake onto the
/// apple instead of moving it.
pub fn advance(snake: &Snake, dir: Direction, apple: &Apple, width: usize, height: usize) -> (r: Tick)
    requires
        snake.wf(),
    ensures
        r is Over <==> fatal_move(snake@, shifted(snake@, dir), width as int, height as int),
        r matches Tick::Moved(s) ==> s@ == shifted(snake@, dir) && s@[0] != apple@,
        r matches Tick::Ate(s) ==> s@ == grown(snake@, apple@) && shifted(snake@, dir)[0]
            == apple@,
        r matches Tick::Moved(s) ==> s.wf(),
        r matches Tick::Ate(s) ==> s.wf(),
{
    let moved = snake.shift(dir);
    if crate::snake::out_of_bounds(&moved, snake, width, height) || moved.colliding_with_self() {
        Tick::Over
    } else if apple.is_eaten(&moved) {
        Tick::Ate(snake.add_segment(apple.pos()))
    } else {
        Tick::Moved(moved)
    }
}

} // verus!
