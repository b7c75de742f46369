use rand::Rng;
use vstd::prelude::*;

use crate::snake::{Pos, Snake};

verus! {

/// rand's handle to the thread's random generator, carried opaque.
#[verifier::external_type_specification]
#[verifier::external_body]
pub struct ExThreadRng(rand::rngs::ThreadRng);

/// Relies on rand::thread_rng: a handle to the thread's random generator.
pub assume_specification[ rand::thread_rng ]() -> rand::rngs::ThreadRng;

/// Relies on rand's Rng::gen_range over an inclusive range: the value it draws lies
/// in `lo..=hi`, which must not be empty (gen_range panics on an empty range).
#[verifier::external_body]
fn random_between(rng: &mut rand::rngs::ThreadRng, lo: u8, hi: u8) -> (r: u8)
    requires
        lo <= hi,
    ensures
        lo <= r <= hi,
{
    rng.gen_range(lo..=hi)
}

/// How many random cells placement draws before it walks the interior in order.
const RANDOM_DRAWS: u32 = 64;

/// Whether `p` lies strictly inside the border of a `width` by `height` grid.
pub open spec fn in_interior(p: Pos, width: int, height: int) -> bool {
    1 <= p.0 <= width - 2 && 1 <= p.1 <= height - 2
}

/// Whether every interior cell of a `width` by `height` grid is covered by `segs`.
pub open spec fn interior_full(segs: Seq<Pos>, width: int, height: int) -> bool {
    forall|p: Pos| #[trigger] in_interior(p, width, height) ==> segs.contains(p)
}

/// The apple the snake eats: a single grid cell.
#[derive(Clone, Copy, Debug, PartialEq, Eq)]
pub struct Apple(Pos);

impl View for Apple {
    type V = Pos;

    closed spec fn view(&self) -> Pos {
        self.0
    }
}

impl Apple {
    /// An apple on cell `pos`.
    pub fn at(pos: Pos) -> (r: Apple)
        ensures
            r@ == pos,
    {
        Apple(pos)
    }

    /// Places an apple on a free interior cell of a `width` by `height` grid, that is
    /// a cell strictly inside the border that no segment of `snake` covers. Cells are
    /// drawn at random; after a bounded number of misses the interior is walked in
    /// order, so that a free cell is always found when there is one. `None` when
    /// the snake covers the whole interior.
    pub fn place(width: usize, height: usize, snake: &Snake) -> (r: Option<Apple>)
        requires
            3 <= width <= 257,
            3 <= height <= 257,
        ensures
            r is None <==> interior_full(snake@, width as int, height as int),
            r matches Some(a) ==> in_interior(a@, width as int, height as int)
                && !snake@.contains(a@),
    {
        let max_x: u8 = (width - 2) as u8;
        let max_y: u8 = (height - 2) as u8;
        let mut rng = rand::thread_rng();
        let mut draws: u32 = 0;
        while draws < RANDOM_DRAWS
            invariant
                1 <= max_x,
                1 <= max_y,
                max_x == width - 2,
                max_y == height - 2,
            decreases RANDOM_DRAWS - draws,
        {
            let x = random_between(&mut rng, 1, max_x);
            let y = random_between(&mut rng, 1, max_y);
            if !snake.occupies(&(x, y)) {
                assert(in_interior((x, y), width as int, height as int));
                return Some(Apple((x, y)));
            }
            draws += 1;
        }
        let mut x: u16 = 1;
        while x <= max_x as u16
            invariant
                max_x == width - 2,
                max_y == height - 2,
                1 <= x <= max_x + 1,
                forall|p: Pos|
                    #[trigger] in_interior(p, width as int, height as int) && p.0 < x
                        ==> snake@.contains(p),
            decreases max_x + 1 - x,
        {
            let mut y: u16 = 1;
            while y <= max_y as u16
                invariant
                    max_x == width - 2,
                    max_y == height - 2,
                    1 <= x <= max_x,
                    1 <= y <= max_y + 1,
                    forall|p: Pos|
                        #[trigger] in_interior(p, width as int, height as int) && p.0 < x
                            ==> snake@.contains(p),
                    forall|p: Pos|
                        #[trigger] in_interior(p, width as int, height as int) && p.0 == x && p.1
                            < y ==> snake@.contains(p),
                decreases max_y + 1 - y,
            {
                let cell: Pos = (x as u8, y as u8);
                if !snake.occupies(&cell) {
                    assert(in_interior(cell, width as int, height as int));
                    return Some(Apple(cell));
                }
                y += 1;
            }
            x += 1;
        }
        None
    }

    /// Whether the snake's head is on the apple.
    pub fn is_eaten(&self, snake: &Snake) -> (r: bool)
        requires
            snake.wf(),
        ensures
            r == (snake@[0] == self@),
    {
        crate::snake::same_cell(snake.head(), self.0)
    }

    /// The apple's cell.
    pub fn pos(&self) -> (r: Pos)
        ensures
            r == self@,
    {
        self.0
    }
}

} // verus!
