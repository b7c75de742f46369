use vstd::prelude::*;

verus! {

/// A grid cell, as (x, y).
pub type Pos = (u8, u8);

/// The directions the snake can move in.
#[derive(Clone, Copy, Debug, PartialEq, Eq, Structural)]
pub enum Direction {
    Up,
    Down,
    Left,
    Right,
}

/// The cell one step from `p` in direction `d`; a coordinate saturates at 0 and at 255.
pub open spec fn step(p: Pos, d: Direction) -> Pos {
    match d {
        Direction::Up => (p.0, if p.1 == 0 { 0 } else { (p.1 - 1) as u8 }),
        Direction::Down => (p.0, if p.1 == 255 { 255 } else { (p.1 + 1) as u8 }),
        Direction::Left => (if p.0 == 0 { 0 } else { (p.0 - 1) as u8 }, p.1),
        Direction::Right => (if p.0 == 255 { 255 } else { (p.0 + 1) as u8 }, p.1),
    }
}

/// The body after one move: a new head one step from the old one, and the tail dropped.
pub open spec fn shifted(segs: Seq<Pos>, d: Direction) -> Seq<Pos> {
    seq![step(segs[0], d)] + segs.drop_last()
}

/// Whether two cells are the same.
pub fn same_cell(a: Pos, b: Pos) -> (r: bool)
    ensures
        r == (a == b),
{
    a.0 == b.0 && a.1 == b.1
}

/// The body after growing onto `p`: `p` is the new head, the old segments follow.
pub open spec fn grown(segs: Seq<Pos>, p: Pos) -> Seq<Pos> {
    seq![p] + segs
}

/// The snake's ordered segments; index 0 is the head, the last one the tail.
#[derive(Clone, Debug, PartialEq, Eq)]
pub struct Snake {
    segments: Vec<Pos>,
}

impl View for Snake {
    type V = Seq<Pos>;

    closed spec fn view(&self) -> Seq<Pos> {
        self.segments@
    }
}

impl Snake {
    /// A snake always has a head.
    pub open spec fn wf(&self) -> bool {
        self@.len() > 0
    }

    /// A snake of one segment at the origin.
    pub fn new() -> (r: Snake)
        ensures
            r@ == seq![(0u8, 0u8)],
            r.wf(),
    {
        let segments: Vec<Pos> = vec![(0, 0)];
        Snake { segments }
    }

    /// A snake with the given segments, head first; `None` when there are none.
    pub fn from_segments(segments: Vec<Pos>) -> (r: Option<Snake>)
        ensures
            segments@.len() == 0 <==> r is None,
            r matches Some(s) ==> s@ == segments@ && s.wf(),
    {
        if segments.len() == 0 {
            None
        } else {
            Some(Snake { segments })
        }
    }

    /// The segments, head first.
    pub fn segments(&self) -> (r: Vec<Pos>)
        ensures
            r@ == self@,
    {
        let mut out: Vec<Pos> = Vec::new();
        let mut i: usize = 0;
        while i < self.segments.len()
            invariant
                i <= self.segments@.len(),
                out@ == self.segments@.subrange(0, i as int),
            decreases self.segments@.len() - i,
        {
            out.push(self.segments[i]);
            i += 1;
        }
        assert(out@ =~= self.segments@);
        out
    }

    /// The head's position.
    pub fn head(&self) -> (r: Pos)
        requires
            self.wf(),
        ensures
            r == self@[0],
    {
        self.segments[0]
    }

    /// Moves the snake one cell in direction `dir`: the tail drops off, every other
    /// segment stays where it was, and a new head is placed one step from the old head.
    /// At the grid's edge (0 or 255) the head's coordinate saturates instead of wrapping.
    pub fn shift(&self, dir: Direction) -> (r: Snake)
        requires
            self.wf(),
        ensures
            r@ == shifted(self@, dir),
            r@.len() == self@.len(),
            r@[0] == step(self@[0], dir),
            forall|i: int| 1 <= i < r@.len() ==> #[trigger] r@[i] == self@[i - 1],
            r.wf(),
    {
        let cur = self.head();
        let new_head: Pos = match dir {
            Direction::Up => (cur.0, cur.1.saturating_sub(1)),
            Direction::Down => (cur.0, cur.1.saturating_add(1)),
            Direction::Left => (cur.0.saturating_sub(1), cur.1),
            Direction::Right => (cur.0.saturating_add(1), cur.1),
        };
        let mut segments: Vec<Pos> = Vec::new();
        segments.push(new_head);
        let keep: usize = self.segments.len() - 1;
        let mut i: usize = 0;
        while i < keep
            invariant
                keep == self.segments@.len() - 1,
                i <= keep,
                segments@ == seq![new_head] + self.segments@.subrange(0, i as int),
            decreases keep - i,
        {
            segments.push(self.segments[i]);
            i += 1;
            assert(segments@ =~= seq![new_head] + self.segments@.subrange(0, i as int));
        }
        assert(self.segments@.drop_last() =~= self.segments@.subrange(0, keep as int));
        Snake { segments }
    }

    /// Grows the snake onto `apple_pos`, which becomes the new head; every old
    /// segment stays in place. Growing onto the current head is not allowed.
    pub fn add_segment(&self, apple_pos: Pos) -> (r: Snake)
        requires
            self.wf(),
            apple_pos != self@[0],
        ensures
            r@ == grown(self@, apple_pos),
            r@.len() == self@.len() + 1,
            r@[0] == apple_pos,
            r.wf(),
    {
        let mut segments: Vec<Pos> = Vec::new();
        segments.push(apple_pos);
        let mut i: usize = 0;
        while i < self.segments.len()
            invariant
                i <= self.segments@.len(),
                segments@ == seq![apple_pos] + self.segments@.subrange(0, i as int),
            decreases self.segments@.len() - i,
        {
            segments.push(self.segments[i]);
            i += 1;
            assert(segments@ =~= seq![apple_pos] + self.segments@.subrange(0, i as int));
        }
        assert(self.segments@ =~= self.segments@.subrange(0, i as int));
        Snake { segments }
    }

    /// The score: the number of segments, head included.
    pub fn score(&self) -> (r: usize)
        ensures
            r == self@.len(),
    {
        self.segments.len()
    }

    /// Whether some segment stands on `pos`.
    pub fn occupies(&self, pos: &Pos) -> (r: bool)
        ensures
            r == self@.contains(*pos),
    {
        let mut i: usize = 0;
        while i < self.segments.len()
            invariant
                i <= self.segments@.len(),
                forall|j: int| 0 <= j < i ==> self.segments@[j] != *pos,
            decreases self.segments@.len() - i,
        {
            if same_cell(self.segments[i], *pos) {
                assert(self@[i as int] == *pos);
                return true;
            }
            i += 1;
        }
        false
    }

    /// Whether a segment other than the head stands on the head.
    pub fn colliding_with_self(&self) -> (r: bool)
        requires
            self.wf(),
        ensures
            r == bites_itself(self@),
    {
        let head = self.head();
        let mut i: usize = 1;
        while i < self.segments.len()
            invariant
                1 <= i <= self.segments@.len(),
                head == self.segments@[0],
                forall|j: int| 1 <= j < i ==> self.segments@[j] != head,
            decreases self.segments@.len() - i,
        {
            if same_cell(self.segments[i], head) {
                return true;
            }
            i += 1;
        }
        false
    }
}

impl Default for Snake {
    /// A snake of one segment at the origin.
    fn default() -> (r: Snake)
        ensures
            r@ == seq![(0u8, 0u8)],
            r.wf(),
    {
        Snake::new()
    }
}

/// Whether a segment other than the head stands on the head.
pub open spec fn bites_itself(segs: Seq<Pos>) -> bool {
    exists|i: int| 1 <= i < segs.len() && #[trigger] segs[i] == segs[0]
}

/// The cells of `a` that are not cells of `b`, in the order of `a`.
pub open spec fn cells_left(a: Seq<Pos>, b: Seq<Pos>) -> Seq<Pos> {
    a.filter(|p: Pos| !b.contains(p))
}

/// The cells to clear and the cells to paint when the frame of `old` gives way to that of `new`.
pub open spec fn frame_diff(old: Seq<Pos>, new: Seq<Pos>) -> (Seq<Pos>, Seq<Pos>) {
    (cells_left(old, new), cells_left(new, old))
}

/// The cells to repaint between two frames: first the cells of `old` that `new`
/// no longer covers (to clear), then the cells of `new` that `old` did not cover
/// (to paint). Membership goes by position, not by index.
pub fn diff(old: &Snake, new: &Snake) -> (r: (Vec<Pos>, Vec<Pos>))
    ensures
        (r.0@, r.1@) == frame_diff(old@, new@),
{
    let removed = cells_not_in(&old.segments, new);
    let added = cells_not_in(&new.segments, old);
    (removed, added)
}

/// The cells of `cells` that `other` does not occupy, in order.
fn cells_not_in(cells: &Vec<Pos>, other: &Snake) -> (r: Vec<Pos>)
    ensures
        r@ == cells_left(cells@, other@),
{
    let mut out: Vec<Pos> = Vec::new();
    let mut i: usize = 0;
    while i < cells.len()
        invariant
            i <= cells@.len(),
            out@ == cells_left(cells@.subrange(0, i as int), other@),
        decreases cells@.len() - i,
    {
        let c = cells[i];
        let seen = other.occupies(&c);
        proof {
            let pre = cells@.subrange(0, i as int + 1);
            assert(pre.drop_last() =~= cells@.subrange(0, i as int));
            assert(pre.last() == c);
            reveal_with_fuel(Seq::filter, 1);
        }
        if !seen {
            out.push(c);
        }
        i += 1;
    }
    assert(cells@ =~= cells@.subrange(0, i as int));
    out
}

/// Whether the move from `old_snake` to `new_snake` ends the game at the grid's
/// edge: the head did not move (it was held at coordinate 0 or 255), or it stands
/// at or beyond the grid's width or height.
pub fn out_of_bounds(new_snake: &Snake, old_snake: &Snake, width: usize, height: usize) -> (r: bool)
    requires
        new_snake.wf(),
        old_snake.wf(),
    ensures
        r == (new_snake@[0] == old_snake@[0] || new_snake@[0].0 >= width
            || new_snake@[0].1 >= height),
{
    let (new_x, new_y) = new_snake.head();
    same_cell(new_snake.head(), old_snake.head()) || new_x as usize >= width || new_y as usize >= height
}

/// A move keeps the snake's length, and each segment behind the new head stands
/// where its predecessor stood before the move.
pub proof fn lemma_shift_moves_body(s: Snake, d: Direction)
    requires
        s@.len() >= 2,
    ensures
        shifted(s@, d).len() == s@.len(),
        forall|i: int| 1 <= i < s@.len() ==> #[trigger] shifted(s@, d)[i] == s@[i - 1],
{
}

/// Growing adds exactly one segment, and the new head is the cell grown onto.
pub proof fn lemma_growing_adds_one(s: Snake, p: Pos)
    requires
        s.wf(),
        p != s@[0],
    ensures
        grown(s@, p).len() == s@.len() + 1,
        grown(s@, p)[0] == p,
{
}

/// Swapping the two frames swaps the cells to clear with the cells to paint.
pub proof fn lemma_diff_swap(a: Snake, b: Snake)
    ensures
        frame_diff(b@, a@) == (frame_diff(a@, b@).1, frame_diff(a@, b@).0),
{
}

/// Every cell left over from `a` is a cell of `a` that `b` does not cover.
pub proof fn lemma_cells_left_within(a: Seq<Pos>, b: Seq<Pos>, p: Pos)
    ensures
        cells_left(a, b).contains(p) ==> a.contains(p) && !b.contains(p),
    decreases a.len(),
{
    reveal_with_fuel(Seq::filter, 1);
    if a.len() > 0 {
        lemma_cells_left_within(a.drop_last(), b, p);
        if cells_left(a, b).contains(p) {
            let rest = cells_left(a.drop_last(), b);
            if rest.contains(p) {
                let k = choose|k: int| 0 <= k < a.drop_last().len() && a.drop_last()[k] == p;
                assert(a[k] == p);
            } else {
                let i = choose|i: int| 0 <= i < cells_left(a, b).len() && cells_left(a, b)[i] == p;
                if !b.contains(a.last()) {
                    assert(cells_left(a, b) == rest.push(a.last()));
                    if i < rest.len() {
                        assert(rest[i] == p);
                    }
                    assert(a[a.len() - 1] == p);
                }
            }
        }
    }
}

/// No cell is both cleared and painted.
pub proof fn lemma_diff_disjoint(a: Snake, b: Snake, p: Pos)
    ensures
        !(frame_diff(a@, b@).0.contains(p) && frame_diff(a@, b@).1.contains(p)),
{
    lemma_cells_left_within(a@, b@, p);
    lemma_cells_left_within(b@, a@, p);
}

/// A snake whose segments are all distinct does not run into itself.
pub proof fn lemma_distinct_never_bites(s: Snake)
    requires
        s@.no_duplicates(),
    ensures
        !bites_itself(s@),
{
}

/// A snake runs into itself as soon as a segment other than the head stands on the head.
pub proof fn lemma_repeated_head_bites(s: Snake, i: int)
    requires
        1 <= i < s@.len(),
        s@[i] == s@[0],
    ensures
        bites_itself(s@),
{
    assert(s@[i] == s@[0]);
}

} // verus!
