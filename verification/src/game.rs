//! The game-state engine: grid, snake body, apple, direction and the
//! per-tick transition rule.
//!
//! Cells are addressed by a single linear index `idx = row * width + col`
//! with `idx` in `[0, width * height)`. The snake is an ordered sequence of
//! cell indices, oldest first: the tail sits at position 0 and the head at
//! the last position.

use rand::RngExt;
use vstd::prelude::*;

verus! {

/// Relies on `rand::rng` and `rand::RngExt::random_range`: a uniformly
/// chosen element of `0..n`. The range is non-empty by the precondition,
/// so the call does not panic; nothing more can be promised of a random
/// result than its bound.
#[verifier::external_body]
fn random_below(n: usize) -> (r: usize)
    requires
        0 < n,
    ensures
        r < n,
{
    rand::rng().random_range(0..n)
}

/// What a renderer sees in one grid cell.
#[derive(Clone, Copy, PartialEq, Eq, Structural, Debug)]
pub enum Cell {
    Space,
    Snake,
    Apple,
}

/// The four directions the snake can travel in.
#[derive(Clone, Copy, PartialEq, Eq, Structural, Debug)]
pub enum Direction {
    Up,
    Down,
    Left,
    Right,
}

impl Direction {
    /// The direction on the same axis with the opposite sign.
    pub open spec fn opposite(self) -> Direction {
        match self {
            Direction::Up => Direction::Down,
            Direction::Down => Direction::Up,
            Direction::Left => Direction::Right,
            Direction::Right => Direction::Left,
        }
    }
}

/// The authoritative state of one running game. The fields are public so
/// that the contracts below can speak of them; well-behaved callers mutate
/// the state only through the methods, each of which preserves [`Game::wf`].
pub struct Game {
    pub width: u32,
    pub height: u32,
    pub snake: Vec<u32>,
    pub apple: Option<u32>,
    pub stop: bool,
    pub direction: Direction,
}

impl Game {
    /// Number of cells in the grid.
    pub open spec fn area(self) -> int {
        self.width * self.height
    }

    /// The snake body: at least one segment, every segment inside the grid,
    /// and no segment repeated.
    pub open spec fn snake_ok(self) -> bool {
        &&& 1 <= self.snake@.len()
        &&& forall|k: int|
            0 <= k < self.snake@.len() ==> (#[trigger] self.snake@[k]) < self.area()
        &&& forall|k1: int, k2: int|
            0 <= k1 < k2 < self.snake@.len() ==> self.snake@[k1] != self.snake@[k2]
    }

    /// The apple, whenever defined, lies inside the grid and never on the
    /// snake.
    pub open spec fn apple_ok(self) -> bool {
        match self.apple {
            Some(a) => a < self.area() && !self.snake@.contains(a),
            None => true,
        }
    }

    /// Everything but the apple clause: positive dimensions whose product
    /// fits the index type, and a sound snake body.
    pub open spec fn wf_core(self) -> bool {
        &&& 0 < self.width
        &&& 0 < self.height
        &&& self.area() <= u32::MAX
        &&& self.snake_ok()
    }

    /// Well-formedness: established by the constructor and preserved by
    /// every mutating method.
    pub open spec fn wf(self) -> bool {
        self.wf_core() && self.apple_ok()
    }

    /// The head: the newest segment, at the last position of the body.
    pub open spec fn head(self) -> u32 {
        self.snake@.last()
    }

    /// Whether some snake segment sits on cell `c`.
    pub open spec fn hits_snake(self, c: int) -> bool {
        exists|k: int|
            0 <= k < self.snake@.len() && (#[trigger] self.snake@[k]) as int == c
    }

    /// Moving Up out of the top row or Left out of cell 0 would make the
    /// head index underflow; it is detected before any arithmetic.
    pub open spec fn wall_breach(self) -> bool {
        match self.direction {
            Direction::Up => self.head() < self.width,
            Direction::Left => self.head() == 0,
            _ => false,
        }
    }

    /// The cell the head would move to, as unbounded arithmetic over the
    /// linear index: Right adds 1, Left subtracts 1, Up subtracts a row,
    /// Down adds a row.
    pub open spec fn target(self) -> int {
        match self.direction {
            Direction::Right => self.head() + 1,
            Direction::Left => self.head() - 1,
            Direction::Up => self.head() - self.width,
            Direction::Down => self.head() + self.width,
        }
    }

    /// The target walked past the last row.
    pub open spec fn bottom_breach(self) -> bool {
        self.target() >= self.area()
    }

    /// Moving Right from the last column of a row: the linear index would
    /// silently alias to column 0 of the next row, so it is rejected.
    pub open spec fn row_wrap_right(self) -> bool {
        &&& self.direction == Direction::Right
        &&& self.head() as int % self.width as int == self.width - 1
        &&& self.target() % self.width as int == 0
    }

    /// Moving Left from column 0 of a row: the linear index would silently
    /// alias to the last column of the previous row, so it is rejected.
    pub open spec fn row_wrap_left(self) -> bool {
        &&& self.direction == Direction::Left
        &&& self.head() as int % self.width as int == 0
        &&& self.target() % self.width as int == self.width - 1
    }

    /// A tick in the current state ends the game instead of moving: the
    /// head would underflow, leave the grid, wrap across a row boundary, or
    /// land on the snake itself.
    pub open spec fn move_rejected(self) -> bool {
        ||| self.wall_breach()
        ||| self.bottom_breach()
        ||| self.hits_snake(self.target())
        ||| self.row_wrap_right()
        ||| self.row_wrap_left()
    }

    /// A legal tick grows the snake exactly when the target cell carries
    /// the apple.
    pub open spec fn grows(self) -> bool {
        match self.apple {
            Some(a) => a as int == self.target(),
            None => false,
        }
    }

    /// What one cell shows: the apple takes precedence, though under
    /// [`Game::wf`] the apple never sits on the snake, so the two cases are
    /// mutually exclusive.
    pub open spec fn spec_classify(self, idx: u32) -> Cell {
        if self.apple == Some(idx) {
            Cell::Apple
        } else if self.snake@.contains(idx) {
            Cell::Snake
        } else {
            Cell::Space
        }
    }

    /// Dimensions for which construction succeeds: the initial straight
    /// four-segment snake must fit in one row without touching a row
    /// boundary, and the cell count must fit the index type.
    pub open spec fn fits(width: u32, height: u32) -> bool {
        &&& 5 <= width
        &&& 2 <= height
        &&& width * height <= u32::MAX
    }

    /// Builds a fresh game: a four-segment snake lying in the second row at
    /// columns 1 through 4, head at the last position, direction Right, not
    /// stopped, and no apple placed yet. The apple is placed by an explicit
    /// [`Game::place_apple`] call, expected before the first tick; a tick
    /// with no apple placed simply never grows the snake.
    ///
    /// Construction fails exactly when the dimensions cannot hold that
    /// initial snake or the cell count overflows the index type.
    pub fn new(width: u32, height: u32) -> (r: Option<Game>)
        ensures
            Self::fits(width, height) <==> r is Some,
            match r {
                Some(g) => {
                    &&& g.wf()
                    &&& g.width == width
                    &&& g.height == height
                    &&& g.snake@ == seq![
                        (width + 1) as u32,
                        (width + 2) as u32,
                        (width + 3) as u32,
                        (width + 4) as u32,
                    ]
                    &&& g.apple is None
                    &&& g.direction == Direction::Right
                    &&& !g.stop
                },
                None => true,
            },
    {
        if width < 5 || height < 2 {
            return None;
        }
        proof {
            assert((width as int) * (height as int) <= u64::MAX) by (nonlinear_arith)
                requires
                    width <= u32::MAX,
                    height <= u32::MAX,
            ;
        }
        let area64: u64 = (width as u64) * (height as u64);
        if area64 > u32::MAX as u64 {
            return None;
        }
        proof {
            assert(width + 4 < width * height) by (nonlinear_arith)
                requires
                    5 <= width,
                    2 <= height,
            ;
        }
        let mut snake: Vec<u32> = Vec::new();
        snake.push(width + 1);
        snake.push(width + 2);
        snake.push(width + 3);
        snake.push(width + 4);
        let g = Game {
            width,
            height,
            snake,
            apple: None,
            stop: false,
            direction: Direction::Right,
        };
        proof {
            assert(g.snake@ =~= seq![
                (width + 1) as u32,
                (width + 2) as u32,
                (width + 3) as u32,
                (width + 4) as u32,
            ]);
        }
        Some(g)
    }

    /// The linear index of the cell at `row`, `column`.
    pub fn get_index(&self, row: u32, column: u32) -> (r: usize)
        requires
            self.wf(),
            row < self.height,
            column < self.width,
        ensures
            r as int == row * self.width + column,
            r < self.area(),
    {
        proof {
            assert(row * self.width + column < self.width * self.height)
                by (nonlinear_arith)
                requires
                    row < self.height,
                    column < self.width,
                    0 < self.width,
            ;
        }
        (row * self.width + column) as usize
    }

    /// Whether cell `idx` is occupied by some snake segment.
    pub fn is_snake(&self, idx: u32) -> (r: bool)
        ensures
            r == self.snake@.contains(idx),
    {
        let mut k: usize = 0;
        while k < self.snake.len()
            invariant
                k <= self.snake@.len(),
                forall|j: int| 0 <= j < k ==> (#[trigger] self.snake@[j]) != idx,
            decreases self.snake@.len() - k,
        {
            if self.snake[k] == idx {
                return true;
            }
            k += 1;
        }
        false
    }

    /// What a renderer paints at cell `idx`.
    pub fn classify(&self, idx: u32) -> (r: Cell)
        ensures
            r == self.spec_classify(idx),
    {
        let on_apple: bool = match self.apple {
            Some(a) => a == idx,
            None => false,
        };
        if on_apple {
            Cell::Apple
        } else if self.is_snake(idx) {
            Cell::Snake
        } else {
            Cell::Space
        }
    }

    /// Whether the simulation has reached a terminal collision; once true
    /// it stays true for the life of the value.
    pub fn is_stopped(&self) -> (r: bool)
        ensures
            r == self.stop,
    {
        self.stop
    }

    /// Whether a requested turn is accepted: everything but the exact
    /// opposite of the current direction.
    pub fn is_valid_direction(&self, dir: Direction) -> (r: bool)
        ensures
            r <==> dir != self.direction.opposite(),
    {
        match (dir, self.direction) {
            (Direction::Left, Direction::Right) => false,
            (Direction::Right, Direction::Left) => false,
            (Direction::Down, Direction::Up) => false,
            (Direction::Up, Direction::Down) => false,
            _ => true,
        }
    }

    /// Buffers the turn to take on the next tick. A request for the exact
    /// opposite of the current direction is silently ignored, so the head
    /// can never reverse onto the second segment; any other request
    /// replaces the direction at once, and the last accepted request
    /// before a tick is the one that tick moves in.
    pub fn set_direction(&mut self, dir: Direction)
        ensures
            final(self).direction == (if dir == old(self).direction.opposite() {
                old(self).direction
            } else {
                dir
            }),
            final(self).width == old(self).width,
            final(self).height == old(self).height,
            final(self).snake@ == old(self).snake@,
            final(self).apple == old(self).apple,
            final(self).stop == old(self).stop,
            old(self).wf() ==> final(self).wf(),
    {
        if !self.is_valid_direction(dir) {
            return;
        }
        self.direction = dir;
    }

    /// Marks the game over.
    fn game_over(&mut self)
        ensures
            final(self).stop == true,
            final(self).width == old(self).width,
            final(self).height == old(self).height,
            final(self).snake@ == old(self).snake@,
            final(self).apple == old(self).apple,
            final(self).direction == old(self).direction,
            old(self).wf() ==> final(self).wf(),
    {
        self.stop = true;
    }

    /// The cell the head moves to on the next tick, or `None` when the
    /// move is rejected and the tick ends the game instead.
    pub fn next_position(&self) -> (r: Option<u32>)
        requires
            self.wf(),
        ensures
            self.move_rejected() ==> r is None,
            !self.move_rejected() ==> r == Some(self.target() as u32),
    {
        let head: u32 = self.snake[self.snake.len() - 1];
        let wall: bool = match self.direction {
            Direction::Up => head < self.width,
            Direction::Left => head == 0,
            _ => false,
        };
        if wall {
            return None;
        }
        let area64: u64 = (self.width as u64) * (self.height as u64);
        let next64: u64 = match self.direction {
            Direction::Right => head as u64 + 1,
            Direction::Left => head as u64 - 1,
            Direction::Up => head as u64 - self.width as u64,
            Direction::Down => head as u64 + self.width as u64,
        };
        if next64 >= area64 {
            return None;
        }
        let next: u32 = next64 as u32;
        if self.is_snake(next) {
            return None;
        }
        let wrap_right: bool = matches!(self.direction, Direction::Right)
            && head % self.width == self.width - 1 && next % self.width == 0;
        let wrap_left: bool = matches!(self.direction, Direction::Left)
            && head % self.width == 0 && next % self.width == self.width - 1;
        if wrap_right || wrap_left {
            return None;
        }
        Some(next)
    }

    /// Advances the simulation by one step.
    ///
    /// A stopped game never changes again. Otherwise, when the move is
    /// rejected — the head would underflow a wall, leave the bottom of the
    /// grid, wrap across a row boundary, or land on the snake — only the
    /// stopped flag turns on. A legal move onto the apple appends the new
    /// head and keeps the tail (the snake grows by exactly one) and
    /// relocates the apple; any other legal move drops the tail and
    /// appends the new head, leaving the length unchanged.
    pub fn tick(&mut self)
        requires
            old(self).wf(),
        ensures
            final(self).wf(),
            final(self).width == old(self).width,
            final(self).height == old(self).height,
            final(self).direction == old(self).direction,
            old(self).stop ==> final(self).snake@ == old(self).snake@
                && final(self).apple == old(self).apple
                && final(self).stop,
            !old(self).stop && old(self).move_rejected() ==> final(self).stop
                && final(self).snake@ == old(self).snake@
                && final(self).apple == old(self).apple,
            !old(self).stop && !old(self).move_rejected() && !old(self).grows() ==> final(self).snake@ == old(self).snake@.drop_first().push(old(self).target() as u32)
                && final(self).snake@.len() == old(self).snake@.len()
                && final(self).apple == old(self).apple
                && !final(self).stop,
            !old(self).stop && !old(self).move_rejected() && old(self).grows() ==> final(self).snake@ == old(self).snake@.push(old(self).target() as u32)
                && final(self).snake@.len() == old(self).snake@.len() + 1
                && (!final(self).stop <==> final(self).apple is Some)
                && (final(self).apple is None ==> forall|c: u32|
                    c < final(self).area() ==> final(self).snake@.contains(c)),
    {
        if self.stop {
            return;
        }
        let next_opt = self.next_position();
        match next_opt {
            None => {
                self.game_over();
            },
            Some(position) => {
                proof {
                    assert(!self.hits_snake(self.target()));
                    assert forall|k: int|
                        0 <= k < self.snake@.len() implies self.snake@[k] != position by {
                        assert(self.snake@[k] as int != self.target());
                    }
                }
                let grew: bool = match self.apple {
                    Some(a) => a == position,
                    None => false,
                };
                if grew {
                    self.apple = None;
                    self.snake.push(position);
                    self.place_apple();
                    proof {
                        if self.apple is None {
                            assert forall|c: u32|
                                c < self.area() implies self.snake@.contains(c) by {
                                if !self.snake@.contains(c) {
                                    assert(exists|d: u32|
                                        d < self.area() && !self.snake@.contains(d));
                                }
                            }
                        }
                    }
                } else {
                    self.snake.remove(0);
                    self.snake.push(position);
                    proof {
                        let pre = old(self).snake@;
                        assert(self.snake@ =~= pre.drop_first().push(position));
                        assert forall|k1: int, k2: int|
                            0 <= k1 < k2 < self.snake@.len() implies self.snake@[k1]
                            != self.snake@[k2] by {
                            if k2 < self.snake@.len() - 1 {
                                assert(pre[k1 + 1] != pre[k2 + 1]);
                            } else {
                                assert(self.snake@[k1] == pre[k1 + 1]);
                            }
                        }
                        match old(self).apple {
                            Some(a) => {
                                assert(a != position);
                                if self.snake@.contains(a) {
                                    let k = choose|k: int|
                                        0 <= k < self.snake@.len() && self.snake@[k] == a;
                                    assert(k < self.snake@.len() - 1);
                                    assert(pre.contains(a));
                                }
                            },
                            None => {},
                        }
                    }
                }
            },
        }
    }

    /// Every cell the snake does not occupy, in increasing index order.
    pub fn get_available_spots(&self) -> (r: Vec<u32>)
        requires
            self.wf_core(),
        ensures
            forall|j: int|
                0 <= j < r@.len() ==> (#[trigger] r@[j]) < self.area()
                    && !self.snake@.contains(r@[j]),
            forall|j1: int, j2: int| 0 <= j1 < j2 < r@.len() ==> r@[j1] < r@[j2],
            forall|c: u32|
                c < self.area() && !self.snake@.contains(c) ==> #[trigger] r@.contains(c),
    {
        let area: u32 = self.width * self.height;
        let mut spots: Vec<u32> = Vec::new();
        let mut i: u32 = 0;
        while i < area
            invariant
                i <= area,
                area == self.area(),
                forall|j: int|
                    0 <= j < spots@.len() ==> (#[trigger] spots@[j]) < i
                        && !self.snake@.contains(spots@[j]),
                forall|j1: int, j2: int|
                    0 <= j1 < j2 < spots@.len() ==> spots@[j1] < spots@[j2],
                forall|c: u32|
                    c < i && !self.snake@.contains(c) ==> #[trigger] spots@.contains(c),
            decreases area - i,
        {
            let ghost pre = spots@;
            if !self.is_snake(i) {
                spots.push(i);
            }
            proof {
                assert forall|c: u32|
                    c < i + 1 && !self.snake@.contains(c) implies #[trigger] spots@.contains(c) by {
                    if c < i {
                        assert(pre.contains(c));
                        let k = choose|k: int| 0 <= k < pre.len() && pre[k] == c;
                        assert(spots@[k] == c);
                    } else {
                        assert(spots@[spots@.len() - 1] == c);
                    }
                }
            }
            i = i + 1;
        }
        spots
    }

    /// Relocates the apple to a uniformly chosen free cell. When the snake
    /// occupies the whole grid there is no cell to place it on: the apple
    /// becomes undefined and the game stops — the board is won.
    pub fn place_apple(&mut self)
        requires
            old(self).wf_core(),
        ensures
            final(self).width == old(self).width,
            final(self).height == old(self).height,
            final(self).snake@ == old(self).snake@,
            final(self).direction == old(self).direction,
            final(self).wf_core(),
            final(self).apple_ok(),
            (exists|c: u32|
                c < old(self).area() && !old(self).snake@.contains(c)) ==> final(self).apple is Some
                && final(self).stop == old(self).stop,
            !(exists|c: u32|
                c < old(self).area() && !old(self).snake@.contains(c)) ==> final(self).apple is None
                && final(self).stop,
    {
        let spots = self.get_available_spots();
        if spots.len() == 0 {
            proof {
                assert forall|c: u32|
                    !(c < self.area() && !self.snake@.contains(c)) by {
                    if c < self.area() && !self.snake@.contains(c) {
                        assert(spots@.contains(c));
                    }
                }
            }
            self.apple = None;
            self.stop = true;
            return;
        }
        let k: usize = random_below(spots.len());
        let chosen: u32 = spots[k];
        self.apple = Some(chosen);
    }

    /// Places the apple on the given cell, for a host that wants a
    /// deterministic placement. Succeeds exactly when the cell lies in the
    /// grid and is not occupied by the snake; on failure nothing changes.
    pub fn place_apple_at(&mut self, idx: u32) -> (r: bool)
        requires
            old(self).wf_core(),
        ensures
            r <==> (idx < old(self).area() && !old(self).snake@.contains(idx)),
            final(self).width == old(self).width,
            final(self).height == old(self).height,
            final(self).snake@ == old(self).snake@,
            final(self).direction == old(self).direction,
            final(self).stop == old(self).stop,
            r ==> final(self).apple == Some(idx) && final(self).apple_ok(),
            !r ==> final(self).apple == old(self).apple,
            final(self).wf_core(),
            old(self).apple_ok() ==> final(self).apple_ok(),
    {
        let area: u32 = self.width * self.height;
        if idx < area && !self.is_snake(idx) {
            self.apple = Some(idx);
            true
        } else {
            false
        }
    }
}

} // verus!

