use vstd::prelude::*;

use std::collections::VecDeque;

verus! {

/// A cell of the board, 0-based: `x` grows rightwards, `y` grows downwards.
#[derive(Debug, PartialEq, Eq, Structural, Clone, Copy)]
pub struct Position {
    pub x: usize,
    pub y: usize,
}

#[derive(Debug, PartialEq, Eq, Structural, Clone, Copy)]
pub enum Direction {
    Up,
    Right,
    Down,
    Left,
}

/// The direction that points back the way the snake came. A buffered turn
/// into `opposite(current)` is ignored, so the snake can never be told to
/// reverse straight into its own body.
pub open spec fn opposite(d: Direction) -> Direction {
    match d {
        Direction::Up => Direction::Down,
        Direction::Right => Direction::Left,
        Direction::Down => Direction::Up,
        Direction::Left => Direction::Right,
    }
}

/// What a renderer shows in one cell of the board.
#[derive(Debug, PartialEq, Eq, Structural, Clone, Copy)]
pub enum Tile {
    Food,
    Head,
    Body,
    Empty,
}

/// One simulation instance: a snake on a `width` by `height` grid, one food
/// cell, and a buffered direction that is applied at the start of each tick.
#[derive(Debug)]
pub struct SnakeGame {
    pub width: usize,
    pub height: usize,
    /// The snake's body, head at index 0, tail at the back.
    pub snake: VecDeque<Position>,
    /// The direction actually applied on the last tick.
    pub direction: Direction,
    /// Buffered input, applied on the next tick.
    pub next_direction: Direction,
    pub food: Position,
    pub finished: bool,
}

impl SnakeGame {
    pub open spec fn in_bounds(self, p: Position) -> bool {
        p.x < self.width && p.y < self.height
    }

    /// Well-formedness: positive dimensions, a non-empty snake of distinct
    /// in-bounds cells, and food somewhere on the board.
    pub open spec fn wf(self) -> bool {
        &&& 0 < self.width
        &&& 0 < self.height
        &&& 1 <= self.snake@.len()
        &&& forall|i: int|
            0 <= i < self.snake@.len() ==> self.in_bounds(#[trigger] self.snake@[i])
        &&& forall|i: int, j: int|
            0 <= i < j < self.snake@.len() ==> self.snake@[i] != self.snake@[j]
        &&& self.in_bounds(self.food)
    }

    /// While the game runs, the food never sits on a snake cell.
    pub open spec fn food_free(self) -> bool {
        !self.finished ==> !self.snake@.contains(self.food)
    }
}

/// The head cell the snake is born on: `(min(2, width - 1), height / 2)`.
pub open spec fn initial_head(width: usize, height: usize) -> Position
    recommends
        1 <= width,
        1 <= height,
{
    Position {
        x: if width - 1 < 2 { (width - 1) as usize } else { 2usize },
        y: (height as int / 2) as usize,
    }
}

/// The food cell the game starts with: `(max(width - 2, 0), height / 2)`.
pub open spec fn initial_food(width: usize, height: usize) -> Position
    recommends
        1 <= width,
        1 <= height,
{
    Position {
        x: if width >= 2 { (width - 2) as usize } else { 0usize },
        y: (height as int / 2) as usize,
    }
}

impl SnakeGame {
    /// Start a game on a `width` by `height` board: a one-cell snake near the
    /// left edge, food near the right edge, heading right.
    ///
    /// Degenerate widths (1 and 4) place the food on the snake's head; the
    /// caller is expected to avoid such boards.
    pub fn new(width: usize, height: usize) -> (game: Self)
        requires
            1 <= width,
            1 <= height,
        ensures
            game.width == width,
            game.height == height,
            game.snake@ == seq![initial_head(width, height)],
            game.direction == Direction::Right,
            game.next_direction == Direction::Right,
            game.food == initial_food(width, height),
            !game.finished,
            game.wf(),
            width != 1 && width != 4 ==> game.food_free(),
    {
        let head_x: usize = if width - 1 < 2 { width - 1 } else { 2 };
        let food_x: usize = if width >= 2 { width - 2 } else { 0 };
        let mut snake: VecDeque<Position> = VecDeque::new();
        snake.push_front(Position { x: head_x, y: height / 2 });
        SnakeGame {
            width,
            height,
            snake,
            direction: Direction::Right,
            next_direction: Direction::Right,
            food: Position { x: food_x, y: height / 2 },
            finished: false,
        }
    }

    /// Buffer a turn for the next tick. A direction equal to the current one,
    /// or reversing it, is silently ignored; everything else replaces the
    /// buffered direction.
    pub fn change_direction(&mut self, direction: Direction)
        ensures
            final(self).width == old(self).width,
            final(self).height == old(self).height,
            final(self).snake == old(self).snake,
            final(self).direction == old(self).direction,
            final(self).food == old(self).food,
            final(self).finished == old(self).finished,
            final(self).next_direction == (if direction == old(self).direction
                || direction == opposite(old(self).direction) {
                old(self).next_direction
            } else {
                direction
            }),
    {
        match (&self.direction, direction) {
            (Direction::Up, Direction::Up)
            | (Direction::Up, Direction::Down)
            | (Direction::Right, Direction::Right)
            | (Direction::Right, Direction::Left)
            | (Direction::Down, Direction::Down)
            | (Direction::Down, Direction::Up)
            | (Direction::Left, Direction::Left)
            | (Direction::Left, Direction::Right) => {},
            (_, direction) => self.next_direction = direction,
        }
    }

    fn is_valid(&self, pos: &Position) -> (r: bool)
        ensures
            r == self.in_bounds(*pos),
    {
        pos.x < self.width && pos.y < self.height
    }

    /// Where the head would move this tick, in the mathematical integers, so
    /// that a step off the top or left edge shows as a negative coordinate
    /// instead of wrapping around.
    pub open spec fn tick_target(self) -> (int, int)
        recommends
            1 <= self.snake@.len(),
    {
        let head = self.snake@[0];
        match self.next_direction {
            Direction::Up => (head.x as int, head.y - 1),
            Direction::Right => (head.x + 1, head.y as int),
            Direction::Down => (head.x as int, head.y + 1),
            Direction::Left => (head.x - 1, head.y as int),
        }
    }

    /// This tick's step leaves the board.
    pub open spec fn tick_hits_wall(self) -> bool {
        let t = self.tick_target();
        !(0 <= t.0 < self.width && 0 <= t.1 < self.height)
    }

    /// The cell the head enters on a tick that stays on the board.
    pub open spec fn tick_head(self) -> Position
        recommends
            !self.tick_hits_wall(),
    {
        let t = self.tick_target();
        Position { x: t.0 as usize, y: t.1 as usize }
    }

    /// This tick's step runs into the snake's own body.
    pub open spec fn tick_hits_snake(self) -> bool {
        !self.tick_hits_wall() && self.snake@.contains(self.tick_head())
    }

    /// This tick ends the game by collision: the step leaves the board or
    /// enters a cell the snake already occupies.
    pub open spec fn tick_collides(self) -> bool {
        self.tick_hits_wall() || self.tick_hits_snake()
    }

    /// Every cell of the board is occupied by the snake.
    pub open spec fn board_full(self) -> bool {
        forall|p: Position| #[trigger] self.in_bounds(p) ==> self.snake@.contains(p)
    }

    /// What a renderer should paint at `pos`: the food marker wins over the
    /// head marker, which wins over the body marker.
    pub open spec fn spec_tile_at(self, pos: Position) -> Tile {
        if pos == self.food {
            Tile::Food
        } else if self.snake@[0] == pos {
            Tile::Head
        } else if self.snake@.contains(pos) {
            Tile::Body
        } else {
            Tile::Empty
        }
    }

    pub fn tile_at(&self, pos: Position) -> (t: Tile)
        requires
            1 <= self.snake@.len(),
        ensures
            t == self.spec_tile_at(pos),
    {
        if pos == self.food {
            Tile::Food
        } else if self.snake[0] == pos {
            Tile::Head
        } else if Self::contains_cell(&self.snake, pos) {
            Tile::Body
        } else {
            Tile::Empty
        }
    }

    fn contains_cell(snake: &VecDeque<Position>, pos: Position) -> (r: bool)
        ensures
            r == snake@.contains(pos),
    {
        let mut i: usize = 0;
        while i < snake.len()
            invariant
                i <= snake@.len(),
                forall|j: int| 0 <= j < i ==> snake@[j] != pos,
            decreases snake@.len() - i,
        {
            if snake[i] == pos {
                assert(snake@[i as int] == pos);
                return true;
            }
            i += 1;
        }
        false
    }

    /// Enumerate, row by row, every board cell the snake does not occupy.
    fn free_cells(&self) -> (cells: Vec<Position>)
        ensures
            forall|p: Position|
                #[trigger] cells@.contains(p) <==> self.in_bounds(p) && !self.snake@.contains(p),
    {
        let mut cells: Vec<Position> = Vec::new();
        let mut y: usize = 0;
        while y < self.height
            invariant
                y <= self.height,
                forall|p: Position|
                    #[trigger] cells@.contains(p) <==> (p.x < self.width && p.y < y
                        && !self.snake@.contains(p)),
            decreases self.height - y,
        {
            let mut x: usize = 0;
            while x < self.width
                invariant
                    x <= self.width,
                    y < self.height,
                    forall|p: Position|
                        #[trigger] cells@.contains(p) <==> ((p.x < self.width && p.y < y || p.y
                            == y && p.x < x) && !self.snake@.contains(p)),
                decreases self.width - x,
            {
                let pos = Position { x, y };
                if !Self::contains_cell(&self.snake, pos) {
                    let ghost prev = cells@;
                    cells.push(pos);
                    proof {
                        assert forall|p: Position| #[trigger] cells@.contains(p) <==> (prev.contains(
                            p,
                        ) || p == pos) by {
                            if prev.contains(p) {
                                let k = choose|k: int| 0 <= k < prev.len() && prev[k] == p;
                                assert(cells@[k] == p);
                            }
                            if p == pos {
                                assert(cells@[cells@.len() - 1] == p);
                            }
                            if cells@.contains(p) {
                                let k = choose|k: int| 0 <= k < cells@.len() && cells@[k] == p;
                                if k < prev.len() {
                                    assert(prev[k] == p);
                                }
                            }
                        }
                    }
                }
                x += 1;
            }
            y += 1;
        }
        cells
    }

    /// One discrete tick. If the game is over, nothing changes. Otherwise the
    /// buffered direction becomes current, and the head moves one cell that
    /// way: leaving the board or entering the snake's own body ends the game
    /// with the snake untouched; entering a plain cell moves the snake (new
    /// head in front, tail dropped); entering the food cell grows the snake
    /// by the new head, and new food is placed on a free cell chosen at
    /// random, or, when no free cell remains, the game ends with the board
    /// full. The food never lands on the snake.
    pub fn game_loop(&mut self)
        requires
            old(self).wf(),
        ensures
            final(self).wf(),
            final(self).width == old(self).width,
            final(self).height == old(self).height,
            old(self).finished ==> *final(self) == *old(self),
            !old(self).finished ==> {
                &&& final(self).direction == old(self).next_direction
                &&& final(self).next_direction == old(self).next_direction
            },
            !old(self).finished && old(self).tick_collides() ==> {
                &&& final(self).finished
                &&& final(self).snake == old(self).snake
                &&& final(self).food == old(self).food
            },
            !old(self).finished && !old(self).tick_collides() && old(self).tick_head() != old(
                self,
            ).food ==> {
                &&& final(self).snake@ == seq![old(self).tick_head()]
                    + old(self).snake@.drop_last()
                &&& final(self).food == old(self).food
                &&& !final(self).finished
            },
            !old(self).finished && !old(self).tick_collides() && old(self).tick_head() == old(
                self,
            ).food ==> {
                &&& final(self).snake@ == seq![old(self).tick_head()] + old(self).snake@
                &&& (final(self).finished <==> final(self).board_full())
                &&& (final(self).board_full() ==> final(self).food == old(self).food)
                &&& (!final(self).board_full() ==> final(self).in_bounds(final(self).food)
                    && !final(self).snake@.contains(final(self).food))
            },
            old(self).food_free() ==> final(self).food_free(),
    {
        if self.finished {
            return;
        }

        self.direction = self.next_direction;

        proof {
            assert(old(self).in_bounds(old(self).snake@[0]));
        }

        let head = self.snake[0];

        let new_head_opt: Option<Position> = match self.direction {
            Direction::Up => if head.y == 0 {
                None
            } else {
                Some(Position { x: head.x, y: head.y - 1 })
            },
            Direction::Right => Some(Position { x: head.x + 1, y: head.y }),
            Direction::Down => Some(Position { x: head.x, y: head.y + 1 }),
            Direction::Left => if head.x == 0 {
                None
            } else {
                Some(Position { x: head.x - 1, y: head.y })
            },
        };

        let new_head = match new_head_opt {
            None => {
                proof {
                    assert(old(self).tick_hits_wall());
                }
                self.finished = true;
                return;
            },
            Some(nh) => nh,
        };

        proof {
            assert(old(self).tick_target() == (new_head.x as int, new_head.y as int));
        }

        if !self.is_valid(&new_head) || Self::contains_cell(&self.snake, new_head) {
            proof {
                if old(self).in_bounds(new_head) {
                    assert(!old(self).tick_hits_wall());
                    assert(old(self).tick_head() == new_head);
                }
                assert(old(self).tick_collides());
            }
            self.finished = true;
            return;
        }

        proof {
            assert(!old(self).tick_hits_wall());
            assert(old(self).tick_head() == new_head);
            assert(!old(self).snake@.contains(new_head));
            assert(!old(self).tick_collides());
        }

        if new_head != self.food {
            self.snake.pop_back();
            self.snake.push_front(new_head);
            proof {
                assert(self.snake@ == seq![new_head] + old(self).snake@.drop_last());
                assert forall|i: int|
                    0 <= i < self.snake@.len() implies self.in_bounds(
                    #[trigger] self.snake@[i],
                ) by {
                    if i > 0 {
                        assert(self.snake@[i] == old(self).snake@[i - 1]);
                        assert(old(self).in_bounds(old(self).snake@[i - 1]));
                    }
                }
                assert forall|i: int, j: int|
                    0 <= i < j < self.snake@.len() implies self.snake@[i] != self.snake@[j] by {
                    assert(self.snake@[j] == old(self).snake@[j - 1]);
                    if i == 0 {
                        if self.snake@[0] == self.snake@[j] {
                            assert(old(self).snake@.contains(new_head));
                        }
                    } else {
                        assert(self.snake@[i] == old(self).snake@[i - 1]);
                    }
                }
                if old(self).food_free() && self.snake@.contains(self.food) {
                    let k = choose|k: int|
                        0 <= k < self.snake@.len() && self.snake@[k] == self.food;
                    assert(k > 0);
                    assert(old(self).snake@[k - 1] == self.food);
                    assert(old(self).snake@.contains(self.food));
                }
            }
        } else {
            self.snake.push_front(new_head);
            proof {
                assert(self.snake@ == seq![new_head] + old(self).snake@);
                assert forall|i: int|
                    0 <= i < self.snake@.len() implies self.in_bounds(
                    #[trigger] self.snake@[i],
                ) by {
                    if i > 0 {
                        assert(self.snake@[i] == old(self).snake@[i - 1]);
                        assert(old(self).in_bounds(old(self).snake@[i - 1]));
                    }
                }
                assert forall|i: int, j: int|
                    0 <= i < j < self.snake@.len() implies self.snake@[i] != self.snake@[j] by {
                    assert(self.snake@[j] == old(self).snake@[j - 1]);
                    if i == 0 {
                        if self.snake@[0] == self.snake@[j] {
                            assert(old(self).snake@.contains(new_head));
                        }
                    } else {
                        assert(self.snake@[i] == old(self).snake@[i - 1]);
                    }
                }
            }

            let free_positions = self.free_cells();

            if free_positions.len() == 0 {
                self.finished = true;
                proof {
                    assert forall|p: Position|
                        #[trigger] self.in_bounds(p) implies self.snake@.contains(p) by {
                        assert(!free_positions@.contains(p));
                    }
                    assert(self.board_full());
                }
                return;
            }

            let idx: usize = crate::random::get_random_number(0, free_positions.len());
            self.food = free_positions[idx];

            proof {
                assert(free_positions@.contains(free_positions@[0]));
                assert(self.in_bounds(free_positions@[0]) && !self.snake@.contains(
                    free_positions@[0],
                ));
                assert(!self.board_full());
                assert(free_positions@.contains(free_positions@[idx as int]));
            }
        }
    }
}

} // verus!
