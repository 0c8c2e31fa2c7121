//! The game engine: grid, snake, movement, collision detection, food
//! placement, and the per-tick transition consumed by the UI layer.

use vstd::prelude::*;
use rand::Rng;
use crate::score_tracker::ScoreTracker;

verus! {

/// A grid extent: `x` columns by `y` rows.
#[derive(Clone, Copy, Debug, PartialEq, Eq, Structural)]
pub struct GridSize {
    pub x: usize,
    pub y: usize,
}

/// Settings a new game session is created from.
#[derive(Clone, Copy, Debug)]
pub struct Options {
    pub size: GridSize,
}

/// The rendering label of one grid cell, recomputed each tick from the
/// snake's positions and the food position.
#[derive(Clone, Copy, Debug, PartialEq, Eq, Structural)]
pub enum CellType {
    Food,
    Empty,
    Head,
    Tail,
    Body,
}

impl CellType {
    /// The glyph the UI draws for this cell.
    pub fn get_string_representation(&self) -> (r: &str)
        ensures
            r@ == match *self {
                CellType::Food => "♥"@,
                CellType::Empty => " "@,
                CellType::Head => "■"@,
                CellType::Tail => "◦"@,
                CellType::Body => "□"@,
            },
    {
        match self {
            CellType::Food => "♥",
            CellType::Empty => " ",
            CellType::Head => "■",
            CellType::Body => "□",
            CellType::Tail => "◦",
        }
    }
}

/// A directional input. `NoInput` means "no key pressed this tick": the
/// snake keeps its stored travel direction. The stored direction of a snake
/// is never `NoInput`.
#[derive(Clone, Copy, Debug, PartialEq, Eq, Structural)]
pub enum MovementDirection {
    West,
    East,
    North,
    South,
    NoInput,
}

/// The classification of one tick. `WallCollision` and `SnakeCollision` are
/// terminal: the session is over and the state is left untouched.
#[derive(Clone, Copy, Debug, PartialEq, Eq, Structural)]
pub enum GameResult {
    Continue,
    WallCollision,
    SnakeCollision,
    Food,
}

/// The direction opposite to `d`.
pub open spec fn opposite_direction(d: MovementDirection) -> MovementDirection {
    match d {
        MovementDirection::West => MovementDirection::East,
        MovementDirection::East => MovementDirection::West,
        MovementDirection::North => MovementDirection::South,
        MovementDirection::South => MovementDirection::North,
        MovementDirection::NoInput => MovementDirection::NoInput,
    }
}

/// The direction the snake actually travels on a tick, given the requested
/// input and the currently stored direction: no input keeps the current
/// direction, input exactly opposite to the current direction is ignored
/// (the snake never reverses into its own neck), and anything else turns.
pub open spec fn effective_direction(
    input: MovementDirection,
    current: MovementDirection,
) -> MovementDirection {
    if input is NoInput {
        current
    } else if current == opposite_direction(input) {
        current
    } else {
        input
    }
}

/// The grid index one step from `head` in direction `d`, on a grid `w`
/// columns wide. Cells are indexed row-major: `y * w + x`.
pub open spec fn next_head(head: int, d: MovementDirection, w: int) -> int {
    match d {
        MovementDirection::East => head + 1,
        MovementDirection::West => head - 1,
        MovementDirection::South => head + w,
        MovementDirection::North => head - w,
        MovementDirection::NoInput => head,
    }
}

/// Whether a step from `head` in direction `d` leaves the `w` by `h` grid.
pub open spec fn hits_wall(head: int, d: MovementDirection, w: int, h: int) -> bool {
    match d {
        MovementDirection::East => head % w + 1 >= w,
        MovementDirection::West => head % w == 0,
        MovementDirection::South => (head + w) / w >= h,
        MovementDirection::North => head - w < 0,
        MovementDirection::NoInput => true,
    }
}

/// The classification of a step of a snake at `pre` onto cell `nx` with food
/// at `food`: onto its own body (the not-yet-vacated tail included) is a
/// self collision, onto the food cell grows the snake, anything else is an
/// ordinary move.
pub open spec fn step_result(pre: Seq<usize>, nx: usize, food: usize) -> GameResult {
    if pre.contains(nx) {
        GameResult::SnakeCollision
    } else if nx == food {
        GameResult::Food
    } else {
        GameResult::Continue
    }
}

/// How the position list changes on a step onto `nx`: unchanged on a self
/// collision, grown head-first on food, otherwise the tail cell is vacated
/// and the new head cell is taken.
pub open spec fn snake_step(pre: Seq<usize>, post: Seq<usize>, nx: usize, food: usize) -> bool {
    if pre.contains(nx) {
        post == pre
    } else if nx == food {
        post == seq![nx] + pre
    } else {
        post == seq![nx] + pre.drop_last()
    }
}

/// The snake: grid indices head-first, tail-last, plus the direction it is
/// currently travelling.
#[derive(Clone, Debug)]
pub struct Snake {
    pub positions: Vec<usize>,
    pub direction: MovementDirection,
}

/// Whether `v` holds `x`: a linear scan, acceptable because snakes stay
/// small next to the grids they live on.
fn vec_contains(v: &Vec<usize>, x: usize) -> (b: bool)
    ensures
        b == v@.contains(x),
{
    let mut i: usize = 0;
    while i < v.len()
        invariant
            i <= v@.len(),
            forall|j: int| 0 <= j < i ==> v@[j] != x,
        decreases v@.len() - i,
    {
        if v[i] == x {
            return true;
        }
        i += 1;
    }
    false
}

impl Snake {
    /// The cell the snake's head occupies.
    pub fn get_head_position(&self) -> (r: usize)
        requires
            self.positions@.len() >= 1,
        ensures
            r == self.positions@[0],
    {
        self.positions[0]
    }

    /// The cell the snake's tail occupies.
    pub fn get_tail_position(&self) -> (r: usize)
        requires
            self.positions@.len() >= 1,
        ensures
            r == self.positions@.last(),
    {
        self.positions[self.positions.len() - 1]
    }

    /// The interior cells: everything strictly between head and tail.
    pub fn get_body_positions(&self) -> (r: Vec<usize>)
        requires
            self.positions@.len() >= 1,
        ensures
            self.positions@.len() >= 2 ==> r@ == self.positions@.subrange(
                1,
                self.positions@.len() - 1,
            ),
            self.positions@.len() == 1 ==> r@ == Seq::<usize>::empty(),
    {
        let mut body_positions: Vec<usize> = Vec::new();
        let end = self.positions.len() - 1;
        let mut index: usize = 1;
        while index < end
            invariant
                end == self.positions@.len() - 1 || (self.positions@.len() == 1 && end == 0),
                end < self.positions@.len(),
                1 <= index,
                index <= end || index == 1,
                body_positions@ == self.positions@.subrange(1, index as int),
            decreases end - index,
        {
            body_positions.push(self.positions[index]);
            proof {
                assert(body_positions@ =~= self.positions@.subrange(1, index + 1));
            }
            index += 1;
        }
        proof {
            if self.positions@.len() == 1 {
                assert(body_positions@ =~= Seq::<usize>::empty());
            }
        }
        body_positions
    }

    /// One step onto `new_position`: the self-collision check, then the
    /// grow-or-advance of the body and the direction update.
    fn move_and_check(
        &mut self,
        new_position: usize,
        food_position: usize,
        direction: MovementDirection,
    ) -> (r: GameResult)
        requires
            old(self).positions@.len() >= 1,
            old(self).positions@.len() < usize::MAX,
        ensures
            r == step_result(old(self).positions@, new_position, food_position),
            snake_step(old(self).positions@, final(self).positions@, new_position, food_position),
            final(self).direction == if old(self).positions@.contains(new_position) {
                old(self).direction
            } else {
                direction
            },
            old(self).positions@.contains(new_position) ==> *final(self) == *old(self),
    {
        // Self collision: the tail counts too, since its cell is only
        // vacated this tick when the move is not onto food.
        if vec_contains(&self.positions, new_position) {
            return GameResult::SnakeCollision;
        }
        let mut game_result = GameResult::Food;
        if new_position != food_position {
            self.positions.pop();
            game_result = GameResult::Continue;
        }
        // Advance head
        self.positions.insert(0, new_position);
        self.direction = direction;
        proof {
            if new_position == food_position {
                assert(self.positions@ =~= seq![new_position] + old(self).positions@);
            } else {
                assert(self.positions@ =~= seq![new_position]
                    + old(self).positions@.drop_last());
            }
        }
        game_result
    }
}

impl Snake {
    /// One tick travelling east: off the right edge is a wall collision and
    /// leaves the snake untouched, otherwise a step onto the cell one to the
    /// right.
    pub fn move_east(&mut self, food_position: usize, max_x: usize) -> (r: GameResult)
        requires
            max_x >= 1,
            old(self).positions@.len() >= 1,
            old(self).positions@.len() < usize::MAX,
            old(self).positions@[0] < usize::MAX,
        ensures
            ({
                let hd = old(self).positions@[0] as int;
                if hd % (max_x as int) + 1 >= max_x as int {
                    r == GameResult::WallCollision && *final(self) == *old(self)
                } else {
                    r == step_result(old(self).positions@, (hd + 1) as usize, food_position)
                        && snake_step(
                        old(self).positions@,
                        final(self).positions@,
                        (hd + 1) as usize,
                        food_position,
                    )
                        && final(self).direction == (if old(self).positions@.contains(
                        (hd + 1) as usize,
                    ) {
                        old(self).direction
                    } else {
                        MovementDirection::East
                    })
                        && (old(self).positions@.contains((hd + 1) as usize)
                        ==> *final(self) == *old(self))
                }
            }),
    {
        let new_position = (self.get_head_position() % max_x) + 1;

        // Wall collision
        if new_position >= max_x {
            return GameResult::WallCollision;
        }

        self.move_and_check(
            self.get_head_position() + 1,
            food_position,
            MovementDirection::East,
        )
    }

    /// One tick travelling west: out of the leftmost column is a wall
    /// collision and leaves the snake untouched, otherwise a step onto the
    /// cell one to the left.
    pub fn move_west(&mut self, food_position: usize, max_x: usize) -> (r: GameResult)
        requires
            max_x >= 1,
            old(self).positions@.len() >= 1,
            old(self).positions@.len() < usize::MAX,
        ensures
            ({
                let hd = old(self).positions@[0] as int;
                if hd % (max_x as int) == 0 {
                    r == GameResult::WallCollision && *final(self) == *old(self)
                } else {
                    r == step_result(old(self).positions@, (hd - 1) as usize, food_position)
                        && snake_step(
                        old(self).positions@,
                        final(self).positions@,
                        (hd - 1) as usize,
                        food_position,
                    )
                        && final(self).direction == (if old(self).positions@.contains(
                        (hd - 1) as usize,
                    ) {
                        old(self).direction
                    } else {
                        MovementDirection::West
                    })
                        && (old(self).positions@.contains((hd - 1) as usize)
                        ==> *final(self) == *old(self))
                }
            }),
    {
        let head = self.get_head_position();

        // Wall collision: the head sits in column zero.
        if head % max_x == 0 {
            return GameResult::WallCollision;
        }
        proof {
            assert(head > 0) by (nonlinear_arith)
                requires
                    max_x >= 1,
                    (head as int) % (max_x as int) != 0,
                    head >= 0,
            ;
        }
        self.move_and_check(head - 1, food_position, MovementDirection::West)
    }

    /// One tick travelling south: out of the bottom row is a wall collision
    /// and leaves the snake untouched, otherwise a step onto the cell one
    /// row down.
    pub fn move_south(&mut self, food_position: usize, max_x: usize, max_y: usize) -> (r:
        GameResult)
        requires
            max_x >= 1,
            old(self).positions@.len() >= 1,
            old(self).positions@.len() < usize::MAX,
            old(self).positions@[0] + max_x <= usize::MAX,
        ensures
            ({
                let hd = old(self).positions@[0] as int;
                if (hd + max_x) / (max_x as int) >= max_y as int {
                    r == GameResult::WallCollision && *final(self) == *old(self)
                } else {
                    r == step_result(old(self).positions@, (hd + max_x) as usize, food_position)
                        && snake_step(
                        old(self).positions@,
                        final(self).positions@,
                        (hd + max_x) as usize,
                        food_position,
                    )
                        && final(self).direction == (if old(self).positions@.contains(
                        (hd + max_x) as usize,
                    ) {
                        old(self).direction
                    } else {
                        MovementDirection::South
                    })
                        && (old(self).positions@.contains((hd + max_x) as usize)
                        ==> *final(self) == *old(self))
                }
            }),
    {
        let new_position = self.get_head_position() + max_x;

        // Wall collision
        if new_position / max_x >= max_y {
            return GameResult::WallCollision;
        }

        self.move_and_check(new_position, food_position, MovementDirection::South)
    }

    /// One tick travelling north: out of the top row is a wall collision
    /// and leaves the snake untouched, otherwise a step onto the cell one
    /// row up.
    pub fn move_north(&mut self, food_position: usize, max_x: usize) -> (r: GameResult)
        requires
            max_x >= 1,
            old(self).positions@.len() >= 1,
            old(self).positions@.len() < usize::MAX,
        ensures
            ({
                let hd = old(self).positions@[0] as int;
                if hd - max_x < 0 {
                    r == GameResult::WallCollision && *final(self) == *old(self)
                } else {
                    r == step_result(old(self).positions@, (hd - max_x) as usize, food_position)
                        && snake_step(
                        old(self).positions@,
                        final(self).positions@,
                        (hd - max_x) as usize,
                        food_position,
                    )
                        && final(self).direction == (if old(self).positions@.contains(
                        (hd - max_x) as usize,
                    ) {
                        old(self).direction
                    } else {
                        MovementDirection::North
                    })
                        && (old(self).positions@.contains((hd - max_x) as usize)
                        ==> *final(self) == *old(self))
                }
            }),
    {
        let head = self.get_head_position();

        // Wall collision: the head already sits in the top row.
        if head < max_x {
            return GameResult::WallCollision;
        }

        self.move_and_check(head - max_x, food_position, MovementDirection::North)
    }
}

/// What one grid cell shows once the snake is drawn over a background:
/// head, tail and interior body cells take their labels, every other cell
/// keeps `prev`.
pub open spec fn snake_overlay(p: Seq<usize>, prev: CellType, i: int) -> CellType {
    if p.len() >= 1 && i == p[0] {
        CellType::Head
    } else if p.len() >= 1 && i == p.last() {
        CellType::Tail
    } else if exists|k: int| 1 <= k < p.len() - 1 && p[k] == i {
        CellType::Body
    } else {
        prev
    }
}

/// The label of cell `i` on a fully redrawn grid: the snake drawn over a
/// grid that is empty but for the food cell.
pub open spec fn render_cell(p: Seq<usize>, food: usize, i: int) -> CellType {
    snake_overlay(p, if i == food { CellType::Food } else { CellType::Empty }, i)
}

/// The whole cell sequence agrees with what the snake and food positions
/// dictate.
pub open spec fn grid_rendered(cells: Seq<CellType>, p: Seq<usize>, food: usize) -> bool {
    forall|i: int| 0 <= i < cells.len() ==> cells[i] == render_cell(p, food, i)
}

/// Cells `a` and `b` are one step apart on a grid `w` wide: side by side in
/// the same row, or directly above one another.
pub open spec fn adjacent_cells(a: int, b: int, w: int) -> bool {
    ||| (a / w == b / w && (a == b + 1 || b == a + 1))
    ||| a == b + w
    ||| b == a + w
}

/// Link `i` of the snake is a one-step move: positions `i` and `i + 1` are
/// adjacent on a grid `w` wide.
pub open spec fn link_ok(p: Seq<usize>, w: int, i: int) -> bool {
    adjacent_cells(p[i] as int, p[i + 1] as int, w)
}

/// The food either sits off the snake, or the snake covers every cell of
/// the grid (the one state in which no free cell is left to hold food).
pub open spec fn food_ok(p: Seq<usize>, food: usize, n: int) -> bool {
    !p.contains(food) || (forall|c: usize| (c as int) < n ==> p.contains(c))
}

/// One game session: the grid, the snake, the food, the score, and the
/// pause flag the UI layer reads and writes.
#[derive(Clone, Debug)]
pub struct SnakeGame {
    pub cells: Vec<CellType>,
    pub size: GridSize,
    pub snake: Snake,
    pub food_position: usize,
    pub score_tracker: ScoreTracker,
    pub is_paused: bool,
}

impl SnakeGame {
    /// The number of cells of the grid.
    pub open spec fn n_cells(self) -> int {
        self.size.x * self.size.y
    }

    /// The session invariant: the grid has its full size; the snake is at
    /// least two cells long, fits on the grid, never overlaps itself, and
    /// runs in one-step moves; its stored direction is a real direction;
    /// the food sits on the grid and off the snake (unless the snake covers
    /// everything); the cells show exactly the snake and the food; and the
    /// score cannot overflow before the snake fills the grid.
    pub open spec fn wf(self) -> bool {
        let n = self.n_cells();
        let p = self.snake.positions@;
        &&& self.size.x >= 1
        &&& self.size.y >= 1
        &&& n + self.size.x <= usize::MAX
        &&& self.cells@.len() == n
        &&& p.len() >= 2
        &&& p.len() <= n
        &&& (forall|i: int| 0 <= i < p.len() ==> (p[i] as int) < n)
        &&& p.no_duplicates()
        &&& (forall|i: int| 0 <= i < p.len() - 1 ==> #[trigger] link_ok(p, self.size.x as int, i))
        &&& self.snake.direction != MovementDirection::NoInput
        &&& (self.food_position as int) < n
        &&& food_ok(p, self.food_position, n)
        &&& grid_rendered(self.cells@, p, self.food_position)
        &&& self.score_tracker.spec_score() + n <= usize::MAX + p.len()
    }

    /// Writes the snake's head, tail and body labels into the cells,
    /// leaving every other cell as it was.
    fn add_snake(&mut self)
        requires
            old(self).snake.positions@.len() >= 2,
            old(self).snake.positions@.no_duplicates(),
            forall|i: int|
                0 <= i < old(self).snake.positions@.len() ==> (old(
                    self,
                ).snake.positions@[i] as int) < old(self).cells@.len(),
        ensures
            final(self).snake == old(self).snake,
            final(self).size == old(self).size,
            final(self).food_position == old(self).food_position,
            final(self).score_tracker == old(self).score_tracker,
            final(self).is_paused == old(self).is_paused,
            final(self).cells@.len() == old(self).cells@.len(),
            forall|i: int|
                0 <= i < old(self).cells@.len() ==> final(self).cells@[i] == snake_overlay(
                    old(self).snake.positions@,
                    old(self).cells@[i],
                    i,
                ),
    {
        let ghost p = self.snake.positions@;
        let ghost cells0 = self.cells@;
        let head = self.snake.get_head_position();
        let tail = self.snake.get_tail_position();
        self.cells.set(head, CellType::Head);
        self.cells.set(tail, CellType::Tail);

        // Add body
        let body = self.snake.get_body_positions();
        let mut j: usize = 0;
        while j < body.len()
            invariant
                body@ == p.subrange(1, p.len() - 1),
                p.len() >= 2,
                p.no_duplicates(),
                forall|i: int| 0 <= i < p.len() ==> (p[i] as int) < cells0.len(),
                self.snake.positions@ == p,
                self.snake == old(self).snake,
                self.size == old(self).size,
                self.food_position == old(self).food_position,
                self.score_tracker == old(self).score_tracker,
                self.is_paused == old(self).is_paused,
                j <= body@.len(),
                self.cells@.len() == cells0.len(),
                forall|i: int|
                    0 <= i < cells0.len() ==> self.cells@[i] == ({
                        if p.len() >= 1 && i == p[0] {
                            CellType::Head
                        } else if p.len() >= 1 && i == p.last() {
                            CellType::Tail
                        } else if exists|k: int| 1 <= k < 1 + j && p[k] == i {
                            CellType::Body
                        } else {
                            cells0[i]
                        }
                    }),
            decreases body@.len() - j,
        {
            proof {
                assert(body@[j as int] == p[j + 1]);
                assert((p[j + 1] as int) < cells0.len());
            }
            let pos = body[j];
            self.cells.set(pos, CellType::Body);
            j += 1;
        }
        proof {
            assert forall|i: int| 0 <= i < cells0.len() implies self.cells@[i] == snake_overlay(
                p,
                cells0[i],
                i,
            ) by {
                assert((exists|k: int| 1 <= k < 1 + body@.len() && p[k] == i) == (exists|k: int|
                    1 <= k < p.len() - 1 && p[k] == i));
            }
        }
    }

    /// Rebuilds the whole cell sequence from scratch: everything empty,
    /// then the food cell, then the snake drawn over it. Recomputing the
    /// full grid each tick keeps the rendered state trivially consistent;
    /// the grids are small enough that the linear cost does not matter.
    fn redraw(&mut self)
        requires
            old(self).size.x as int * old(self).size.y as int <= usize::MAX,
            old(self).snake.positions@.len() >= 2,
            old(self).snake.positions@.no_duplicates(),
            forall|i: int|
                0 <= i < old(self).snake.positions@.len() ==> (old(
                    self,
                ).snake.positions@[i] as int) < old(self).n_cells(),
            (old(self).food_position as int) < old(self).n_cells(),
        ensures
            final(self).snake == old(self).snake,
            final(self).size == old(self).size,
            final(self).food_position == old(self).food_position,
            final(self).score_tracker == old(self).score_tracker,
            final(self).is_paused == old(self).is_paused,
            final(self).cells@.len() == old(self).n_cells(),
            grid_rendered(
                final(self).cells@,
                final(self).snake.positions@,
                final(self).food_position,
            ),
    {
        let n_cells = self.size.x * self.size.y;
        self.cells = vec![CellType::Empty; n_cells];
        proof {
            assert(forall|i: int| 0 <= i < n_cells ==> self.cells@[i] == CellType::Empty);
        }
        self.cells.set(self.food_position, CellType::Food);
        self.add_snake();
    }
}

/// Whether some cell of the grid is labelled empty.
pub open spec fn has_empty_cell(cells: Seq<CellType>) -> bool {
    exists|i: int| 0 <= i < cells.len() && cells[i] == CellType::Empty
}

/// Relies on rand::Rng::gen_range on rand::thread_rng, applied to the
/// half-open range `0..bound`: it panics only on an empty range, which
/// `bound >= 1` rules out, and otherwise returns a uniformly distributed
/// value of that range.
#[verifier::external_body]
fn random_below(bound: usize) -> (r: usize)
    requires
        bound >= 1,
    ensures
        r < bound,
{
    rand::thread_rng().gen_range(0..bound)
}

impl SnakeGame {
    /// Picks a new food cell uniformly at random among the cells currently
    /// labelled empty, or reports that none is left.
    fn get_new_food_position(&self) -> (r: Option<usize>)
        ensures
            match r {
                Some(pos) => (pos as int) < self.cells@.len() && self.cells@[pos as int]
                    == CellType::Empty,
                None => forall|i: int|
                    0 <= i < self.cells@.len() ==> self.cells@[i] != CellType::Empty,
            },
    {
        let mut non_snake: Vec<usize> = Vec::new();

        let mut index: usize = 0;
        while index < self.cells.len()
            invariant
                index <= self.cells@.len(),
                forall|j: int|
                    0 <= j < non_snake@.len() ==> (#[trigger] non_snake@[j] as int)
                        < self.cells@.len() && self.cells@[non_snake@[j] as int]
                        == CellType::Empty,
                non_snake@.len() == 0 ==> forall|k: int|
                    0 <= k < index ==> self.cells@[k] != CellType::Empty,
            decreases self.cells@.len() - index,
        {
            match self.cells[index] {
                CellType::Empty => { non_snake.push(index); },
                _ => {},
            }
            index += 1;
        }

        if non_snake.len() == 0 {
            return Option::None;
        }
        let random_index: usize = random_below(non_snake.len());
        Option::Some(non_snake[random_index])
    }

    /// Moves the food to a fresh empty cell, chosen at random, and labels
    /// it. When no empty cell is left (the snake covers the whole grid) the
    /// food position is kept as it is and nothing changes.
    fn add_food(&mut self)
        ensures
            final(self).snake == old(self).snake,
            final(self).size == old(self).size,
            final(self).score_tracker == old(self).score_tracker,
            final(self).is_paused == old(self).is_paused,
            has_empty_cell(old(self).cells@) ==> (final(self).food_position as int) < old(
                self,
            ).cells@.len() && old(self).cells@[final(self).food_position as int]
                == CellType::Empty && final(self).cells@ == old(self).cells@.update(
                final(self).food_position as int,
                CellType::Food,
            ),
            !has_empty_cell(old(self).cells@) ==> *final(self) == *old(self),
    {
        match self.get_new_food_position() {
            Option::Some(new_food_position) => {
                self.food_position = new_food_position;
                self.cells.set(new_food_position, CellType::Food);
            },
            Option::None => {},
        }
    }
}

/// A step that does not hit the wall never leaves the grid: the landing
/// index is in range, and it is a cell adjacent to the head. Steering into
/// the boundary is caught by the wall check before any index is formed.
pub proof fn lemma_step_in_bounds(head: int, d: MovementDirection, w: int, h: int)
    requires
        w >= 1,
        h >= 1,
        0 <= head < w * h,
        !(d is NoInput),
        !hits_wall(head, d, w, h),
    ensures
        0 <= next_head(head, d, w) < w * h,
        adjacent_cells(next_head(head, d, w), head, w),
{
    vstd::arithmetic::div_mod::lemma_fundamental_div_mod(head, w);
    vstd::arithmetic::div_mod::lemma_mod_bound(head, w);
    let q = head / w;
    let r = head % w;
    assert(q < h) by (nonlinear_arith)
        requires
            w >= 1,
            head == w * q + r,
            0 <= r < w,
            head < w * h,
    ;
    assert(0 <= q) by (nonlinear_arith)
        requires
            w >= 1,
            head == w * q + r,
            0 <= r < w,
            head >= 0,
    ;
    match d {
        MovementDirection::East => {
            assert(head + 1 == q * w + (r + 1)) by (nonlinear_arith)
                requires
                    head == w * q + r,
            ;
            vstd::arithmetic::div_mod::lemma_fundamental_div_mod_converse(head + 1, w, q, r + 1);
            assert(head + 1 < w * h) by (nonlinear_arith)
                requires
                    head == w * q + r,
                    r + 1 < w,
                    q <= h - 1,
                    w >= 1,
            ;
        },
        MovementDirection::West => {
            assert(head - 1 == q * w + (r - 1)) by (nonlinear_arith)
                requires
                    head == w * q + r,
            ;
            vstd::arithmetic::div_mod::lemma_fundamental_div_mod_converse(head - 1, w, q, r - 1);
        },
        MovementDirection::South => {
            assert(head + w == (q + 1) * w + r) by (nonlinear_arith)
                requires
                    head == w * q + r,
            ;
            vstd::arithmetic::div_mod::lemma_fundamental_div_mod_converse(head + w, w, q + 1, r);
            assert(head + w < w * h) by (nonlinear_arith)
                requires
                    head == w * q + r,
                    0 <= r < w,
                    q + 1 <= h - 1,
                    w >= 1,
            ;
        },
        MovementDirection::North => {
            assert(q >= 1) by (nonlinear_arith)
                requires
                    head == w * q + r,
                    0 <= r < w,
                    head >= w,
                    w >= 1,
            ;
            assert(head - w == (q - 1) * w + r) by (nonlinear_arith)
                requires
                    head == w * q + r,
            ;
            vstd::arithmetic::div_mod::lemma_fundamental_div_mod_converse(head - w, w, q - 1, r);
        },
        MovementDirection::NoInput => {},
    }
}

/// A sequence of distinct grid indices, all below `n`, holds at most `n`
/// entries: a snake can never be longer than the grid has cells.
pub proof fn lemma_distinct_bounded_len(s: Seq<usize>, n: int)
    requires
        n >= 0,
        s.no_duplicates(),
        forall|i: int| 0 <= i < s.len() ==> (s[i] as int) < n,
    ensures
        s.len() <= n,
{
    broadcast use vstd::seq_lib::seq_to_set_is_finite;

    let f = |u: usize| u as int;
    assert(vstd::relations::injective(f)) by {
        assert forall|a: usize, b: usize| #[trigger] f(a) == #[trigger] f(b) implies a == b by {}
    }
    s.lemma_no_duplicates_injective(f);
    let si = s.map_values(f);
    si.unique_seq_to_set();
    vstd::set_lib::lemma_int_range(0, n);
    assert(si.to_set().subset_of(vstd::set_lib::set_int_range(0, n))) by {
        assert forall|x: int| si.to_set().contains(x) implies vstd::set_lib::set_int_range(
            0,
            n,
        ).contains(x) by {
            let i = choose|i: int| 0 <= i < si.len() && si[i] == x;
            assert(si[i] == f(s[i]));
        }
    }
    vstd::set_lib::lemma_len_subset(si.to_set(), vstd::set_lib::set_int_range(0, n));
}

impl SnakeGame {
    /// Starts a session: a four-cell snake laid out on one row just past
    /// the middle of the grid, travelling east, food on a random empty
    /// cell, score as handed in, not paused. The grid must be large enough
    /// to hold that layout: at least ten cells, with the starting row
    /// giving the snake room, which every preset satisfies.
    pub fn new(options: Options, score_tracker: ScoreTracker) -> (game: Self)
        requires
            options.size.x >= 1,
            options.size.y >= 1,
            options.size.x as int * options.size.y as int + options.size.x as int <= usize::MAX,
            (options.size.x as int * options.size.y as int) / 2 + 4 < options.size.x as int
                * options.size.y as int,
            ((options.size.x as int * options.size.y as int) / 2 + 4) % (options.size.x as int)
                >= 3,
            score_tracker.spec_score() + options.size.x as int * options.size.y as int
                <= usize::MAX + 4,
        ensures
            game.wf(),
            game.size == options.size,
            game.score_tracker == score_tracker,
            game.is_paused == false,
            game.snake.direction == MovementDirection::East,
            game.snake.positions@.len() == 4,
            forall|i: int|
                0 <= i < 4 ==> game.snake.positions@[i] as int == game.n_cells() / 2 + 4 - i,
            !game.snake.positions@.contains(game.food_position),
    {
        let size = options.size;
        let n_cells = size.x * size.y;

        // Snake
        let snake_index = n_cells / 2 + 4;
        proof {
            assert(n_cells as int / 2 >= 0) by (nonlinear_arith)
                requires
                    n_cells >= 0,
            ;
        }
        let mut snake_positions: Vec<usize> = Vec::new();
        snake_positions.push(snake_index);
        snake_positions.push(snake_index - 1);
        snake_positions.push(snake_index - 2);
        snake_positions.push(snake_index - 3);

        let snake = Snake { positions: snake_positions, direction: MovementDirection::East };
        let mut board: SnakeGame = SnakeGame {
            cells: vec![CellType::Empty; n_cells as usize],
            size,
            snake,
            food_position: 15,
            score_tracker,
            is_paused: false,
        };
        proof {
            assert(forall|i: int| 0 <= i < n_cells ==> board.cells@[i] == CellType::Empty);
        }
        board.add_snake();
        proof {
            let p = board.snake.positions@;
            let n = n_cells as int;
            // The cell just behind the snake's tail is free, so food can be
            // placed.
            assert(board.cells@[n / 2] == snake_overlay(p, CellType::Empty, n / 2));
            assert(board.cells@[n / 2] == CellType::Empty);
            assert(has_empty_cell(board.cells@));
        }
        board.add_food();
        proof {
            let p = board.snake.positions@;
            let n = n_cells as int;
            let w = size.x as int;
            let si = board.snake.positions@[0] as int;
            let food = board.food_position as int;
            // The four starting cells lie on one row, so each pair of
            // neighbours in the list is one east-west step apart.
            vstd::arithmetic::div_mod::lemma_fundamental_div_mod(si, w);
            vstd::arithmetic::div_mod::lemma_mod_bound(si, w);
            let q = si / w;
            let r = si % w;
            assert(si - 1 == q * w + (r - 1) && si - 2 == q * w + (r - 2) && si - 3 == q * w + (r
                - 3)) by (nonlinear_arith)
                requires
                    si == w * q + r,
            ;
            vstd::arithmetic::div_mod::lemma_fundamental_div_mod_converse(si - 1, w, q, r - 1);
            vstd::arithmetic::div_mod::lemma_fundamental_div_mod_converse(si - 2, w, q, r - 2);
            vstd::arithmetic::div_mod::lemma_fundamental_div_mod_converse(si - 3, w, q, r - 3);
            assert forall|i: int| 0 <= i < p.len() - 1 implies #[trigger] link_ok(p, w, i) by {
                assert((p[i] as int) / w == (p[i + 1] as int) / w);
            }
            // The redrawn cells agree with the rendering rule.
            assert forall|i: int| 0 <= i < board.cells@.len() implies board.cells@[i]
                == render_cell(p, board.food_position, i) by {}
        }
        board
    }
}

impl SnakeGame {
    /// The direction the snake is currently travelling.
    pub fn get_direction(&self) -> (r: &MovementDirection)
        ensures
            *r == self.snake.direction,
    {
        &self.snake.direction
    }

    /// The score of this session so far.
    pub fn get_last_score(&self) -> (r: &usize)
        ensures
            *r == self.score_tracker.spec_score(),
    {
        self.score_tracker.get_last_score()
    }

    /// One tick: resolve the requested direction against the current one,
    /// step the snake, and classify the outcome. A wall or self collision
    /// is terminal and leaves the whole session untouched. An ordinary move
    /// advances the snake and redraws the grid. Eating food grows the
    /// snake, adds one point, moves the food to a random free cell, and
    /// redraws the grid.
    #[verifier::rlimit(60)]
    pub fn move_forward(&mut self, moved_direction: MovementDirection) -> (r: GameResult)
        requires
            old(self).wf(),
        ensures
            final(self).wf(),
            final(self).size == old(self).size,
            final(self).is_paused == old(self).is_paused,
            final(self).cells@.len() == old(self).cells@.len(),
            ({
                let e = effective_direction(moved_direction, old(self).snake.direction);
                let hd = old(self).snake.positions@[0] as int;
                let w = old(self).size.x as int;
                let h = old(self).size.y as int;
                let p = old(self).snake.positions@;
                let food = old(self).food_position;
                let nx = next_head(hd, e, w);
                if hits_wall(hd, e, w, h) {
                    r == GameResult::WallCollision && *final(self) == *old(self)
                } else {
                    &&& r == step_result(p, nx as usize, food)
                    &&& snake_step(p, final(self).snake.positions@, nx as usize, food)
                    &&& (r == GameResult::SnakeCollision ==> *final(self) == *old(self))
                    &&& (r != GameResult::SnakeCollision ==> final(self).snake.direction == e)
                    &&& (r == GameResult::Continue ==> {
                        &&& final(self).snake.positions@.len() == p.len()
                        &&& final(self).food_position == food
                        &&& final(self).score_tracker == old(self).score_tracker
                    })
                    &&& (r == GameResult::Food ==> {
                        &&& final(self).snake.positions@.len() == p.len() + 1
                        &&& final(self).score_tracker.spec_score() == old(
                            self,
                        ).score_tracker.spec_score() + 1
                        &&& food_ok(
                            final(self).snake.positions@,
                            final(self).food_position,
                            old(self).n_cells(),
                        )
                    })
                }
            }),
    {
        let ghost e = effective_direction(moved_direction, old(self).snake.direction);
        let ghost hd = old(self).snake.positions@[0] as int;
        let ghost w = old(self).size.x as int;
        let ghost h = old(self).size.y as int;
        let ghost p = old(self).snake.positions@;
        let ghost food = old(self).food_position;
        let ghost n = old(self).n_cells();

        let game_result = match moved_direction {
            // Nothing pressed
            MovementDirection::NoInput => {
                match self.snake.direction {
                    MovementDirection::East => {
                        self.snake.move_east(self.food_position, self.size.x)
                    },
                    MovementDirection::West => {
                        self.snake.move_west(self.food_position, self.size.x)
                    },
                    MovementDirection::North => {
                        self.snake.move_north(self.food_position, self.size.x)
                    },
                    MovementDirection::South => {
                        self.snake.move_south(self.food_position, self.size.x, self.size.y)
                    },
                    _ => {
                        // A well-formed session never stores NoInput as its
                        // travel direction, so this arm cannot be reached.
                        proof {
                            assert(false);
                        }
                        GameResult::Continue
                    },
                }
            },
            // Pressing left
            MovementDirection::West => {
                match self.snake.direction {
                    MovementDirection::East => {
                        self.snake.move_east(self.food_position, self.size.x)
                    },
                    _ => { self.snake.move_west(self.food_position, self.size.x) },
                }
            },
            // Pressing right
            MovementDirection::East => {
                match self.snake.direction {
                    MovementDirection::West => {
                        self.snake.move_west(self.food_position, self.size.x)
                    },
                    _ => { self.snake.move_east(self.food_position, self.size.x) },
                }
            },
            // Pressing up
            MovementDirection::North => {
                match self.snake.direction {
                    MovementDirection::South => {
                        self.snake.move_south(self.food_position, self.size.x, self.size.y)
                    },
                    _ => { self.snake.move_north(self.food_position, self.size.x) },
                }
            },
            // Pressing down
            MovementDirection::South => {
                match self.snake.direction {
                    MovementDirection::North => {
                        self.snake.move_north(self.food_position, self.size.x)
                    },
                    _ => { self.snake.move_south(self.food_position, self.size.x, self.size.y) },
                }
            },
        };

        proof {
            if !hits_wall(hd, e, w, h) {
                lemma_step_in_bounds(hd, e, w, h);
            }
        }
        let ghost nxu = next_head(hd, e, w) as usize;

        match game_result {
            GameResult::SnakeCollision => {
                return game_result;
            },
            GameResult::WallCollision => {
                return game_result;
            },
            GameResult::Food => {
                proof {
                    // The grown snake still has distinct cells, so it fits
                    // on the grid, which bounds the score away from
                    // overflow.
                    let p2 = self.snake.positions@;
                    assert(p2 == seq![nxu] + p);
                    assert(p2.no_duplicates()) by {
                        assert(forall|i: int| 0 <= i < p.len() ==> p2[i + 1] == p[i]);
                        assert(p2[0] == nxu && !p.contains(nxu));
                    }
                    assert(forall|i: int| 0 <= i < p2.len() ==> (p2[i] as int) < n) by {
                        assert(forall|i: int| 0 <= i < p.len() ==> p2[i + 1] == p[i]);
                    }
                    lemma_distinct_bounded_len(p2, n);
                }
                self.score_tracker.update_last_score_by(1);
                self.add_food();
            },
            _ => {},
        }

        proof {
            let p2 = self.snake.positions@;
            // The stepped snake: distinct cells, on the grid, linked by
            // one-step moves, no longer than the grid.
            if game_result is Food {
                assert(p2 == seq![nxu] + p);
                assert(forall|i: int| 0 <= i < p.len() ==> p2[i + 1] == p[i]);
            } else {
                assert(p2 == seq![nxu] + p.drop_last());
                assert(forall|i: int| 0 <= i < p.len() - 1 ==> p2[i + 1] == p[i]);
                assert(forall|i: int| 0 <= i < p.len() - 1 ==> p.drop_last().contains(p[i]))
                    by {
                    assert(forall|i: int|
                        0 <= i < p.len() - 1 ==> p.drop_last()[i] == p[i]);
                }
                assert(forall|x: usize| p.drop_last().contains(x) ==> p.contains(x)) by {
                    assert(forall|i: int|
                        0 <= i < p.len() - 1 ==> p.drop_last()[i] == p[i]);
                }
            }
            assert(p2[0] == nxu);
            assert(p2.no_duplicates()) by {
                assert(!p.contains(nxu));
            }
            assert(forall|i: int| 0 <= i < p2.len() ==> (p2[i] as int) < n);
            assert(p2.len() <= n) by {
                if game_result is Food {
                } else {
                    lemma_distinct_bounded_len(p, n);
                }
            }
            assert forall|i: int| 0 <= i < p2.len() - 1 implies #[trigger] link_ok(p2, w, i) by {
                if i == 0 {
                    assert(adjacent_cells(nxu as int, hd, w));
                    assert(p2[1] == p[0]);
                } else {
                    assert(p2[i] == p[i - 1]);
                    assert(p2[i + 1] == p[i]);
                    assert(link_ok(p, w, i - 1));
                }
            }
            // The food stays off the snake, or the snake covers the grid.
            if game_result is Food {
                let stale = old(self).cells@;
                if has_empty_cell(stale) {
                    let f2 = self.food_position;
                    assert(stale[f2 as int] == render_cell(p, food, f2 as int));
                    assert(!p2.contains(f2)) by {
                        assert(!p.contains(f2) && f2 != nxu);
                        assert(forall|i: int| 0 <= i < p.len() ==> p2[i + 1] == p[i]);
                    }
                } else {
                    assert(forall|c: usize| (c as int) < n ==> p2.contains(c)) by {
                        assert forall|c: usize| (c as int) < n implies p2.contains(c) by {
                            assert(stale[c as int] == render_cell(p, food, c as int));
                            assert(stale[c as int] != CellType::Empty);
                            if c == food {
                                assert(p2[0] == c);
                            } else {
                                let k = choose|k: int|
                                    0 <= k < p.len() && p[k] == c;
                                assert(p2[k + 1] == c);
                            }
                        }
                    }
                }
            } else {
                assert(food != nxu);
                if p.contains(food) {
                    assert(forall|c: usize| (c as int) < n ==> p.contains(c));
                    assert(p.contains(nxu));
                    assert(false);
                }
                assert(!p2.contains(self.food_position));
            }
        }

        self.redraw();
        game_result
    }
}

/// A snake that covers every cell of an `n`-cell grid is at least `n`
/// long.
pub proof fn lemma_cover_bounded_len(s: Seq<usize>, n: int)
    requires
        0 <= n <= usize::MAX,
        forall|c: usize| (c as int) < n ==> s.contains(c),
    ensures
        s.len() >= n,
{
    broadcast use vstd::seq_lib::seq_to_set_is_finite;

    let f = |u: usize| u as int;
    let si = s.map_values(f);
    assert(vstd::set_lib::set_int_range(0, n).subset_of(si.to_set())) by {
        assert forall|x: int| vstd::set_lib::set_int_range(0, n).contains(x) implies si.to_set()
            .contains(x) by {
            let c = x as usize;
            assert(c as int == x);
            assert(s.contains(c));
            let i = choose|i: int| 0 <= i < s.len() && s[i] == c;
            assert(si[i] == f(s[i]));
            assert(si.contains(x));
        }
    }
    vstd::set_lib::lemma_int_range(0, n);
    vstd::set_lib::lemma_len_subset(vstd::set_lib::set_int_range(0, n), si.to_set());
    si.lemma_cardinality_of_set();
}

/// Whenever the session invariant holds and the snake has not yet filled
/// the grid, exactly one cell is labelled `Head` and exactly one cell is
/// labelled `Food`. (A snake covering the whole grid leaves no cell free
/// to show food; that is the only exception.)
pub proof fn lemma_one_head_one_food(g: SnakeGame)
    requires
        g.wf(),
        g.snake.positions@.len() < g.n_cells(),
    ensures
        g.cells@[g.snake.positions@[0] as int] == CellType::Head,
        forall|i: int|
            0 <= i < g.cells@.len() && i != g.snake.positions@[0] as int ==> g.cells@[i]
                != CellType::Head,
        g.cells@[g.food_position as int] == CellType::Food,
        forall|i: int|
            0 <= i < g.cells@.len() && i != g.food_position as int ==> g.cells@[i]
                != CellType::Food,
{
    let p = g.snake.positions@;
    let n = g.n_cells();
    let food = g.food_position;
    if p.contains(food) {
        // Food on the snake would mean the snake covers the whole grid,
        // which its length rules out.
        assert(forall|c: usize| (c as int) < n ==> p.contains(c));
        lemma_cover_bounded_len(p, n);
        assert(false);
    }
    assert(g.cells@[p[0] as int] == render_cell(p, food, p[0] as int));
    assert(g.cells@[food as int] == render_cell(p, food, food as int));
    assert(render_cell(p, food, food as int) == CellType::Food) by {
        assert(!(exists|k: int| 1 <= k < p.len() - 1 && p[k] == food as int)) by {
            if exists|k: int| 1 <= k < p.len() - 1 && p[k] == food as int {
                let k = choose|k: int| 1 <= k < p.len() - 1 && p[k] == food as int;
                assert(p.contains(p[k]));
            }
        }
        assert(food as int != p[0] as int && food as int != p.last() as int) by {
            assert(p.contains(p[0]) && p.contains(p.last()));
        }
    }
    assert forall|i: int|
        0 <= i < g.cells@.len() && i != g.food_position as int implies g.cells@[i]
        != CellType::Food by {
        assert(g.cells@[i] == render_cell(p, food, i));
    }
    assert forall|i: int|
        0 <= i < g.cells@.len() && i != g.snake.positions@[0] as int implies g.cells@[i]
        != CellType::Head by {
        assert(g.cells@[i] == render_cell(p, food, i));
    }
}

/// An input exactly opposite to the snake's travel direction is ignored:
/// the snake travels as it would have with no input at all, so it can
/// never reverse into its own neck cell.
pub proof fn lemma_opposite_input_ignored(current: MovementDirection)
    requires
        current != MovementDirection::NoInput,
    ensures
        effective_direction(opposite_direction(current), current) == effective_direction(
            MovementDirection::NoInput,
            current,
        ),
        effective_direction(MovementDirection::NoInput, current) == current,
{
}

} // verus!
