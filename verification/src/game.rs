//! The game engine: snake state, the per-tick transition, and food placement.

use vstd::prelude::*;

use crate::common::{allows_spec, step_pos, CellField, Direction, Position};
use crate::grid::{wall_at, Grid};

verus! {

/// A terminal collision, carrying the computed new head position.
#[derive(Debug, Clone, Copy, PartialEq, Eq, Structural)]
pub enum SnakeError {
    OnWall(Position),
    OnSnake(Position),
}

/// A read-only projection of the engine state at a tick boundary.
#[derive(Debug)]
pub struct SnakeGameSnapshot {
    /// The snake from head to tail: `[head, body...]`.
    pub snake: Vec<Position>,
    pub food: Position,
    /// Whether the tick that produced this snapshot ate the food.
    pub food_ate: bool,
}

/// The mathematical value of a snapshot.
#[verifier::ext_equal]
pub struct SnapshotModel {
    pub snake: Seq<Position>,
    pub food: Position,
    pub food_ate: bool,
}

impl View for SnakeGameSnapshot {
    type V = SnapshotModel;

    open spec fn view(&self) -> SnapshotModel {
        SnapshotModel { snake: self.snake@, food: self.food, food_ate: self.food_ate }
    }
}

/// The mathematical value of the whole engine state.
#[verifier::ext_equal]
pub struct GameModel {
    /// Rows of cells, indexed by `y` then `x`.
    pub grid: Seq<Seq<CellField>>,
    pub width: nat,
    pub height: nat,
    /// The head position.
    pub head: Position,
    /// Body segments ordered neck to tail; the head is not among them.
    pub body: Seq<Position>,
    pub food: Position,
    pub direction: Direction,
    /// Pending segment additions: while positive, a tick grows the snake
    /// instead of dragging the tail.
    pub growth: nat,
}

/// Whether `p` is out of bounds or on a wall cell of `m`'s grid.
pub open spec fn on_walls_model(m: GameModel, p: Position) -> bool {
    wall_at(m.grid, m.width, m.height, p)
}

/// The direction a tick really moves in: the request, unless it exactly
/// reverses the current direction, which is ignored.
pub open spec fn resolved_direction(cur: Direction, req: Direction) -> Direction {
    if allows_spec(cur, req) {
        req
    } else {
        cur
    }
}

/// The body after the per-tick shift, given the head's pre-move position.
/// While growth is pending the old head position is prepended and nothing
/// is dropped; otherwise the tail is dropped and the old head position
/// prepended, so the body follows the head with a one-tick lag.
pub open spec fn shifted_body(head: Position, body: Seq<Position>, growth: nat) -> Seq<Position> {
    if growth > 0 {
        seq![head] + body
    } else if body.len() == 0 {
        body
    } else {
        seq![head] + body.drop_last()
    }
}

/// The growth counter after the per-tick shift.
pub open spec fn shifted_growth(growth: nat) -> nat {
    if growth > 0 {
        (growth - 1) as nat
    } else {
        0
    }
}

/// The state after the body shift and the head move of a tick, before any
/// collision or food check. Food, direction and grid are untouched.
pub open spec fn moved_model(m: GameModel, req: Direction) -> GameModel {
    GameModel {
        head: step_pos(m.head, resolved_direction(m.direction, req)),
        body: shifted_body(m.head, m.body, m.growth),
        growth: shifted_growth(m.growth),
        ..m
    }
}

/// Whether `p` may receive new food in state `m`: on the grid, not a wall,
/// and not occupied by the snake's head or body.
pub open spec fn food_cell_free(m: GameModel, p: Position) -> bool {
    &&& !on_walls_model(m, p)
    &&& !m.body.contains(p)
    &&& p != m.head
}

/// Whether any cell of `m` may receive new food.
pub open spec fn has_free_cell(m: GameModel) -> bool {
    exists|p: Position| food_cell_free(m, p)
}

/// Whether the tick `(m, req)` moves the head onto the food (and hits
/// neither a wall nor the body).
pub open spec fn eats(m: GameModel, req: Direction) -> bool {
    let m1 = moved_model(m, req);
    &&& !on_walls_model(m, m1.head)
    &&& !m1.body.contains(m1.head)
    &&& m1.head == m.food
}

/// The snapshot of state `m` with the given `food_ate` flag.
pub open spec fn snapshot_model(m: GameModel, food_ate: bool) -> SnapshotModel {
    SnapshotModel { snake: seq![m.head] + m.body, food: m.food, food_ate }
}

/// One tick of the game as a mathematical function.
///
/// `new_food` stands for the food cell drawn by the random source; it is
/// consulted only on the tick that eats the food, and only while some cell
/// is still free (on a saturated board the food stays where it was). The
/// result is the state after the tick and what the tick returns.
///
/// A collision is reported after the body shift and head move are applied,
/// and leaves the stored direction and food untouched; the two checks come
/// in that order, so a position both on a wall and on the body reports the
/// wall.
pub open spec fn play_step(m: GameModel, req: Direction, new_food: Position) -> (
    GameModel,
    Result<SnapshotModel, SnakeError>,
) {
    let dir = resolved_direction(m.direction, req);
    let m1 = moved_model(m, req);
    if on_walls_model(m, m1.head) {
        (m1, Err(SnakeError::OnWall(m1.head)))
    } else if m1.body.contains(m1.head) {
        (m1, Err(SnakeError::OnSnake(m1.head)))
    } else {
        let ate = m1.head == m.food;
        let food2 = if ate && has_free_cell(m1) {
            new_food
        } else {
            m.food
        };
        let growth2: nat = if ate {
            1
        } else {
            m1.growth
        };
        let m2 = GameModel { food: food2, growth: growth2, direction: dir, ..m1 };
        (m2, Ok(SnapshotModel { snake: seq![m1.head] + m1.body, food: food2, food_ate: ate }))
    }
}

/// Free food cells depend only on the grid and the snake, not on the food,
/// the direction or the growth counter.
proof fn lemma_free_cells_congruent(m1: GameModel, m2: GameModel)
    requires
        m1.grid == m2.grid,
        m1.width == m2.width,
        m1.height == m2.height,
        m1.head == m2.head,
        m1.body == m2.body,
    ensures
        forall|p: Position| food_cell_free(m1, p) == food_cell_free(m2, p),
        has_free_cell(m1) == has_free_cell(m2),
{
    assert forall|p: Position| food_cell_free(m1, p) == food_cell_free(m2, p) by {
        assert(on_walls_model(m1, p) == on_walls_model(m2, p));
    }
    if has_free_cell(m1) {
        let p = choose|p: Position| food_cell_free(m1, p);
        assert(food_cell_free(m2, p));
    }
    if has_free_cell(m2) {
        let p = choose|p: Position| food_cell_free(m2, p);
        assert(food_cell_free(m1, p));
    }
}

/// Relies on fastrand::usize: a draw over a nonempty range `0..n` returns
/// a value in it, uniformly. The draw consumes the thread-local generator,
/// so nothing beyond the bound is promised of the value.
#[verifier::external_body]
fn random_below(n: usize) -> (r: usize)
    requires
        n > 0,
    ensures
        r < n,
{
    fastrand::usize(0..n)
}

/// The game engine. It owns the map and the snake, and is advanced one
/// tick at a time by `play`.
#[derive(Debug)]
pub struct SnakeGame {
    pub map: Grid,
    pub snake_head: Position,
    /// Body segments ordered neck to tail, head excluded.
    pub snake_body: Vec<Position>,
    pub food: Position,
    pub direction: Direction,
    /// Pending segment additions after eating.
    pub increment_size: usize,
}

impl View for SnakeGame {
    type V = GameModel;

    open spec fn view(&self) -> GameModel {
        GameModel {
            grid: self.map.cells(),
            width: self.map.width as nat,
            height: self.map.height as nat,
            head: self.snake_head,
            body: self.snake_body@,
            food: self.food,
            direction: self.direction,
            growth: self.increment_size as nat,
        }
    }
}

impl SnakeGame {
    /// The engine's map is a well-formed rectangle.
    pub open spec fn wf(&self) -> bool {
        self.map.wf()
    }

    /// The map's `(width, height)`.
    pub fn dimension(&self) -> (r: (usize, usize))
        ensures
            r.0 == self@.width,
            r.1 == self@.height,
    {
        (self.map.width, self.map.height)
    }

    /// Whether `position` is out of bounds or on a wall cell.
    pub fn on_walls(&self, position: &Position) -> (r: bool)
        requires
            self.wf(),
        ensures
            r == on_walls_model(self@, *position),
    {
        self.map.on_walls(position)
    }

    /// Whether `position` is the current food cell.
    fn on_food(&self, position: &Position) -> (r: bool)
        ensures
            r == (*position == self@.food),
    {
        *position == self.food
    }

    /// Whether `position` lies on some body segment.
    fn on_snake_body(&self, position: &Position) -> (r: bool)
        ensures
            r == self@.body.contains(*position),
    {
        let mut i: usize = 0;
        while i < self.snake_body.len()
            invariant
                i <= self.snake_body.len(),
                forall|j: int| 0 <= j < i ==> self.snake_body@[j] != *position,
            decreases self.snake_body.len() - i,
        {
            if self.snake_body[i] == *position {
                return true;
            }
            i += 1;
        }
        false
    }

    /// The current state as a snapshot with the given `food_ate` flag.
    fn snapshot_with_food_ate(&self, food_ate: bool) -> (r: SnakeGameSnapshot)
        ensures
            r@ == snapshot_model(self@, food_ate),
    {
        let mut snake_snapshot: Vec<Position> = Vec::new();
        snake_snapshot.push(self.snake_head);
        let mut i: usize = 0;
        while i < self.snake_body.len()
            invariant
                i <= self.snake_body.len(),
                snake_snapshot@ == seq![self.snake_head] + self.snake_body@.take(i as int),
            decreases self.snake_body.len() - i,
        {
            snake_snapshot.push(self.snake_body[i]);
            assert(self.snake_body@.take(i + 1) =~= self.snake_body@.take(i as int).push(
                self.snake_body@[i as int],
            ));
            i += 1;
        }
        assert(self.snake_body@.take(self.snake_body@.len() as int) =~= self.snake_body@);
        let r = SnakeGameSnapshot { food: self.food, snake: snake_snapshot, food_ate };
        assert(r@ =~= snapshot_model(self@, food_ate));
        r
    }

    /// Moves the head one unit step in `direction`; nothing else changes.
    fn move_head(&mut self, direction: &Direction)
        ensures
            final(self).snake_head == step_pos(old(self).snake_head, *direction),
            final(self).map == old(self).map,
            final(self).snake_body == old(self).snake_body,
            final(self).food == old(self).food,
            final(self).direction == old(self).direction,
            final(self).increment_size == old(self).increment_size,
    {
        match direction {
            Direction::Up => {
                self.snake_head.y = if self.snake_head.y == usize::MAX {
                    0
                } else {
                    self.snake_head.y + 1
                };
            },
            Direction::Down => {
                self.snake_head.y = if self.snake_head.y == 0 {
                    usize::MAX
                } else {
                    self.snake_head.y - 1
                };
            },
            Direction::Left => {
                self.snake_head.x = if self.snake_head.x == 0 {
                    usize::MAX
                } else {
                    self.snake_head.x - 1
                };
            },
            Direction::Right => {
                self.snake_head.x = if self.snake_head.x == usize::MAX {
                    0
                } else {
                    self.snake_head.x + 1
                };
            },
        }
    }

    /// Shifts the body for one tick: while growth is pending a new segment
    /// appears at the head's pre-move position, otherwise the tail segment
    /// is moved there. The head itself does not change.
    fn move_body(&mut self)
        ensures
            final(self).snake_body@ == shifted_body(
                old(self).snake_head,
                old(self).snake_body@,
                old(self).increment_size as nat,
            ),
            final(self).increment_size as nat == shifted_growth(old(self).increment_size as nat),
            final(self).map == old(self).map,
            final(self).snake_head == old(self).snake_head,
            final(self).food == old(self).food,
            final(self).direction == old(self).direction,
    {
        if self.increment_size > 0 {
            let new_piece = self.snake_head;
            self.snake_body.insert(0, new_piece);
            self.increment_size -= 1;
            assert(self.snake_body@ =~= seq![self.snake_head] + old(self).snake_body@);
        } else {
            let mut tail = match self.snake_body.pop() {
                // The snake is just its head, so nothing to do.
                None => {
                    return ;
                },
                Some(p) => p,
            };
            tail.x = self.snake_head.x;
            tail.y = self.snake_head.y;
            self.snake_body.insert(0, tail);
            assert(self.snake_body@ =~= seq![self.snake_head] + old(
                self,
            ).snake_body@.drop_last());
        }
    }

    /// The current state as a snapshot; a pure read, with `food_ate` false.
    pub fn snapshot(&self) -> (r: SnakeGameSnapshot)
        ensures
            r@ == snapshot_model(self@, false),
    {
        self.snapshot_with_food_ate(false)
    }

    /// Picks a cell for new food, uniformly at random among the cells that
    /// are on the grid, not walls, and not occupied by the snake's head or
    /// body. Returns `None` exactly when the snake saturates the board and
    /// no such cell is left.
    fn create_new_food(&self) -> (r: Option<Position>)
        requires
            self.wf(),
        ensures
            r is Some <==> has_free_cell(self@),
            r matches Some(p) ==> food_cell_free(self@, p),
    {
        let mut free: Vec<Position> = Vec::new();
        let mut y: usize = 0;
        while y < self.map.height
            invariant
                self.wf(),
                y <= self.map.height,
                forall|i: int|
                    0 <= i < free@.len() ==> food_cell_free(self@, #[trigger] free@[i]),
                forall|p: Position|
                    (#[trigger] food_cell_free(self@, p)) && p.y < y ==> free@.contains(p),
            decreases self.map.height - y,
        {
            let mut x: usize = 0;
            while x < self.map.width
                invariant
                    self.wf(),
                    y < self.map.height,
                    x <= self.map.width,
                    forall|i: int|
                        0 <= i < free@.len() ==> food_cell_free(self@, #[trigger] free@[i]),
                    forall|p: Position|
                        (#[trigger] food_cell_free(self@, p)) && (p.y < y || (p.y == y && p.x < x))
                            ==> free@.contains(p),
                decreases self.map.width - x,
            {
                let position = Position::new(x, y);
                let ghost free0 = free@;
                let occupied = self.on_snake_body(&position) || self.on_walls(&position)
                    || self.snake_head == position;
                if !occupied {
                    free.push(position);
                }
                proof {
                    assert forall|p: Position|
                        (#[trigger] food_cell_free(self@, p)) && (p.y < y || (p.y == y && p.x < x
                            + 1)) implies free@.contains(p) by {
                        if p.y == y && p.x == x {
                            assert(p == position);
                            assert(!occupied);
                            assert(free@ == free0.push(position));
                            assert(free@[free0.len() as int] == p);
                        } else {
                            assert(free0.contains(p));
                            let idx = choose|i: int| 0 <= i < free0.len() && free0[i] == p;
                            assert(free@[idx] == p);
                        }
                    }
                }
                x += 1;
            }
            y += 1;
        }
        if free.len() == 0 {
            proof {
                assert forall|p: Position| !food_cell_free(self@, p) by {
                    if food_cell_free(self@, p) {
                        assert(p.y < self@.height);
                        assert(free@.contains(p));
                    }
                }
            }
            None
        } else {
            let i = random_below(free.len());
            let chosen = free[i];
            proof {
                assert(food_cell_free(self@, chosen));
            }
            Some(chosen)
        }
    }

    /// Advances the game one tick in the requested direction, which is
    /// ignored when it exactly reverses the current one. The body shifts,
    /// the head moves one step, and a wall or self collision is reported
    /// with the computed head position, the shift staying applied. On a
    /// collision-free tick that lands on the food, the snake is set to grow
    /// and new food is drawn at random from the free cells; the returned
    /// snapshot reports the tick.
    pub fn play(&mut self, direction: Direction) -> (r: Result<SnakeGameSnapshot, SnakeError>)
        requires
            old(self).wf(),
        ensures
            final(self).wf(),
            final(self)@ == play_step(old(self)@, direction, final(self)@.food).0,
            (match r {
                Ok(snapshot) => play_step(old(self)@, direction, final(self)@.food).1 == Ok::<
                    SnapshotModel,
                    SnakeError,
                >(snapshot@),
                Err(e) => play_step(old(self)@, direction, final(self)@.food).1 == Err::<
                    SnapshotModel,
                    SnakeError,
                >(e),
            }),
            eats(old(self)@, direction) && has_free_cell(moved_model(old(self)@, direction))
                ==> food_cell_free(moved_model(old(self)@, direction), final(self)@.food),
    {
        // An illegal reversal is ignored: the current direction is kept.
        let dir = if !self.direction.allows(&direction) {
            self.direction
        } else {
            direction
        };
        self.move_body();
        self.move_head(&dir);
        proof {
            assert(self@ =~~= moved_model(old(self)@, direction));
        }
        let new_head = self.snake_head;
        if self.on_walls(&new_head) {
            return Err(SnakeError::OnWall(new_head));
        }
        if self.on_snake_body(&new_head) {
            return Err(SnakeError::OnSnake(new_head));
        }
        let food_ate = self.on_food(&new_head);
        proof {
            assert(food_ate == eats(old(self)@, direction));
        }
        let ghost m1 = self@;
        if food_ate {
            self.increment_size = 1;
            proof {
                lemma_free_cells_congruent(self@, m1);
            }
            match self.create_new_food() {
                Some(food) => {
                    proof {
                        assert(has_free_cell(m1));
                        assert(food_cell_free(m1, food));
                    }
                    self.food = food;
                },
                // The board is saturated: the food stays where it was.
                None => {
                    proof {
                        assert(!has_free_cell(m1));
                    }
                },
            }
        }
        self.direction = dir;
        let snap = self.snapshot_with_food_ate(food_ate);
        proof {
            assert(self@ =~~= play_step(old(self)@, direction, self@.food).0);
        }
        Ok(snap)
    }
}

} // verus!
