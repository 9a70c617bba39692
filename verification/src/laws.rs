//! General properties of the engine, stated over the spec-level models and
//! proved once for all inputs.

use vstd::prelude::*;

use crate::common::{allows_spec, opposite, Direction, Position};
use crate::game::{
    eats, moved_model, play_step, snapshot_model, GameModel, SnakeError, SnapshotModel,
};
use crate::grid::wall_at;
use crate::parse::{spec_level, spec_lines, spec_pair, spec_positions};

verus! {

/// Parsing a well-formed level and reading a snapshot reproduces the
/// declared head, body (in declared order) and food position exactly, with
/// no tick reported as having eaten.
pub proof fn lemma_parse_then_snapshot(s: Seq<u8>)
    requires
        spec_level(s) is Some,
    ensures
        ({
            let m = spec_level(s).unwrap();
            let ls = spec_lines(s);
            let h = spec_pair(ls[0]).unwrap().1;
            let snap = snapshot_model(m, false);
            &&& snap.snake == spec_positions(ls[h + 2]).unwrap()
            &&& snap.food == (Position {
                x: spec_pair(ls[h + 1]).unwrap().0,
                y: spec_pair(ls[h + 1]).unwrap().1,
            })
            &&& !snap.food_ate
        }),
{
    let m = spec_level(s).unwrap();
    let ls = spec_lines(s);
    let h = spec_pair(ls[0]).unwrap().1;
    let declared = spec_positions(ls[h + 2]).unwrap();
    assert(snapshot_model(m, false).snake =~= declared);
}

/// A tick in a non-reversing direction that neither grows nor collides
/// moves the head exactly one unit step in the requested direction, keeps
/// the snake's length, and commits the requested direction.
pub proof fn lemma_plain_move(m: GameModel, d: Direction, f: Position)
    requires
        allows_spec(m.direction, d),
        m.growth == 0,
        m.head.x < m.width,
        m.head.y < m.height,
        m.width <= usize::MAX,
        m.height <= usize::MAX,
        play_step(m, d, f).1 is Ok,
    ensures
        ({
            let m2 = play_step(m, d, f).0;
            &&& m2.head != m.head
            &&& (match d {
                Direction::Up => m2.head.x == m.head.x && m2.head.y == m.head.y + 1,
                Direction::Down => m2.head.x == m.head.x && m2.head.y == m.head.y - 1,
                Direction::Left => m2.head.x == m.head.x - 1 && m2.head.y == m.head.y,
                Direction::Right => m2.head.x == m.head.x + 1 && m2.head.y == m.head.y,
            })
            &&& 1 + m2.body.len() == 1 + m.body.len()
            &&& m2.direction == d
        }),
{
    let m1 = moved_model(m, d);
    if m1.head.x >= m.width || m1.head.y >= m.height {
        assert(wall_at(m.grid, m.width, m.height, m1.head));
        assert(false);
    }
}

/// A tick that eats reports it in that snapshot alone: the snapshot says
/// `food_ate`, the length is still unchanged, and the immediately following
/// tick grows the snake by exactly one and reports `food_ate` only if it
/// eats again.
pub proof fn lemma_eating_grows_on_the_next_tick(
    m: GameModel,
    d1: Direction,
    f1: Position,
    d2: Direction,
    f2: Position,
)
    requires
        m.growth == 0,
        eats(m, d1),
        play_step(play_step(m, d1, f1).0, d2, f2).1 is Ok,
    ensures
        ({
            let (m2, r1) = play_step(m, d1, f1);
            let (m3, r2) = play_step(m2, d2, f2);
            &&& r1 is Ok
            &&& r1.unwrap().food_ate
            &&& r1.unwrap().snake.len() == 1 + m.body.len()
            &&& m2.growth == 1
            &&& r2.unwrap().snake.len() == r1.unwrap().snake.len() + 1
            &&& (r2.unwrap().food_ate <==> eats(m2, d2))
        }),
{
}

/// A request for the exact reverse of the current direction is ignored:
/// the tick is the same as one that requests the current direction.
pub proof fn lemma_reversal_ignored(m: GameModel, req: Direction, f: Position)
    requires
        !allows_spec(m.direction, req),
    ensures
        play_step(m, req, f) == play_step(m, m.direction, f),
{
    assert(allows_spec(m.direction, m.direction)) by {
        assert(m.direction != opposite(m.direction));
    }
    let a = play_step(m, req, f);
    let b = play_step(m, m.direction, f);
    assert(a.0 =~~= b.0);
    match a.1 {
        Ok(snap) => {
            assert(b.1 is Ok);
            assert(snap =~~= b.1.unwrap());
        },
        Err(_) => {},
    }
}

/// A head move onto a wall or off the grid is reported as `OnWall`,
/// carrying the computed new head position.
pub proof fn lemma_wall_hit_reported(m: GameModel, d: Direction, f: Position)
    requires
        ({
            let m1 = moved_model(m, d);
            wall_at(m.grid, m.width, m.height, m1.head)
        }),
    ensures
        play_step(m, d, f).1 == Err::<SnapshotModel, SnakeError>(
            SnakeError::OnWall(moved_model(m, d).head),
        ),
{
}

/// A head move onto a body segment (and not onto a wall, which is checked
/// first) is reported as `OnSnake`, carrying the computed new head
/// position.
pub proof fn lemma_self_hit_reported(m: GameModel, d: Direction, f: Position)
    requires
        ({
            let m1 = moved_model(m, d);
            &&& !wall_at(m.grid, m.width, m.height, m1.head)
            &&& m1.body.contains(m1.head)
        }),
    ensures
        play_step(m, d, f).1 == Err::<SnapshotModel, SnakeError>(
            SnakeError::OnSnake(moved_model(m, d).head),
        ),
{
}

/// The outcomes of a run of ticks from state `m`, requesting `ds[i]` at
/// tick `i` with `fs[i]` standing for the tick's random food draw.
pub open spec fn run_steps(m: GameModel, ds: Seq<Direction>, fs: Seq<Position>) -> Seq<
    Result<SnapshotModel, SnakeError>,
>
    decreases ds.len(),
{
    if ds.len() == 0 {
        Seq::empty()
    } else {
        let (m2, r) = play_step(m, ds[0], fs[0]);
        seq![r] + run_steps(m2, ds.drop_first(), fs.drop_first())
    }
}

/// Determinism: from identical starting states, identical direction
/// sequences together with identical sequences of random draws produce
/// identical snapshot sequences.
pub proof fn lemma_runs_deterministic(
    m1: GameModel,
    m2: GameModel,
    ds1: Seq<Direction>,
    ds2: Seq<Direction>,
    fs1: Seq<Position>,
    fs2: Seq<Position>,
)
    requires
        m1 == m2,
        ds1 == ds2,
        fs1 == fs2,
    ensures
        run_steps(m1, ds1, fs1) == run_steps(m2, ds2, fs2),
{
}

} // verus!
