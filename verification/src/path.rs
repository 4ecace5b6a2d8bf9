//! The move path resolver: which cells a multi-cell jump crosses, and which
//! obstacle, if any, rejects it.
//!
//! A jump of distance `n` in a direction is validated by evaluating the `n`
//! cells along that axis from nearest to farthest. A `Wall` anywhere on the
//! path rejects the whole jump. A `Door` stops evaluation: the jump is
//! rejected unless the door's key has been collected, and cells beyond a
//! satisfied door are not checked. A `Trap` stops evaluation too: it may be
//! landed on (`n == 1`) but never vaulted over. Every other cell lets the
//! walk continue. Addresses outside the authored matrix count as `Wall`.

use vstd::prelude::*;

use crate::errors::GameError;
use crate::storage::{Block, Move, Position};

verus! {

/// The cell of the matrix at 1-based `(row, col)`; anything outside the
/// authored matrix behaves as a wall.
pub open spec fn cell_at_spec(m: Seq<Seq<Block>>, row: int, col: int) -> Block {
    if 1 <= row <= m.len() && 1 <= col <= m[row - 1].len() {
        m[row - 1][col - 1]
    } else {
        Block::Wall
    }
}

/// Row reached after `k` cells of path validation in direction `mv`.
/// Validation treats `Stay` like `Left`, so the row is unchanged for both.
pub open spec fn step_row(pos: Position, mv: Move, k: int) -> int {
    match mv {
        Move::Up => pos.row - k,
        Move::Down => pos.row + k,
        _ => pos.row as int,
    }
}

/// Column reached after `k` cells of path validation in direction `mv`.
/// Validation treats `Stay` like `Left`.
pub open spec fn step_col(pos: Position, mv: Move, k: int) -> int {
    match mv {
        Move::Right => pos.col + k,
        Move::Up | Move::Down => pos.col as int,
        _ => pos.col - k,
    }
}

/// Row reached when a selected move of distance `k` is applied. Unlike
/// validation, applying `Stay` moves nowhere.
pub open spec fn apply_row(pos: Position, mv: Move, k: int) -> int {
    match mv {
        Move::Up => pos.row - k,
        Move::Down => pos.row + k,
        _ => pos.row as int,
    }
}

/// Column reached when a selected move of distance `k` is applied. Unlike
/// validation, applying `Stay` moves nowhere.
pub open spec fn apply_col(pos: Position, mv: Move, k: int) -> int {
    match mv {
        Move::Right => pos.col + k,
        Move::Left => pos.col - k,
        _ => pos.col as int,
    }
}

/// The cell crossed at step `k` of a validated jump.
pub open spec fn path_step_block(m: Seq<Seq<Block>>, pos: Position, mv: Move, k: int) -> Block {
    cell_at_spec(m, step_row(pos, mv, k), step_col(pos, mv, k))
}

/// Verdict of validating steps `k..=n` of a jump of distance `n`, given the
/// collected keys: `None` accepts the jump, `Some(e)` rejects it with `e`.
pub open spec fn path_verdict_from(
    m: Seq<Seq<Block>>,
    pos: Position,
    keys: Seq<u64>,
    mv: Move,
    n: int,
    k: int,
) -> Option<GameError>
    decreases n - k + 1,
{
    if k > n {
        None
    } else {
        match path_step_block(m, pos, mv, k) {
            Block::Wall => Some(GameError::GoThroughWall),
            Block::Door(id) => if keys.contains(id) {
                None
            } else {
                Some(GameError::KeyNeeded)
            },
            Block::Trap => if n <= 1 {
                None
            } else {
                Some(GameError::JumpOverTrap)
            },
            _ => path_verdict_from(m, pos, keys, mv, n, k + 1),
        }
    }
}

/// Verdict of validating a whole jump of distance `n`: `None` accepts it,
/// `Some(e)` rejects it with `e`.
pub open spec fn path_verdict(
    m: Seq<Seq<Block>>,
    pos: Position,
    keys: Seq<u64>,
    mv: Move,
    n: int,
) -> Option<GameError> {
    path_verdict_from(m, pos, keys, mv, n, 1)
}

/// The id of the door that rejected the jump, counting from step `k`.
/// Meaningful only when the verdict from `k` is `KeyNeeded`.
pub open spec fn blocking_door_from(
    m: Seq<Seq<Block>>,
    pos: Position,
    keys: Seq<u64>,
    mv: Move,
    n: int,
    k: int,
) -> u64
    decreases n - k + 1,
{
    if k > n {
        0
    } else {
        match path_step_block(m, pos, mv, k) {
            Block::Door(id) => id,
            Block::Wall => 0,
            Block::Trap => 0,
            _ => blocking_door_from(m, pos, keys, mv, n, k + 1),
        }
    }
}

/// The id of the door that rejected a whole jump. Meaningful only when the
/// jump's verdict is `KeyNeeded`.
pub open spec fn blocking_door(
    m: Seq<Seq<Block>>,
    pos: Position,
    keys: Seq<u64>,
    mv: Move,
    n: int,
) -> u64 {
    blocking_door_from(m, pos, keys, mv, n, 1)
}

proof fn lemma_door_unlock_from(
    m: Seq<Seq<Block>>,
    pos: Position,
    keys: Seq<u64>,
    mv: Move,
    n: int,
    k: int,
)
    requires
        path_verdict_from(m, pos, keys, mv, n, k) == Some(GameError::KeyNeeded),
    ensures
        path_verdict_from(
            m,
            pos,
            keys.push(blocking_door_from(m, pos, keys, mv, n, k)),
            mv,
            n,
            k,
        ) is None,
    decreases n - k + 1,
{
    let d = blocking_door_from(m, pos, keys, mv, n, k);
    let keys2 = keys.push(d);
    assert(forall|x: u64| keys.contains(x) ==> keys2.contains(x)) by {
        assert(forall|i: int|
            0 <= i < keys.len() ==> keys2[i] == keys[i] && keys2.len() > i);
    }
    match path_step_block(m, pos, mv, k) {
        Block::Door(id) => {
            assert(!keys.contains(id));
            assert(id == d);
            assert(keys2[keys.len() as int] == d);
            assert(keys2.contains(id));
        },
        Block::Wall => {},
        Block::Trap => {},
        _ => {
            lemma_door_unlock_from(m, pos, keys, mv, n, k + 1);
            assert(blocking_door_from(m, pos, keys, mv, n, k) == blocking_door_from(
                m,
                pos,
                keys,
                mv,
                n,
                k + 1,
            ));
        },
    }
}

/// Door gating: a jump rejected for want of a key is accepted once the
/// blocking door's key has been collected — the cells before the door pass
/// unchanged, and evaluation stops at the now-satisfied door.
pub proof fn lemma_door_unlock(
    m: Seq<Seq<Block>>,
    pos: Position,
    keys: Seq<u64>,
    mv: Move,
    n: int,
)
    requires
        path_verdict(m, pos, keys, mv, n) == Some(GameError::KeyNeeded),
    ensures
        path_verdict(m, pos, keys.push(blocking_door(m, pos, keys, mv, n)), mv, n) is None,
{
    lemma_door_unlock_from(m, pos, keys, mv, n, 1);
}

} // verus!
