//! Laws of the simulation, stated over the functions that the contracts of
//! the stages use.

use vstd::prelude::*;
use crate::direction::{requested, resolved, Direction, Keys};
use crate::grid::{can_step, in_bounds, step, Position};
use crate::world::{collides, grown, hits_body, shifted};

verus! {

/// A step keeps the length of the snake: the head gains a cell and the tail
/// gives one up.
pub proof fn lemma_step_keeps_length(snake: Seq<Position>, dir: Direction)
    requires
        snake.len() >= 1,
    ensures
        shifted(snake, dir).len() == snake.len(),
        shifted(snake, dir)[0] == step(snake[0], dir),
        forall|i: int| 1 <= i < snake.len() ==> #[trigger] shifted(snake, dir)[i] == snake[i - 1],
{
}

/// A step changes exactly one coordinate of a position, by exactly one, and
/// leaves the other as it was.
pub proof fn lemma_step_moves_one_cell(pos: Position, dir: Direction)
    requires
        can_step(pos),
    ensures
        ({
            let next = step(pos, dir);
            ||| next.y == pos.y && (next.x == pos.x + 1 || next.x == pos.x - 1)
            ||| next.x == pos.x && (next.y == pos.y + 1 || next.y == pos.y - 1)
        }),
        step(pos, dir) != pos,
{
}

/// A step whose target is a cell of the body ends the game, however many
/// segments lie on that cell; so does a step that leaves the board. The
/// cell that the head leaves never counts as a hit.
pub proof fn lemma_collision(snake: Seq<Position>, dir: Direction)
    requires
        snake.len() >= 1,
        can_step(snake[0]),
    ensures
        (exists|i: int| 1 <= i < snake.len() && #[trigger] snake[i] == step(snake[0], dir))
            ==> collides(snake, dir),
        !in_bounds(step(snake[0], dir)) ==> collides(snake, dir),
        collides(snake, dir) == (!in_bounds(step(snake[0], dir)) || snake.contains(
            step(snake[0], dir),
        )),
{
    let target = step(snake[0], dir);
    if snake.contains(target) {
        let i = choose|i: int| 0 <= i < snake.len() && snake[i] == target;
        assert(i != 0);
        assert(hits_body(snake, dir));
    }
    if hits_body(snake, dir) {
        let i = choose|i: int| 1 <= i < snake.len() && #[trigger] snake[i] == target;
        assert(snake.contains(target));
    }
}

/// A request to reverse leaves the buffered direction as it was, and what is
/// buffered afterwards is no reversal of the current direction.
pub proof fn lemma_reversal_is_rejected(keys: Keys, current: Direction, buffered: Direction)
    requires
        requested(keys, current) == current.spec_opposite(),
        buffered != current.spec_opposite(),
    ensures
        resolved(keys, current, buffered) == buffered,
        resolved(keys, current, buffered) != current.spec_opposite(),
{
}

/// Whatever the keys, the buffered direction never becomes a reversal.
pub proof fn lemma_never_reverses(keys: Keys, current: Direction, buffered: Direction)
    requires
        buffered != current.spec_opposite(),
    ensures
        resolved(keys, current, buffered) != current.spec_opposite(),
{
}

/// A request that is no reversal is buffered as it is, the current
/// direction included; with no key held that is the current direction.
pub proof fn lemma_only_reversal_is_rejected(keys: Keys, current: Direction, buffered: Direction)
    ensures
        requested(keys, current) != current.spec_opposite() ==> resolved(keys, current, buffered)
            == requested(keys, current),
        requested(keys, current) == current.spec_opposite() ==> resolved(keys, current, buffered)
            == buffered,
        !keys.left && !keys.right && !keys.up && !keys.down ==> resolved(keys, current, buffered)
            == current,
{
}

/// Growth never shortens the snake, whether or not a segment is owed: the
/// snake before is the front of the snake after, which is at most one
/// longer, and without a debt it is the same snake.
pub proof fn lemma_growth_never_shortens(
    snake: Seq<Position>,
    owed: bool,
    last_tail: Option<Position>,
)
    ensures
        grown(snake, owed, last_tail).len() >= snake.len(),
        grown(snake, owed, last_tail).len() <= snake.len() + 1,
        snake.is_prefix_of(grown(snake, owed, last_tail)),
        !owed ==> grown(snake, owed, last_tail) == snake,
        owed && last_tail.is_some() ==> grown(snake, owed, last_tail).len() == snake.len() + 1
            && grown(snake, owed, last_tail).last() == last_tail.unwrap(),
{
}

/// A step followed by growth at the cell that the tail left makes the snake
/// exactly one longer than before the step, with the new tail on the cell
/// of the old one and the rest as the step left it.
pub proof fn lemma_growth_round_trip(snake: Seq<Position>, dir: Direction)
    requires
        snake.len() >= 1,
    ensures
        shifted(snake, dir).push(snake.last()).len() == snake.len() + 1,
        shifted(snake, dir).push(snake.last()).last() == snake.last(),
        shifted(snake, dir).push(snake.last()).drop_last() == shifted(snake, dir),
        shifted(snake, dir).push(snake.last()) == seq![step(snake[0], dir)] + snake,
{
    let grown = shifted(snake, dir).push(snake.last());
    assert(grown.drop_last() =~= shifted(snake, dir));
    assert(grown =~= seq![step(snake[0], dir)] + snake);
}

} // verus!
