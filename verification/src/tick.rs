//! One movement tick: the stages in their order.

use vstd::prelude::*;
use crate::grid::{in_bounds, step, Position};
use crate::store::{component_of, is_food_at, Entity, Tag};
use crate::world::{
    collides, has_food_at, listed, same_but_position, shifted, start_head, start_rows, start_tail,
    TickReport, World,
};

verus! {

impl World {
    /// Runs one movement tick: the step, then eating, then growth, then the
    /// handling of the end of the game, which resets the world if the step
    /// ran into a wall or into the body.
    ///
    /// Without a reset the snake has made its step, is one segment longer if
    /// the head reached food, with the new tail at the cell that the old tail
    /// left, and the food under the head is gone while all other food lies
    /// where it lay. The entities of the snake keep their identifiers, tags
    /// and sizes; the new tail is a new entity. With a reset every entity from
    /// before is dead and the snake is the last two rows of the table.
    pub fn tick(&mut self) -> (report: TickReport)
        requires
            old(self).wf(),
        ensures
            final(self).wf(),
            report.game_over == collides(old(self).snake(), old(self).next_direction),
            report.ate == old(self).food_at(
                step(old(self).snake()[0], old(self).next_direction),
            ),
            final(self).last_tail == Some(old(self).snake().last()),
            report.game_over ==> final(self).at_start() && final(self).snake() == seq![
                start_head(),
                start_tail(),
            ],
            report.game_over ==> final(self).store@ == start_rows(
                old(self).store@.len() + (if report.ate {
                    1nat
                } else {
                    0nat
                }),
            ),
            report.game_over ==> forall|e: Entity|
                e.index < old(self).store@.len() ==> !(#[trigger] final(self).store.is_live(e)),
            report.game_over ==> forall|i: int|
                0 <= i < old(self).segments@.len() ==> !final(self).store.is_live(
                    #[trigger] old(self).segments@[i],
                ),
            !report.game_over ==> final(self).segments@ == (if report.ate {
                old(self).segments@.push(Entity { index: old(self).store@.len() as usize })
            } else {
                old(self).segments@
            }),
            !report.game_over ==> forall|k: int|
                0 <= k < old(self).store@.len() && listed(old(self).segments@, k)
                    ==> same_but_position(old(self).store@[k], #[trigger] final(self).store@[k]),
            !report.game_over ==> forall|k: int|
                0 <= k < old(self).store@.len() && !listed(old(self).segments@, k)
                    ==> #[trigger] final(self).store@[k] == (if is_food_at(
                    old(self).store@[k],
                    step(old(self).snake()[0], old(self).next_direction),
                ) {
                    None
                } else {
                    old(self).store@[k]
                }),
            !report.game_over && report.ate ==> final(self).store@[old(self).store@.len() as int]
                == Some(component_of(Tag::Segment, old(self).snake().last())),
            !report.game_over ==> final(self).direction == old(self).next_direction
                && final(self).next_direction == old(self).next_direction,
            !report.game_over ==> final(self).snake() == (if report.ate {
                shifted(old(self).snake(), old(self).next_direction).push(
                    old(self).snake().last(),
                )
            } else {
                shifted(old(self).snake(), old(self).next_direction)
            }),
            !report.game_over ==> final(self).snake().len() >= old(self).snake().len(),
            !report.game_over ==> final(self).store@.len() == old(self).store@.len() + (
            if report.ate {
                1int
            } else {
                0int
            }),
            !report.game_over ==> forall|p: Position|
                final(self).food_at(p) == (old(self).food_at(p) && p != step(
                    old(self).snake()[0],
                    old(self).next_direction,
                )),
    {
        let ghost snake = self.snake();
        let ghost rows0 = self.store@;
        let ghost segments = self.segments@;
        let ghost head = step(snake[0], self.next_direction);
        proof {
            assert(in_bounds(self.snake()[0]));
        }
        self.movement();
        let ghost rows1 = self.store@;
        proof {
            assert forall|k: int, p: Position| 0 <= k < rows0.len() implies #[trigger] is_food_at(
                rows1[k],
                p,
            ) == is_food_at(rows0[k], p) by {
                if listed(segments, k) {
                    let i = choose|i: int|
                        0 <= i < segments.len() && (#[trigger] segments[i]).index == k;
                    assert(old(self).store.is_live(segments[i]));
                }
            }
            assert(self.snake()[0] == head);
        }
        let over = self.game_over;
        let ate = self.eating();
        let ghost rows2 = self.store@;
        self.growth();
        let ghost rows3 = self.store@;
        let reset = self.handle_game_over();
        proof {
            assert(ate == has_food_at(rows0, head)) by {
                if has_food_at(rows0, head) {
                    let k = choose|k: int|
                        0 <= k < rows0.len() && is_food_at(#[trigger] rows0[k], head);
                    assert(is_food_at(rows1[k], head));
                }
                if has_food_at(rows1, head) {
                    let k = choose|k: int|
                        0 <= k < rows1.len() && is_food_at(#[trigger] rows1[k], head);
                    assert(is_food_at(rows0[k], head));
                }
            }
            if reset {
                self.lemma_start_snake();
            } else {
                assert forall|i: int| 0 <= i < self.snake().len() implies in_bounds(
                    #[trigger] self.snake()[i],
                ) by {
                    if 0 < i && i < snake.len() {
                        assert(self.snake()[i] == snake[i - 1]);
                    }
                }
                assert forall|p: Position|
                    has_food_at(rows3, p) == (has_food_at(rows0, p) && p != head) by {
                    if has_food_at(rows3, p) {
                        let k = choose|k: int|
                            0 <= k < rows3.len() && is_food_at(#[trigger] rows3[k], p);
                        assert(is_food_at(rows1[k], p));
                        assert(is_food_at(rows0[k], p));
                    }
                    if has_food_at(rows0, p) && p != head {
                        let k = choose|k: int|
                            0 <= k < rows0.len() && is_food_at(#[trigger] rows0[k], p);
                        assert(is_food_at(rows1[k], p));
                        assert(is_food_at(rows3[k], p));
                    }
                }
            }
        }
        TickReport { game_over: over, ate }
    }
}

} // verus!
