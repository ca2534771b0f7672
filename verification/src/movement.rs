//! The movement stage: one step of the whole snake.

use vstd::prelude::*;
use crate::grid::{can_step, step};
use crate::store::Tag;
use crate::world::{collides, is_collision, listed, same_but_position, shifted, World};

verus! {

impl World {
    /// Advances the snake by one cell. The buffered direction becomes the
    /// current one, the head steps along it, and every other segment takes
    /// the cell that the one before it held. The cell that the tail leaves is
    /// recorded. The end of the game is raised when the head leaves the
    /// board or lands on a cell of the body; the step is made all the same.
    /// No entity is created or destroyed, and no entity outside the snake
    /// is touched.
    pub fn movement(&mut self)
        requires
            old(self).valid(),
            can_step(old(self).snake()[0]),
        ensures
            final(self).valid(),
            final(self).direction == old(self).next_direction,
            final(self).next_direction == old(self).next_direction,
            final(self).segments == old(self).segments,
            final(self).snake() == shifted(old(self).snake(), old(self).next_direction),
            final(self).snake().len() == old(self).snake().len(),
            final(self).snake()[0] == step(old(self).snake()[0], old(self).next_direction),
            final(self).last_tail == Some(old(self).snake().last()),
            final(self).game_over == (old(self).game_over || collides(
                old(self).snake(),
                old(self).next_direction,
            )),
            final(self).growth == old(self).growth,
            final(self).store@.len() == old(self).store@.len(),
            forall|k: int|
                0 <= k < old(self).store@.len() ==> same_but_position(
                    old(self).store@[k],
                    #[trigger] final(self).store@[k],
                ),
            forall|k: int|
                0 <= k < old(self).store@.len() && !listed(old(self).segments@, k)
                    ==> #[trigger] final(self).store@[k] == old(self).store@[k],
    {
        let ghost snake = self.snake();
        let ghost rows = self.store@;
        let ghost segments = self.segments@;
        let snapshot = self.positions();
        self.direction = self.next_direction;
        let ghost target = shifted(snake, self.direction);
        let head = snapshot[0].advance(self.direction);
        if is_collision(&snapshot, head) {
            self.game_over = true;
        }
        let n: usize = self.segments.len();
        self.store.set_position(self.segments[0], head);
        let mut i: usize = 1;
        while i < n
            invariant
                1 <= i <= n,
                n == segments.len(),
                n == snapshot@.len(),
                snapshot@ == snake,
                target == shifted(snake, self.direction),
                target.len() == n,
                self.segments == old(self).segments,
                self.segments@ == segments,
                self.growth == old(self).growth,
                self.direction == old(self).next_direction,
                self.next_direction == old(self).next_direction,
                self.game_over == (old(self).game_over || collides(snake, self.direction)),
                forall|a: int|
                    0 <= a < n ==> rows[(#[trigger] segments[a]).index as int].unwrap().tag == (
                    if a == 0 {
                        Tag::Head
                    } else {
                        Tag::Segment
                    }),
                self.store@.len() == rows.len(),
                forall|a: int| 0 <= a < n ==> (#[trigger] segments[a]).index < rows.len(),
                forall|a: int, b: int|
                    0 <= a < b < n ==> (#[trigger] segments[a]).index != (
                    #[trigger] segments[b]).index,
                forall|a: int| 0 <= a < n ==> rows[(#[trigger] segments[a]).index as int].is_some(),
                forall|k: int| 0 <= k < rows.len() ==> same_but_position(rows[k], #[trigger] self.store@[k]),
                forall|k: int|
                    0 <= k < rows.len() && !listed(segments, k) ==> #[trigger] self.store@[k]
                        == rows[k],
                forall|a: int|
                    i <= a < n ==> self.store@[(#[trigger] segments[a]).index as int]
                        == rows[segments[a].index as int],
                forall|a: int|
                    0 <= a < i ==> self.store@[(#[trigger] segments[a]).index as int].unwrap().position
                        == target[a],
            decreases n - i,
        {
            let e = self.segments[i];
            let ghost before = self.store@;
            assert(segments[i as int] == e);
            self.store.set_position(e, snapshot[i - 1]);
            proof {
                assert forall|a: int| 0 <= a < i + 1 implies self.store@[(
                #[trigger] segments[a]).index as int].unwrap().position == target[a] by {
                    if a < i {
                        assert(segments[a].index != segments[i as int].index);
                    }
                }
                assert forall|a: int| i + 1 <= a < n implies self.store@[(
                #[trigger] segments[a]).index as int] == rows[segments[a].index as int] by {
                    assert(segments[i as int].index != segments[a].index);
                }
            }
            i += 1;
        }
        self.last_tail = Some(snapshot[n - 1]);
        proof {
            assert(self.snake() =~= target);
        }
    }
}

} // verus!
