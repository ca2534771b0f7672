//! The eating and growth stages.

use vstd::prelude::*;
use crate::grid::Position;
use crate::store::{component_of, is_food_at, Component, Entity, Tag};
use crate::world::{grown, has_food_at, World};

verus! {

impl World {
    /// Creates a body segment at `position` and returns its identifier. The
    /// segment is not yet part of the snake.
    pub fn spawn_segment(&mut self, position: Position) -> (e: Entity)
        requires
            old(self).valid(),
        ensures
            final(self).valid(),
            e.index == old(self).store@.len(),
            final(self).store@ == old(self).store@.push(
                Some(component_of(Tag::Segment, position)),
            ),
            final(self).segments == old(self).segments,
            final(self).snake() == old(self).snake(),
            final(self).direction == old(self).direction,
            final(self).next_direction == old(self).next_direction,
            final(self).last_tail == old(self).last_tail,
            final(self).growth == old(self).growth,
            final(self).game_over == old(self).game_over,
    {
        let e = self.store.spawn(Component::spawned(Tag::Segment, position));
        proof {
            assert(self.snake() =~= old(self).snake());
        }
        e
    }

    /// Destroys every piece of food that lies under the head and, if there
    /// was one, leaves a segment owed. Several pieces eaten at once still owe
    /// one segment. Returns whether anything was eaten.
    pub fn eating(&mut self) -> (ate: bool)
        requires
            old(self).valid(),
        ensures
            final(self).valid(),
            ate == old(self).food_at(old(self).snake()[0]),
            final(self).growth == (old(self).growth || ate),
            final(self).store@.len() == old(self).store@.len(),
            forall|k: int|
                0 <= k < old(self).store@.len() ==> #[trigger] final(self).store@[k] == (
                if is_food_at(old(self).store@[k], old(self).snake()[0]) {
                    None
                } else {
                    old(self).store@[k]
                }),
            final(self).segments == old(self).segments,
            final(self).snake() == old(self).snake(),
            final(self).direction == old(self).direction,
            final(self).next_direction == old(self).next_direction,
            final(self).last_tail == old(self).last_tail,
            final(self).game_over == old(self).game_over,
    {
        let ghost rows = self.store@;
        let head = self.head();
        let n: usize = self.store.len();
        let mut ate = false;
        let mut k: usize = 0;
        while k < n
            invariant
                k <= n,
                n == rows.len(),
                self.store@.len() == rows.len(),
                self.segments == old(self).segments,
                self.direction == old(self).direction,
                self.next_direction == old(self).next_direction,
                self.last_tail == old(self).last_tail,
                self.game_over == old(self).game_over,
                self.growth == (old(self).growth || ate),
                ate == has_food_at(rows.take(k as int), head),
                forall|j: int|
                    0 <= j < k ==> #[trigger] self.store@[j] == (if is_food_at(rows[j], head) {
                        None
                    } else {
                        rows[j]
                    }),
                forall|j: int| k <= j < n ==> #[trigger] self.store@[j] == rows[j],
            decreases n - k,
        {
            let e = Entity { index: k };
            let eaten = match self.store.get(e) {
                Some(c) => c.tag == Tag::Food && c.position == head,
                None => false,
            };
            if eaten {
                self.store.despawn(e);
                self.growth = true;
                ate = true;
            }
            proof {
                let shorter = rows.take(k as int);
                let longer = rows.take(k + 1);
                assert(longer[k as int] == rows[k as int]);
                assert forall|j: int| 0 <= j < shorter.len() implies shorter[j] == longer[j] by {}
                if has_food_at(longer, head) && !eaten {
                    let w = choose|w: int|
                        0 <= w < longer.len() && is_food_at(#[trigger] longer[w], head);
                    assert(is_food_at(shorter[w], head));
                }
            }
            k += 1;
        }
        proof {
            assert(rows.take(n as int) =~= rows);
            assert forall|i: int| 0 <= i < self.segments@.len() implies self.store@[(
            #[trigger] self.segments@[i]).index as int] == rows[self.segments@[i].index as int] by {
                assert(old(self).store.is_live(self.segments@[i]));
            }
            assert(self.snake() =~= old(self).snake());
        }
        ate
    }

    /// Pays the segment that is owed, if one is: a new segment appears at the
    /// cell that the tail left in the last step and becomes the new tail.
    /// Without a debt nothing changes. Either way the snake is never
    /// shorter afterwards, and what it was before is the front of what it is.
    pub fn growth(&mut self)
        requires
            old(self).valid(),
            old(self).growth ==> old(self).last_tail.is_some(),
        ensures
            final(self).valid(),
            !final(self).growth,
            final(self).snake() == grown(
                old(self).snake(),
                old(self).growth,
                old(self).last_tail,
            ),
            final(self).snake().len() == old(self).snake().len() + (if old(self).growth {
                1int
            } else {
                0int
            }),
            old(self).snake().is_prefix_of(final(self).snake()),
            old(self).segments@.is_prefix_of(final(self).segments@),
            final(self).store@ == (if old(self).growth {
                old(self).store@.push(
                    Some(component_of(Tag::Segment, old(self).last_tail.unwrap())),
                )
            } else {
                old(self).store@
            }),
            final(self).segments@ == (if old(self).growth {
                old(self).segments@.push(Entity { index: old(self).store@.len() as usize })
            } else {
                old(self).segments@
            }),
            final(self).direction == old(self).direction,
            final(self).next_direction == old(self).next_direction,
            final(self).last_tail == old(self).last_tail,
            final(self).game_over == old(self).game_over,
    {
        if self.growth {
            self.growth = false;
            let tail = self.last_tail.unwrap();
            let e = self.spawn_segment(tail);
            self.segments.push(e);
            proof {
                assert(self.snake() =~= old(self).snake().push(tail));
            }
        }
        proof {
            assert(old(self).snake().is_prefix_of(self.snake()));
            assert(old(self).segments@.is_prefix_of(self.segments@));
        }
    }
}

} // verus!
