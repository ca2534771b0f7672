//! Spawning the snake and the handling of the end of a game.

use vstd::prelude::*;
use crate::direction::Direction;
use crate::grid::Position;
use crate::store::{component_of, Component, Entity, Tag};
use crate::world::{start_head, start_rows, start_tail, World};

verus! {

impl World {
    /// Creates a head and one segment at the starting cells and makes them
    /// the snake, heading up. Entities that were there before stay in the
    /// table.
    pub fn spawn_snek(&mut self)
        ensures
            final(self).valid(),
            final(self).store@ == old(self).store@.push(
                Some(component_of(Tag::Head, start_head())),
            ).push(Some(component_of(Tag::Segment, start_tail()))),
            final(self).segments@ == seq![
                Entity { index: old(self).store@.len() as usize },
                Entity { index: (old(self).store@.len() + 1) as usize },
            ],
            final(self).snake() == seq![start_head(), start_tail()],
            final(self).direction == Direction::Up,
            final(self).next_direction == Direction::Up,
            final(self).last_tail == old(self).last_tail,
            final(self).growth == old(self).growth,
            final(self).game_over == old(self).game_over,
    {
        let head = self.store.spawn(Component::spawned(Tag::Head, Position { x: 3, y: 3 }));
        let tail = self.store.spawn(Component::spawned(Tag::Segment, Position { x: 3, y: 2 }));
        let mut segments: Vec<Entity> = Vec::new();
        segments.push(head);
        segments.push(tail);
        self.segments = segments;
        self.direction = Direction::Up;
        self.next_direction = Direction::Up;
        proof {
            assert(self.segments@ =~= seq![
                Entity { index: old(self).store@.len() as usize },
                Entity { index: (old(self).store@.len() + 1) as usize },
            ]);
            assert(self.snake() =~= seq![start_head(), start_tail()]);
        }
    }

    /// Ends the game if its end was raised: every entity, food and snake
    /// alike, is destroyed and the snake is spawned anew in its starting
    /// configuration, under two identifiers that were never given out
    /// before. No identifier from before the reset names an entity
    /// afterwards. Otherwise nothing changes. Returns whether the world was
    /// reset.
    pub fn handle_game_over(&mut self) -> (reset: bool)
        ensures
            reset == old(self).game_over,
            !final(self).game_over,
            reset ==> final(self).at_start() && final(self).valid() && final(self).snake() == seq![
                start_head(),
                start_tail(),
            ],
            reset ==> final(self).store@ == start_rows(old(self).store@.len()),
            reset ==> forall|e: Entity|
                e.index < old(self).store@.len() ==> !(#[trigger] final(self).store.is_live(e)),
            reset ==> forall|e: Entity| #[trigger]
                old(self).store.is_live(e) ==> !final(self).store.is_live(e),
            reset && old(self).valid() ==> forall|i: int|
                0 <= i < old(self).segments@.len() ==> !final(self).store.is_live(
                    #[trigger] old(self).segments@[i],
                ),
            !reset ==> final(self).store == old(self).store && final(self).segments == old(
                self,
            ).segments && final(self).direction == old(self).direction
                && final(self).next_direction == old(self).next_direction,
            final(self).last_tail == old(self).last_tail,
            final(self).growth == old(self).growth,
    {
        if self.game_over {
            self.game_over = false;
            self.store.despawn_all();
            self.spawn_snek();
            proof {
                assert(self.store@ =~= start_rows(old(self).store@.len()));
                self.lemma_start_snake();
                assert forall|i: int| 0 <= i < old(self).segments@.len() && old(
                    self,
                ).valid() implies !self.store.is_live(#[trigger] old(self).segments@[i]) by {
                    assert(old(self).store.is_live(old(self).segments@[i]));
                }
            }
            true
        } else {
            false
        }
    }
}

} // verus!
