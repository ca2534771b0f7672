//! The food spawner: rejection sampling of a free cell.

use vstd::prelude::*;
use crate::grid::{in_bounds, is_in_bounds, Position, HEIGHT, WIDTH};
use crate::store::{component_of, is_segment_at, Component, Entity, Tag};
use crate::world::{has_segment_at, World};

verus! {

/// Calls `rand::random::<u32>()`, which draws a value from the thread's
/// generator, seeded by the operating system. Nothing is claimed of the
/// value: every `u32` may come back, and two calls need not agree. The
/// call fails only where the operating system does: when its source of
/// entropy cannot be read to seed or reseed the generator.
#[verifier::external_body]
fn random_u32() -> (drawn: u32) {
    rand::random::<u32>()
}

/// The cell that a pair of drawn numbers stands for: each number is reduced
/// to its axis.
pub open spec fn cell_of(rx: u32, ry: u32) -> Position {
    Position { x: (rx % WIDTH) as i32, y: (ry % HEIGHT) as i32 }
}

/// Turns two drawn numbers into a cell of the board.
pub fn candidate(rx: u32, ry: u32) -> (pos: Position)
    ensures
        pos == cell_of(rx, ry),
        in_bounds(pos),
{
    Position { x: (rx % WIDTH) as i32, y: (ry % HEIGHT) as i32 }
}

/// A slot holds a live head or body segment that lies on the board.
pub open spec fn is_segment_on_board(slot: Option<Component>) -> bool {
    slot matches Some(c) && c.tag != Tag::Food && in_bounds(c.position)
}

/// Some live head or body segment lies on the board, so that a draw can hit
/// it.
pub open spec fn holds_board_cell(slots: Seq<Option<Component>>) -> bool {
    exists|k: int| 0 <= k < slots.len() && is_segment_on_board(#[trigger] slots[k])
}

impl World {
    /// Whether no live entity tagged head or segment holds `pos`. Every such
    /// entity of the table counts, also one that the snake does not list;
    /// food does not.
    pub fn is_free(&self, pos: Position) -> (free: bool)
        ensures
            free == !has_segment_at(self.store@, pos),
            self.valid() && free ==> !self.snake().contains(pos),
    {
        let n: usize = self.store.len();
        let mut k: usize = 0;
        while k < n
            invariant
                k <= n,
                n == self.store@.len(),
                forall|j: int| 0 <= j < k ==> !is_segment_at(#[trigger] self.store@[j], pos),
            decreases n - k,
        {
            let held = match self.store.get(Entity { index: k }) {
                Some(c) => c.tag != Tag::Food && c.position == pos,
                None => false,
            };
            if held {
                assert(is_segment_at(self.store@[k as int], pos));
                return false;
            }
            k += 1;
        }
        proof {
            if self.valid() && self.snake().contains(pos) {
                let i = choose|i: int| 0 <= i < self.snake().len() && self.snake()[i] == pos;
                assert(self.store.is_live(self.segments@[i]));
                assert(is_segment_at(self.store@[self.segments@[i].index as int], pos));
            }
        }
        true
    }

    /// Puts a piece of food at `pos` if that cell is on the board and no live
    /// head or body segment holds it, and returns the new entity; otherwise
    /// changes nothing. Food that already lies somewhere, even at `pos`, does
    /// not prevent it.
    pub fn place_food(&mut self, pos: Position) -> (placed: Option<Entity>)
        requires
            old(self).valid(),
        ensures
            final(self).valid(),
            placed.is_some() == (in_bounds(pos) && !has_segment_at(old(self).store@, pos)),
            placed.is_some() ==> !old(self).snake().contains(pos),
            placed matches Some(e) ==> e.index == old(self).store@.len(),
            final(self).store@ == (if placed.is_some() {
                old(self).store@.push(Some(component_of(Tag::Food, pos)))
            } else {
                old(self).store@
            }),
            placed.is_some() ==> final(self).food_at(pos),
            final(self).segments == old(self).segments,
            final(self).snake() == old(self).snake(),
            final(self).direction == old(self).direction,
            final(self).next_direction == old(self).next_direction,
            final(self).last_tail == old(self).last_tail,
            final(self).growth == old(self).growth,
            final(self).game_over == old(self).game_over,
    {
        if is_in_bounds(pos) && self.is_free(pos) {
            let e = self.store.spawn(Component::spawned(Tag::Food, pos));
            proof {
                assert(self.snake() =~= old(self).snake());
                assert(self.store@[e.index as int] == Some(component_of(Tag::Food, pos)));
            }
            Some(e)
        } else {
            None
        }
    }

    /// Draws random cells of the board until one is free of every live head
    /// and body segment and puts a piece of food there, giving up after
    /// `max_draws` cells. Returns the cell of the new food, or `None` when
    /// every draw hit a segment, in which case nothing has changed. A draw
    /// can only hit a segment that lies on the board: while there is none,
    /// the first draw succeeds.
    pub fn spawn_food(&mut self, max_draws: u32) -> (spawned: Option<Position>)
        requires
            old(self).valid(),
        ensures
            final(self).valid(),
            max_draws == 0 ==> spawned.is_none(),
            max_draws > 0 && !holds_board_cell(old(self).store@) ==> spawned.is_some(),
            spawned matches Some(pos) ==> in_bounds(pos) && !has_segment_at(old(self).store@, pos)
                && !old(self).snake().contains(pos) && final(self).food_at(pos),
            final(self).store@ == (match spawned {
                Some(pos) => old(self).store@.push(Some(component_of(Tag::Food, pos))),
                None => old(self).store@,
            }),
            final(self).segments == old(self).segments,
            final(self).snake() == old(self).snake(),
            final(self).direction == old(self).direction,
            final(self).next_direction == old(self).next_direction,
            final(self).last_tail == old(self).last_tail,
            final(self).growth == old(self).growth,
            final(self).game_over == old(self).game_over,
    {
        let mut left: u32 = max_draws;
        while left > 0
            invariant
                self.valid(),
                left <= max_draws,
                left < max_draws ==> holds_board_cell(old(self).store@),
                self.snake() == old(self).snake(),
                self.store@ == old(self).store@,
                self.segments == old(self).segments,
                self.direction == old(self).direction,
                self.next_direction == old(self).next_direction,
                self.last_tail == old(self).last_tail,
                self.growth == old(self).growth,
                self.game_over == old(self).game_over,
            decreases left,
        {
            let rx: u32 = random_u32();
            let ry: u32 = random_u32();
            let pos = candidate(rx, ry);
            if self.place_food(pos).is_some() {
                return Some(pos);
            }
            proof {
                let rows = old(self).store@;
                let k = choose|k: int| 0 <= k < rows.len() && is_segment_at(#[trigger] rows[k], pos);
                assert(is_segment_on_board(rows[k]));
            }
            left -= 1;
        }
        None
    }
}

} // verus!
