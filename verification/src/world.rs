//! The simulation state and the stages of a movement tick.

use vstd::prelude::*;
use crate::direction::{requested, resolved, Direction, Keys};
use crate::grid::{in_bounds, is_in_bounds, step, Position};
use crate::store::{
    component_of, dead_rows, is_food_at, is_segment_at, Component, Entity, Store, Tag,
};

verus! {

/// Where the head starts.
pub open spec fn start_head() -> Position {
    Position { x: 3, y: 3 }
}

/// Where the single trailing segment starts.
pub open spec fn start_tail() -> Position {
    Position { x: 3, y: 2 }
}

/// The table right after the snake was spawned anew: `dead` rows of
/// destroyed entities, then the head, then its one segment.
pub open spec fn start_rows(dead: nat) -> Seq<Option<Component>> {
    dead_rows(dead).push(Some(component_of(Tag::Head, start_head()))).push(
        Some(component_of(Tag::Segment, start_tail())),
    )
}

/// The snake after one step in `dir`: the head advances and every other
/// segment takes the place of the one before it.
pub open spec fn shifted(snake: Seq<Position>, dir: Direction) -> Seq<Position> {
    seq![step(snake[0], dir)] + snake.drop_last()
}

/// One of the cells from index `from` on is `pos`.
pub open spec fn occupied_from(cells: Seq<Position>, from: int, pos: Position) -> bool {
    exists|i: int| from <= i < cells.len() && #[trigger] cells[i] == pos
}

/// Whether one of the cells from index `from` on is `pos`.
pub fn is_occupied_from(cells: &Vec<Position>, from: usize, pos: Position) -> (found: bool)
    ensures
        found == occupied_from(cells@, from as int, pos),
{
    let mut i: usize = from;
    while i < cells.len()
        invariant
            from <= i,
            forall|j: int| from <= j < i && j < cells@.len() ==> #[trigger] cells@[j] != pos,
        decreases cells@.len() - i,
    {
        if cells[i] == pos {
            return true;
        }
        i += 1;
    }
    false
}

/// The head's next cell is one that a body segment holds before the move.
/// The cell that the head leaves is not among them.
pub open spec fn hits_body(snake: Seq<Position>, dir: Direction) -> bool {
    occupied_from(snake, 1, step(snake[0], dir))
}

/// A step in `dir` ends the game: the head leaves the board or runs into
/// the body.
pub open spec fn collides(snake: Seq<Position>, dir: Direction) -> bool {
    !in_bounds(step(snake[0], dir)) || hits_body(snake, dir)
}

/// Whether a head that arrives at `head` ends the game, given the cells that
/// the snake held before the step, head first: it does when `head` is off
/// the board or is one of the cells after the first.
pub fn is_collision(snapshot: &Vec<Position>, head: Position) -> (over: bool)
    ensures
        over == (!in_bounds(head) || occupied_from(snapshot@, 1, head)),
{
    let hit = is_occupied_from(snapshot, 1, head);
    !is_in_bounds(head) || hit
}

/// Some row of the table is a piece of food at `pos`.
pub open spec fn has_food_at(slots: Seq<Option<Component>>, pos: Position) -> bool {
    exists|k: int| 0 <= k < slots.len() && is_food_at(#[trigger] slots[k], pos)
}

/// Some row of the table is a live head or body segment at `pos`, whether
/// or not the snake lists it.
pub open spec fn has_segment_at(slots: Seq<Option<Component>>, pos: Position) -> bool {
    exists|k: int| 0 <= k < slots.len() && is_segment_at(#[trigger] slots[k], pos)
}

/// The snake after the growth stage: one longer, with `last_tail` as its new
/// tail, when a segment is owed and a tail cell is recorded; as it was
/// otherwise.
pub open spec fn grown(snake: Seq<Position>, owed: bool, last_tail: Option<Position>) -> Seq<
    Position,
> {
    if owed && last_tail.is_some() {
        snake.push(last_tail.unwrap())
    } else {
        snake
    }
}

/// The row `k` belongs to one of the listed entities.
pub open spec fn listed(segments: Seq<Entity>, k: int) -> bool {
    exists|i: int| 0 <= i < segments.len() && (#[trigger] segments[i]).index == k
}

/// Two rows agree in everything but, possibly, the position.
pub open spec fn same_but_position(a: Option<Component>, b: Option<Component>) -> bool {
    match (a, b) {
        (Some(x), Some(y)) => x.tag == y.tag && x.size == y.size,
        (None, None) => true,
        _ => false,
    }
}

/// What happened during one movement tick.
#[derive(Clone, Copy, PartialEq, Eq, Structural, Debug)]
pub struct TickReport {
    /// The head left the board or ran into the body, and the world was reset.
    pub game_over: bool,
    /// The head reached a piece of food.
    pub ate: bool,
}

/// The whole state of the simulation, owned by whoever drives the ticks.
pub struct World {
    /// Every entity with its position, tag and size.
    pub store: Store,
    /// The snake's entities, head first.
    pub segments: Vec<Entity>,
    /// Direction of the last step.
    pub direction: Direction,
    /// Direction buffered for the next step.
    pub next_direction: Direction,
    /// The cell that the tail left in the most recent step.
    pub last_tail: Option<Position>,
    /// A piece of food was eaten and the segment for it is still owed.
    pub growth: bool,
    /// The game has ended and the reset is still owed.
    pub game_over: bool,
}

impl World {
    /// The positions of the snake's entities, head first.
    pub open spec fn snake(&self) -> Seq<Position> {
        Seq::new(
            self.segments@.len(),
            |i: int| self.store@[self.segments@[i].index as int].unwrap().position,
        )
    }

    /// Some piece of food lies at `pos`.
    pub open spec fn food_at(&self, pos: Position) -> bool {
        has_food_at(self.store@, pos)
    }

    /// The snake has a head and at least one segment, each of its entities
    /// is alive and tagged by its place, none is listed twice, and the
    /// buffered direction is no reversal.
    pub open spec fn valid(&self) -> bool {
        &&& self.segments@.len() >= 2
        &&& forall|i: int|
            0 <= i < self.segments@.len() ==> {
                &&& self.store.is_live(#[trigger] self.segments@[i])
                &&& self.store@[self.segments@[i].index as int].unwrap().tag == (if i == 0 {
                    Tag::Head
                } else {
                    Tag::Segment
                })
            }
        &&& forall|i: int, j: int|
            0 <= i < j < self.segments@.len() ==> (#[trigger] self.segments@[i]).index != (
            #[trigger] self.segments@[j]).index
        &&& self.next_direction != self.direction.spec_opposite()
    }

    /// The state between two ticks: valid, the whole snake on the board, and
    /// nothing owed.
    pub open spec fn wf(&self) -> bool {
        &&& self.valid()
        &&& !self.growth
        &&& !self.game_over
        &&& forall|i: int| 0 <= i < self.snake().len() ==> in_bounds(#[trigger] self.snake()[i])
    }

    /// The starting configuration of the snake: head and one segment below
    /// it, heading up, as the last two rows of a table in which every earlier
    /// row is dead.
    pub open spec fn at_start(&self) -> bool {
        &&& self.store@.len() >= 2
        &&& self.store@ == start_rows((self.store@.len() - 2) as nat)
        &&& self.segments@.len() == 2
        &&& self.segments@[0].index == self.store@.len() - 2
        &&& self.segments@[1].index == self.store@.len() - 1
        &&& self.direction == Direction::Up
        &&& self.next_direction == Direction::Up
    }

    /// At the start the snake is the head followed by its one segment, and
    /// nothing else is alive.
    pub proof fn lemma_start_snake(&self)
        requires
            self.at_start(),
        ensures
            self.valid(),
            self.snake() == seq![start_head(), start_tail()],
            forall|p: Position| !self.food_at(p),
            forall|e: Entity|
                e.index < self.store@.len() - 2 ==> !(#[trigger] self.store.is_live(e)),
    {
        let dead = (self.store@.len() - 2) as nat;
        assert(self.store@[dead as int] == Some(component_of(Tag::Head, start_head())));
        assert(self.store@[dead as int + 1] == Some(component_of(Tag::Segment, start_tail())));
        assert forall|k: int| 0 <= k < dead implies (#[trigger] self.store@[k]).is_none() by {
            assert(self.store@[k] == dead_rows(dead)[k]);
        }
        assert(self.snake() =~= seq![start_head(), start_tail()]);
    }

    /// A fresh world in the starting configuration, with nothing owed.
    pub fn new() -> (world: World)
        ensures
            world.at_start(),
            world.store@ == start_rows(0),
            world.segments@ == seq![Entity { index: 0 }, Entity { index: 1 }],
            world.wf(),
            world.last_tail.is_none(),
            world.snake() == seq![start_head(), start_tail()],
            forall|p: Position| !world.food_at(p),
    {
        let mut store = Store::new();
        let head = store.spawn(Component::spawned(Tag::Head, Position { x: 3, y: 3 }));
        let tail = store.spawn(Component::spawned(Tag::Segment, Position { x: 3, y: 2 }));
        let mut segments: Vec<Entity> = Vec::new();
        segments.push(head);
        segments.push(tail);
        let world = World {
            store,
            segments,
            direction: Direction::Up,
            next_direction: Direction::Up,
            last_tail: None,
            growth: false,
            game_over: false,
        };
        proof {
            assert(world.store@ =~= start_rows(0));
            assert(world.segments@ =~= seq![Entity { index: 0 }, Entity { index: 1 }]);
            world.lemma_start_snake();
        }
        world
    }

    /// Checks that the state is valid: what the stages of a tick rely on.
    pub fn is_valid(&self) -> (ok: bool)
        ensures
            ok == self.valid(),
    {
        let n: usize = self.segments.len();
        if n < 2 || self.next_direction == self.direction.opposite() {
            return false;
        }
        let mut i: usize = 0;
        while i < n
            invariant
                i <= n,
                n == self.segments@.len(),
                forall|a: int|
                    0 <= a < i ==> {
                        &&& self.store.is_live(#[trigger] self.segments@[a])
                        &&& self.store@[self.segments@[a].index as int].unwrap().tag == (if a
                            == 0 {
                            Tag::Head
                        } else {
                            Tag::Segment
                        })
                    },
                forall|a: int, b: int|
                    0 <= a < b < i ==> (#[trigger] self.segments@[a]).index != (
                    #[trigger] self.segments@[b]).index,
            decreases n - i,
        {
            let e = self.segments[i];
            let tagged = match self.store.get(e) {
                Some(c) => (i == 0 && c.tag == Tag::Head) || (i != 0 && c.tag == Tag::Segment),
                None => false,
            };
            if !tagged {
                assert(self.segments@[i as int] == e);
                return false;
            }
            let mut j: usize = 0;
            while j < i
                invariant
                    j <= i,
                    i < n,
                    n == self.segments@.len(),
                    e == self.segments@[i as int],
                    forall|a: int| 0 <= a < j ==> (#[trigger] self.segments@[a]).index != e.index,
                decreases i - j,
            {
                if self.segments[j].index == e.index {
                    assert(self.segments@[j as int].index == self.segments@[i as int].index);
                    return false;
                }
                j += 1;
            }
            i += 1;
        }
        true
    }

    /// Checks that the state is one between two ticks: valid, nothing owed,
    /// and the whole snake on the board.
    pub fn is_wf(&self) -> (ok: bool)
        ensures
            ok == self.wf(),
    {
        if !self.is_valid() || self.growth || self.game_over {
            return false;
        }
        let snapshot = self.positions();
        let mut i: usize = 0;
        while i < snapshot.len()
            invariant
                i <= snapshot@.len(),
                snapshot@ == self.snake(),
                forall|a: int| 0 <= a < i ==> in_bounds(#[trigger] self.snake()[a]),
            decreases snapshot@.len() - i,
        {
            if !is_in_bounds(snapshot[i]) {
                return false;
            }
            i += 1;
        }
        true
    }

    /// Number of entities in the snake, the head included.
    pub fn length(&self) -> (n: usize)
        ensures
            n == self.snake().len(),
    {
        self.segments.len()
    }

    /// The positions of the snake's entities, head first.
    pub fn positions(&self) -> (snapshot: Vec<Position>)
        requires
            self.valid(),
        ensures
            snapshot@ == self.snake(),
    {
        let mut snapshot: Vec<Position> = Vec::new();
        let mut i: usize = 0;
        while i < self.segments.len()
            invariant
                self.valid(),
                i <= self.segments@.len(),
                snapshot@ == self.snake().take(i as int),
            decreases self.segments@.len() - i,
        {
            let pos = self.store.position(self.segments[i]);
            snapshot.push(pos);
            proof {
                assert(snapshot@ =~= self.snake().take(i + 1));
            }
            i += 1;
        }
        proof {
            assert(snapshot@ =~= self.snake());
        }
        snapshot
    }

    /// The position of the head.
    pub fn head(&self) -> (pos: Position)
        requires
            self.valid(),
        ensures
            pos == self.snake()[0],
    {
        self.store.position(self.segments[0])
    }

    /// Takes a sample of the keys and buffers the direction for the next
    /// step. A reversal of the current direction is never buffered.
    pub fn input(&mut self, keys: Keys)
        requires
            old(self).valid(),
        ensures
            final(self).valid(),
            final(self).next_direction == resolved(
                keys,
                old(self).direction,
                old(self).next_direction,
            ),
            final(self).next_direction != old(self).direction.spec_opposite(),
            requested(keys, old(self).direction) == old(self).direction.spec_opposite()
                ==> final(self).next_direction == old(self).next_direction,
            requested(keys, old(self).direction) != old(self).direction.spec_opposite()
                ==> final(self).next_direction == requested(keys, old(self).direction),
            final(self).store == old(self).store,
            final(self).segments == old(self).segments,
            final(self).direction == old(self).direction,
            final(self).last_tail == old(self).last_tail,
            final(self).growth == old(self).growth,
            final(self).game_over == old(self).game_over,
    {
        self.next_direction = keys.resolve(self.direction, self.next_direction);
    }
}

} // verus!
