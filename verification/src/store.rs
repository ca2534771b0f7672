//! The entity table: opaque identifiers and the components they own.

use vstd::prelude::*;
use crate::grid::Position;

verus! {

/// An identifier of a row of the table. It carries no data of its own.
#[derive(Clone, Copy, PartialEq, Eq, Structural, Debug, Hash)]
pub struct Entity {
    pub index: usize,
}

/// What an entity is, for the rules and for whoever draws it.
#[derive(Clone, Copy, PartialEq, Eq, Structural, Debug)]
pub enum Tag {
    Head,
    Segment,
    Food,
}

/// Logical extent of an entity in tenths of a cell, independent of pixels.
#[derive(Clone, Copy, PartialEq, Eq, Structural, Debug)]
pub struct Size {
    pub width: u32,
    pub height: u32,
}

/// Everything an entity owns for its lifetime.
#[derive(Clone, Copy, PartialEq, Eq, Structural, Debug)]
pub struct Component {
    pub position: Position,
    pub tag: Tag,
    pub size: Size,
}

/// Side of the head, in tenths of a cell.
pub const HEAD_SIDE: u32 = 8;

/// Side of a body segment, in tenths of a cell.
pub const SEGMENT_SIDE: u32 = 5;

/// Side of a piece of food, in tenths of a cell.
pub const FOOD_SIDE: u32 = 7;

/// The component of an entity with the given tag at `position`.
pub open spec fn component_of(tag: Tag, position: Position) -> Component {
    let side = match tag {
        Tag::Head => HEAD_SIDE,
        Tag::Segment => SEGMENT_SIDE,
        Tag::Food => FOOD_SIDE,
    };
    Component { position, tag, size: Size { width: side, height: side } }
}

/// A slot holds a piece of food lying at `pos`.
pub open spec fn is_food_at(slot: Option<Component>, pos: Position) -> bool {
    slot matches Some(c) && c.tag == Tag::Food && c.position == pos
}

/// A slot holds a live part of a snake, head or body, lying at `pos`.
pub open spec fn is_segment_at(slot: Option<Component>, pos: Position) -> bool {
    slot matches Some(c) && c.tag != Tag::Food && c.position == pos
}

/// A table of `n` rows whose entities have all been destroyed.
pub open spec fn dead_rows(n: nat) -> Seq<Option<Component>> {
    Seq::new(n, |k: int| None::<Component>)
}

impl Size {
    /// A size with equal width and height.
    pub fn square(side: u32) -> (size: Size)
        ensures
            size.width == side,
            size.height == side,
    {
        Size { width: side, height: side }
    }
}

impl Component {
    /// The component with which an entity of the given tag is spawned.
    pub fn spawned(tag: Tag, position: Position) -> (c: Component)
        ensures
            c == component_of(tag, position),
    {
        let side: u32 = match tag {
            Tag::Head => HEAD_SIDE,
            Tag::Segment => SEGMENT_SIDE,
            Tag::Food => FOOD_SIDE,
        };
        Component { position, tag, size: Size::square(side) }
    }
}

/// Table from entity identifiers to components. A destroyed entity keeps its
/// row, which is then empty for good, so no identifier is ever given out
/// twice and one that was destroyed never names an entity again.
pub struct Store {
    pub slots: Vec<Option<Component>>,
}

impl View for Store {
    type V = Seq<Option<Component>>;

    open spec fn view(&self) -> Seq<Option<Component>> {
        self.slots@
    }
}

impl Store {
    /// The entity exists and has not been destroyed.
    pub open spec fn is_live(&self, e: Entity) -> bool {
        e.index < self@.len() && self@[e.index as int].is_some()
    }

    /// An empty table.
    pub fn new() -> (store: Store)
        ensures
            store@ == Seq::<Option<Component>>::empty(),
    {
        Store { slots: Vec::new() }
    }

    /// Destroys every entity at once. The rows stay, empty, so that the
    /// identifiers given out so far stay dead.
    pub fn despawn_all(&mut self)
        ensures
            final(self)@ == dead_rows(old(self)@.len()),
    {
        let n: usize = self.slots.len();
        let mut k: usize = 0;
        while k < n
            invariant
                k <= n,
                n == self.slots@.len(),
                n == old(self)@.len(),
                forall|j: int| 0 <= j < k ==> (#[trigger] self.slots@[j]).is_none(),
            decreases n - k,
        {
            self.slots[k] = None;
            k += 1;
        }
        proof {
            assert(self@ =~= dead_rows(old(self)@.len()));
        }
    }

    /// Number of rows, destroyed entities included.
    pub fn len(&self) -> (n: usize)
        ensures
            n == self@.len(),
    {
        self.slots.len()
    }

    /// Creates an entity that owns `component` and returns its identifier.
    pub fn spawn(&mut self, component: Component) -> (e: Entity)
        ensures
            final(self)@ == old(self)@.push(Some(component)),
            e.index == old(self)@.len(),
    {
        let index: usize = self.slots.len();
        self.slots.push(Some(component));
        Entity { index }
    }

    /// Destroys an entity together with all it owns. Destroying an entity
    /// that does not exist changes nothing.
    pub fn despawn(&mut self, e: Entity)
        ensures
            final(self)@ == (if e.index < old(self)@.len() {
                old(self)@.update(e.index as int, None)
            } else {
                old(self)@
            }),
    {
        if e.index < self.slots.len() {
            self.slots[e.index] = None;
        }
    }

    /// The component of an entity, or `None` when it does not exist.
    pub fn get(&self, e: Entity) -> (found: Option<Component>)
        ensures
            found == (if e.index < self@.len() {
                self@[e.index as int]
            } else {
                None
            }),
    {
        if e.index < self.slots.len() {
            self.slots[e.index]
        } else {
            None
        }
    }

    /// The position of a live entity.
    pub fn position(&self, e: Entity) -> (pos: Position)
        requires
            self.is_live(e),
        ensures
            pos == self@[e.index as int].unwrap().position,
    {
        self.slots[e.index].unwrap().position
    }

    /// Moves a live entity to `pos`; its tag and size are kept.
    pub fn set_position(&mut self, e: Entity, pos: Position)
        requires
            old(self).is_live(e),
        ensures
            final(self)@ == old(self)@.update(
                e.index as int,
                Some(
                    Component {
                        position: pos,
                        tag: old(self)@[e.index as int].unwrap().tag,
                        size: old(self)@[e.index as int].unwrap().size,
                    },
                ),
            ),
    {
        let c = self.slots[e.index].unwrap();
        self.slots[e.index] = Some(Component { position: pos, tag: c.tag, size: c.size });
    }
}

} // verus!
