//! World-space data: positions in fixed-point world units, and the static
//! catalog of interactable objects with their motive effects.

use vstd::prelude::*;

use crate::motives::{BasicMotivesDelta, MOTIVE_COUNT, MOTIVE_SCALE};
use crate::SimError;

verus! {

/// Thousandths of a world unit per unit: world coordinates are stored in
/// these milliunits.
pub const MILLI_PER_UNIT: i64 = 1000;

/// Largest coordinate magnitude, in milliunits, the world accepts. It keeps
/// every squared distance within `u64`.
pub const POS_LIMIT: i64 = 1_000_000_000;

/// A coordinate on the tile grid.
#[derive(Clone, Copy, Debug, PartialEq, Eq, Hash, Structural)]
pub struct TilePosition {
    pub x: i64,
    pub y: i64,
}

/// A continuous world-space position, in milliunits.
#[derive(Clone, Copy, Debug, PartialEq, Eq, Structural)]
pub struct WorldPosition {
    pub x: i64,
    pub y: i64,
}

impl WorldPosition {
    /// Within the world's coordinate bounds.
    pub open spec fn wf(&self) -> bool {
        &&& -POS_LIMIT <= self.x <= POS_LIMIT
        &&& -POS_LIMIT <= self.y <= POS_LIMIT
    }

    pub fn new(x: i64, y: i64) -> (r: WorldPosition)
        requires
            -POS_LIMIT <= x <= POS_LIMIT,
            -POS_LIMIT <= y <= POS_LIMIT,
        ensures
            r == (WorldPosition { x, y }),
            r.wf(),
    {
        WorldPosition { x, y }
    }
}

/// A stationary interactable: identity, position, and the fixed effect its
/// use applies to the user's motives, once, on arrival.
#[derive(Clone, Debug)]
pub struct WorldObject {
    /// Stable identity; also the tie breaker when two objects score equally.
    pub id: u64,
    pub position: WorldPosition,
    pub effect: BasicMotivesDelta,
}

impl WorldObject {
    /// A well-formed object sits inside the world and its effect never
    /// exceeds one whole unit interval per channel (a larger change would
    /// saturate anyway).
    pub open spec fn wf(&self) -> bool {
        &&& self.position.wf()
        &&& self.effect.wf()
        &&& forall|i: int|
            0 <= i < MOTIVE_COUNT ==> -(MOTIVE_SCALE as int) <= #[trigger] self.effect@[i]
                <= MOTIVE_SCALE as int
    }
}

/// The read-only table of world objects: populated at world setup, never
/// mutated afterward, read by every agent.
#[derive(Clone, Debug)]
pub struct WorldObjectCatalog(pub Vec<WorldObject>);

impl View for WorldObjectCatalog {
    type V = Seq<WorldObject>;

    open spec fn view(&self) -> Seq<WorldObject> {
        self.0@
    }
}

impl WorldObjectCatalog {
    /// Every object is well-formed and object identities never repeat.
    pub open spec fn wf(&self) -> bool {
        &&& forall|i: int| 0 <= i < self@.len() ==> (#[trigger] self@[i]).wf()
        &&& forall|i: int, j: int|
            0 <= i < self@.len() && 0 <= j < self@.len() && i != j ==> self@[i].id != self@[j].id
    }

    pub fn new() -> (r: WorldObjectCatalog)
        ensures
            r.wf(),
            r@.len() == 0,
    {
        WorldObjectCatalog(Vec::new())
    }

    pub fn len(&self) -> (r: usize)
        ensures
            r == self@.len(),
    {
        self.0.len()
    }

    pub fn object_at(&self, i: usize) -> (r: &WorldObject)
        requires
            i < self@.len(),
        ensures
            *r == self@[i as int],
    {
        &self.0[i]
    }

    /// Adds an object during world setup. The object is taken only when its
    /// identity is still free, so identities stay unique; the result says
    /// whether it was added.
    pub fn add_object(&mut self, object: WorldObject) -> (r: bool)
        requires
            old(self).wf(),
            object.wf(),
        ensures
            final(self).wf(),
            r == (forall|i: int| 0 <= i < old(self)@.len() ==> (#[trigger] old(self)@[i]).id != object.id),
            r ==> final(self)@ == old(self)@.push(object),
            !r ==> final(self)@ == old(self)@,
    {
        let mut i: usize = 0;
        while i < self.0.len()
            invariant
                i <= self@.len(),
                *self == *old(self),
                self.wf(),
                object.wf(),
                forall|k: int| 0 <= k < i ==> (#[trigger] self@[k]).id != object.id,
            decreases self@.len() - i,
        {
            if self.0[i].id == object.id {
                return false;
            }
            i = i + 1;
        }
        self.0.push(object);
        true
    }

    /// The index of the object with the given identity, if any.
    pub fn find_by_id(&self, id: u64) -> (r: Option<usize>)
        ensures
            r matches Some(j) ==> j < self@.len() && self@[j as int].id == id,
            r is None ==> forall|i: int| 0 <= i < self@.len() ==> (#[trigger] self@[i]).id != id,
    {
        let mut i: usize = 0;
        while i < self.0.len()
            invariant
                i <= self@.len(),
                forall|k: int| 0 <= k < i ==> (#[trigger] self@[k]).id != id,
            decreases self@.len() - i,
        {
            if self.0[i].id == id {
                return Some(i);
            }
            i = i + 1;
        }
        None
    }

    /// Looks an object up by identity; an unknown identity is a reported
    /// `NotFound`, never a silent zero-state.
    pub fn get_by_id(&self, id: u64) -> (r: Result<&WorldObject, SimError>)
        ensures
            r matches Ok(o) ==> exists|i: int|
                0 <= i < self@.len() && self@[i] == *o && (#[trigger] self@[i]).id == id,
            r is Err ==> r == Err::<&WorldObject, SimError>(SimError::NotFound) && forall|i: int|
                0 <= i < self@.len() ==> (#[trigger] self@[i]).id != id,
    {
        match self.find_by_id(id) {
            Some(i) => Ok(&self.0[i]),
            None => Err(SimError::NotFound),
        }
    }
}

} // verus!
