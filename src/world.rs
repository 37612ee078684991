use vstd::prelude::*;

verus! {

/// An object of the game world, named by the bits of its engine handle.
#[derive(Clone, Copy, Debug, PartialEq, Eq, Hash, Structural)]
pub struct EntityId(pub u64);

/// A contact between two colliders, as the physics step reports it.
#[derive(Clone, Copy, Debug, PartialEq, Eq, Structural)]
pub enum Contact {
    Started(EntityId, EntityId),
    Stopped(EntityId, EntityId),
}

/// `e` is one of the two colliders of a contact between `a` and `b`.
pub open spec fn involves(a: EntityId, b: EntityId, e: EntityId) -> bool {
    a == e || b == e
}

/// The contact between `a` and `b` is one between `x` and `y`, in either order.
pub open spec fn is_pair(a: EntityId, b: EntityId, x: EntityId, y: EntityId) -> bool {
    (a == x && b == y) || (b == x && a == y)
}

} // verus!
