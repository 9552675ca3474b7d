use vstd::prelude::*;

verus! {

/// A generation-checked identifier of a rigid body in a world.
#[derive(Clone, Copy, Debug, PartialEq, Eq, Structural)]
pub struct BodyHandle {
    pub index: u32,
    pub generation: u32,
}

/// A generation-checked identifier of a collider in a world.
#[derive(Clone, Copy, Debug, PartialEq, Eq, Structural)]
pub struct ColliderHandle {
    pub index: u32,
    pub generation: u32,
}

impl BodyHandle {
    /// The (slot, generation) pair that names this body in the engine's arena.
    pub open spec fn key(self) -> (u32, u32) {
        (self.index, self.generation)
    }
}

impl ColliderHandle {
    /// The (slot, generation) pair that names this collider in the engine's arena.
    pub open spec fn key(self) -> (u32, u32) {
        (self.index, self.generation)
    }
}

/// The key of an optional body handle.
pub open spec fn opt_body_key(h: Option<BodyHandle>) -> Option<(u32, u32)> {
    match h {
        Some(b) => Some(b.key()),
        None => None,
    }
}

} // verus!
