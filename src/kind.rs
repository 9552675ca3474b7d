//! The kinds of rigid body a scene node can stand for.
use vstd::prelude::*;

verus! {

/// How a rigid body moves: driven by forces, fixed, or moved by the scene
/// through its position or its velocity.
#[derive(Clone, Copy, Debug, PartialEq, Eq, Structural)]
pub enum RapierRigidBodyType {
    Dynamic,
    Fixed,
    KinematicPositionBased,
    KinematicVelocityBased,
}

/// An enumerated configuration value that names no body kind.
#[derive(Clone, Copy, Debug, PartialEq, Eq, Structural)]
pub struct UnknownBodyKind {
    pub index: i64,
}

/// The index under which each kind is exposed to the scene's property editor.
pub open spec fn kind_index(k: RapierRigidBodyType) -> i64 {
    match k {
        RapierRigidBodyType::Dynamic => 0,
        RapierRigidBodyType::Fixed => 1,
        RapierRigidBodyType::KinematicPositionBased => 2,
        RapierRigidBodyType::KinematicVelocityBased => 3,
    }
}

impl RapierRigidBodyType {
    /// The kind's index in the property editor.
    pub fn to_index(&self) -> (r: i64)
        ensures
            r == kind_index(*self),
    {
        match *self {
            RapierRigidBodyType::Dynamic => 0,
            RapierRigidBodyType::Fixed => 1,
            RapierRigidBodyType::KinematicPositionBased => 2,
            RapierRigidBodyType::KinematicVelocityBased => 3,
        }
    }

    /// The kind stored under an index; any index outside 0..=3 is refused.
    pub fn from_index(i: i64) -> (r: Result<RapierRigidBodyType, UnknownBodyKind>)
        ensures
            0 <= i <= 3 ==> (r matches Ok(k) && kind_index(k) == i),
            !(0 <= i <= 3) ==> r == Err::<RapierRigidBodyType, UnknownBodyKind>(UnknownBodyKind { index: i }),
    {
        if i == 0 {
            Ok(RapierRigidBodyType::Dynamic)
        } else if i == 1 {
            Ok(RapierRigidBodyType::Fixed)
        } else if i == 2 {
            Ok(RapierRigidBodyType::KinematicPositionBased)
        } else if i == 3 {
            Ok(RapierRigidBodyType::KinematicVelocityBased)
        } else {
            Err(UnknownBodyKind { index: i })
        }
    }

    /// The kind's name as the property editor lists it.
    pub fn name(&self) -> (r: &'static str)
        ensures
            r@ == match *self {
                RapierRigidBodyType::Dynamic => "Dynamic"@,
                RapierRigidBodyType::Fixed => "Fixed"@,
                RapierRigidBodyType::KinematicPositionBased => "KinematicPositionBased"@,
                RapierRigidBodyType::KinematicVelocityBased => "KinematicVelocityBased"@,
            },
    {
        match *self {
            RapierRigidBodyType::Dynamic => {
                proof { reveal_strlit("Dynamic"); }
                "Dynamic"
            },
            RapierRigidBodyType::Fixed => {
                proof { reveal_strlit("Fixed"); }
                "Fixed"
            },
            RapierRigidBodyType::KinematicPositionBased => {
                proof { reveal_strlit("KinematicPositionBased"); }
                "KinematicPositionBased"
            },
            RapierRigidBodyType::KinematicVelocityBased => {
                proof { reveal_strlit("KinematicVelocityBased"); }
                "KinematicVelocityBased"
            },
        }
    }
}

/// Reading a kind back from its index gives the same kind.
pub proof fn lemma_kind_index_round_trip(k: RapierRigidBodyType)
    ensures
        0 <= kind_index(k) <= 3,
        forall|l: RapierRigidBodyType| kind_index(l) == kind_index(k) ==> l == k,
{
}

} // verus!
