//! The rapier2d containers the world is built from, and the calls into them.
use crate::handle::{opt_body_key, BodyHandle, ColliderHandle};
use rapier2d::prelude::{
    Collider, ColliderSet, ImpulseJointSet, IslandManager, MultibodyJointSet, RigidBody,
    RigidBodySet,
};
use vstd::multiset::Multiset;
use vstd::prelude::*;

verus! {

#[verifier::external_type_specification]
#[verifier::external_body]
pub struct ExRigidBodySet(RigidBodySet);

#[verifier::external_type_specification]
#[verifier::external_body]
pub struct ExColliderSet(ColliderSet);

#[verifier::external_type_specification]
#[verifier::external_body]
pub struct ExIslandManager(IslandManager);

#[verifier::external_type_specification]
#[verifier::external_body]
pub struct ExImpulseJointSet(ImpulseJointSet);

#[verifier::external_type_specification]
#[verifier::external_body]
pub struct ExMultibodyJointSet(MultibodyJointSet);

#[verifier::external_type_specification]
#[verifier::external_body]
pub struct ExRigidBody(RigidBody);

#[verifier::external_type_specification]
#[verifier::external_body]
pub struct ExCollider(Collider);

/// The (slot, generation) keys of the bodies that a body set holds.
pub uninterp spec fn body_keys(s: RigidBodySet) -> Set<(u32, u32)>;

/// The attachment list that each body of a body set keeps: for a live
/// body's key, the keys of the colliders on its list, with multiplicity.
pub uninterp spec fn attached(s: RigidBodySet) -> Map<(u32, u32), Multiset<(u32, u32)>>;

/// What a collider set holds: for each collider key, the key of its parent
/// body (if any) and whether the collider is a sensor.
pub uninterp spec fn collider_table(s: ColliderSet) -> Map<(u32, u32), (Option<(u32, u32)>, bool)>;

/// Relies on RigidBodySet::new: a fresh set holds no body.
#[verifier::external_body]
pub(crate) fn new_body_set() -> (r: RigidBodySet)
    ensures
        forall|k: (u32, u32)| !body_keys(r).contains(k),
        body_keys(r).finite(),
{
    RigidBodySet::new()
}

/// Relies on ColliderSet::new: a fresh set holds no collider.
#[verifier::external_body]
pub(crate) fn new_collider_set() -> (r: ColliderSet)
    ensures
        forall|k: (u32, u32)| !collider_table(r).contains_key(k),
{
    ColliderSet::new()
}

pub assume_specification[ IslandManager::new ]() -> IslandManager;

pub assume_specification[ ImpulseJointSet::new ]() -> ImpulseJointSet;

pub assume_specification[ MultibodyJointSet::new ]() -> MultibodyJointSet;

/// Relies on RigidBodySet::contains: whether the arena holds a live body
/// under this slot and generation.
#[verifier::external_body]
pub(crate) fn body_present(s: &RigidBodySet, h: BodyHandle) -> (r: bool)
    ensures
        r == body_keys(*s).contains(h.key()),
{
    s.contains(rapier2d::prelude::RigidBodyHandle::from_raw_parts(h.index, h.generation))
}

/// Relies on ColliderSet::contains: whether the arena holds a live collider
/// under this slot and generation.
#[verifier::external_body]
pub(crate) fn collider_present(s: &ColliderSet, h: ColliderHandle) -> (r: bool)
    ensures
        r == collider_table(*s).contains_key(h.key()),
{
    s.contains(rapier2d::prelude::ColliderHandle::from_raw_parts(h.index, h.generation))
}

/// Relies on RigidBodySet::insert: the body goes into a vacant slot, whose
/// handle names no live body before the call; its attachment list starts
/// empty (reset_internal_references) and no other list changes.
#[verifier::external_body]
pub(crate) fn insert_body(s: &mut RigidBodySet, body: RigidBody) -> (r: BodyHandle)
    ensures
        !body_keys(*old(s)).contains(r.key()),
        body_keys(*final(s)) == body_keys(*old(s)).insert(r.key()),
        attached(*final(s))[r.key()] == Multiset::<(u32, u32)>::empty(),
        forall|b: (u32, u32)| #[trigger]
            body_keys(*old(s)).contains(b) ==> attached(*final(s))[b] == attached(*old(s))[b],
{
    let (index, generation) = s.insert(body).into_raw_parts();
    BodyHandle { index, generation }
}

/// Relies on ColliderSet::insert_with_parent: the collider goes into a vacant
/// slot and records the given body as its parent. The call panics when the
/// parent is not in the body set, hence the precondition. The body set keeps
/// the same bodies; the new collider is pushed on the parent's attachment
/// list (attach_collider) and no other list changes.
#[verifier::external_body]
pub(crate) fn insert_collider(
    s: &mut ColliderSet,
    collider: Collider,
    parent: BodyHandle,
    bodies: &mut RigidBodySet,
) -> (r: ColliderHandle)
    requires
        body_keys(*old(bodies)).contains(parent.key()),
    ensures
        !collider_table(*old(s)).contains_key(r.key()),
        collider_table(*final(s)).dom() == collider_table(*old(s)).dom().insert(r.key()),
        collider_table(*final(s))[r.key()].0 == Some(parent.key()),
        forall|k: (u32, u32)|
            k != r.key() && #[trigger] collider_table(*old(s)).contains_key(k) ==> collider_table(
                *final(s),
            )[k] == collider_table(*old(s))[k],
        body_keys(*final(bodies)) == body_keys(*old(bodies)),
        forall|b: (u32, u32)| #[trigger]
            body_keys(*old(bodies)).contains(b) ==> attached(*final(bodies))[b] == (if b
                == parent.key() {
                attached(*old(bodies))[b].insert(r.key())
            } else {
                attached(*old(bodies))[b]
            }),
{
    let p = rapier2d::prelude::RigidBodyHandle::from_raw_parts(parent.index, parent.generation);
    let (index, generation) = s.insert_with_parent(collider, p, bodies).into_raw_parts();
    ColliderHandle { index, generation }
}

/// Relies on ColliderSet::remove: the collider leaves the set (a stale
/// handle changes nothing) and the body set keeps the same bodies. When the
/// collider's parent is live, one occurrence of the collider leaves the
/// parent's attachment list (remove_collider_internal); no other list
/// changes.
#[verifier::external_body]
pub(crate) fn erase_collider(
    s: &mut ColliderSet,
    h: ColliderHandle,
    islands: &mut IslandManager,
    bodies: &mut RigidBodySet,
)
    ensures
        collider_table(*final(s)) == collider_table(*old(s)).remove(h.key()),
        body_keys(*final(bodies)) == body_keys(*old(bodies)),
        forall|b: (u32, u32)| #[trigger]
            body_keys(*old(bodies)).contains(b) ==> attached(*final(bodies))[b] == (if collider_table(
                *old(s),
            ).contains_key(h.key()) && collider_table(*old(s))[h.key()].0 == Some(b) {
                attached(*old(bodies))[b].remove(h.key())
            } else {
                attached(*old(bodies))[b]
            }),
{
    let c = rapier2d::prelude::ColliderHandle::from_raw_parts(h.index, h.generation);
    s.remove(c, islands, bodies, true);
}

/// Relies on RigidBodySet::remove: the body leaves the set (a stale handle
/// changes nothing). Colliders are removed only from the body's own
/// attachment list, which the precondition asks to be empty; so the
/// collider set and the other bodies' lists stay as they were.
#[verifier::external_body]
pub(crate) fn erase_body(
    s: &mut RigidBodySet,
    h: BodyHandle,
    islands: &mut IslandManager,
    colliders: &mut ColliderSet,
    impulse_joints: &mut ImpulseJointSet,
    multibody_joints: &mut MultibodyJointSet,
)
    requires
        body_keys(*old(s)).contains(h.key()) ==> forall|k: (u32, u32)|
            #[trigger] attached(*old(s))[h.key()].count(k) == 0,
    ensures
        body_keys(*final(s)) == body_keys(*old(s)).remove(h.key()),
        collider_table(*final(colliders)) == collider_table(*old(colliders)),
        forall|b: (u32, u32)| #[trigger]
            body_keys(*final(s)).contains(b) ==> attached(*final(s))[b] == attached(*old(s))[b],
{
    let b = rapier2d::prelude::RigidBodyHandle::from_raw_parts(h.index, h.generation);
    s.remove(b, islands, colliders, impulse_joints, multibody_joints, true);
}

/// Relies on Collider::parent, read through ColliderSet's index: the body the
/// collider is attached to. Indexing panics on a missing collider, hence the
/// precondition.
#[verifier::external_body]
pub(crate) fn collider_parent(s: &ColliderSet, h: ColliderHandle) -> (r: Option<BodyHandle>)
    requires
        collider_table(*s).contains_key(h.key()),
    ensures
        opt_body_key(r) == collider_table(*s)[h.key()].0,
{
    let c = rapier2d::prelude::ColliderHandle::from_raw_parts(h.index, h.generation);
    s[c].parent().map(|p| {
        let (index, generation) = p.into_raw_parts();
        BodyHandle { index, generation }
    })
}

/// Relies on Collider::is_sensor, read through ColliderSet's index. Indexing
/// panics on a missing collider, hence the precondition.
#[verifier::external_body]
pub(crate) fn collider_sensor(s: &ColliderSet, h: ColliderHandle) -> (r: bool)
    requires
        collider_table(*s).contains_key(h.key()),
    ensures
        r == collider_table(*s)[h.key()].1,
{
    let c = rapier2d::prelude::ColliderHandle::from_raw_parts(h.index, h.generation);
    s[c].is_sensor()
}

/// Relies on Collider::set_sensor, reached through ColliderSet's mutable
/// index: only that collider's sensor flag changes. Indexing panics on a
/// missing collider, hence the precondition.
#[verifier::external_body]
pub(crate) fn set_collider_sensor(s: &mut ColliderSet, h: ColliderHandle, sensor: bool)
    requires
        collider_table(*old(s)).contains_key(h.key()),
    ensures
        collider_table(*final(s)) == collider_table(*old(s)).insert(
            h.key(),
            (collider_table(*old(s))[h.key()].0, sensor),
        ),
{
    let c = rapier2d::prelude::ColliderHandle::from_raw_parts(h.index, h.generation);
    s[c].set_sensor(sensor);
}

/// Relies on ColliderSet::iter: it visits every collider of the set, and
/// only those.
#[verifier::external_body]
pub(crate) fn collider_handles(s: &ColliderSet) -> (r: Vec<ColliderHandle>)
    ensures
        forall|i: int| 0 <= i < r@.len() ==> collider_table(*s).contains_key(#[trigger] r@[i].key()),
        forall|k: (u32, u32)| #[trigger]
            collider_table(*s).contains_key(k) ==> exists|i: int|
                0 <= i < r@.len() && #[trigger] r@[i].key() == k,
{
    s.iter().map(|(c, _)| {
        let (index, generation) = c.into_raw_parts();
        ColliderHandle { index, generation }
    }).collect()
}

} // verus!
