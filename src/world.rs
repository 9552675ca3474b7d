//! The world: the engine's body and collider stores, and the side table that
//! maps each collider back to the scene node that owns it.
use crate::engine::{
    attached, body_keys, body_present, collider_handles, collider_parent, collider_present, collider_sensor,
    collider_table, insert_body, insert_collider, new_body_set, new_collider_set, erase_body,
    erase_collider, set_collider_sensor,
};
use crate::handle::{BodyHandle, ColliderHandle};
use rapier2d::prelude::{
    Collider, ColliderSet, ImpulseJointSet, IslandManager, MultibodyJointSet, RigidBody,
    RigidBodySet,
};
use std::collections::HashMap;
use vstd::multiset::Multiset;
use vstd::prelude::*;

verus! {

broadcast use {vstd::std_specs::hash::group_hash_axioms, vstd::multiset::group_multiset_axioms};

/// The side-table key of a collider: slot in the high half, generation in the low half.
pub open spec fn tag_key(k: (u32, u32)) -> u64 {
    ((k.0 as u64) << 32u64) | (k.1 as u64)
}

/// The collider key that a side-table key packs.
pub open spec fn untag(p: u64) -> (u32, u32) {
    ((p >> 32u64) as u32, p as u32)
}

proof fn lemma_tag_round_trip(a: u32, b: u32)
    ensures
        untag(tag_key((a, b))) == (a, b),
{
    assert((((((a as u64) << 32u64) | (b as u64)) >> 32u64) as u32) == a) by (bit_vector);
    assert(((((a as u64) << 32u64) | (b as u64)) as u32) == b) by (bit_vector);
}

proof fn lemma_untag_round_trip(p: u64)
    ensures
        tag_key(untag(p)) == p,
{
    assert(((((p >> 32u64) as u32) as u64) << 32u64) | ((p as u32) as u64) == p) by (bit_vector);
}

proof fn lemma_tag_injective(k: (u32, u32), l: (u32, u32))
    ensures
        tag_key(k) == tag_key(l) ==> k == l,
{
    lemma_tag_round_trip(k.0, k.1);
    lemma_tag_round_trip(l.0, l.1);
}

fn tag_of(h: ColliderHandle) -> (r: u64)
    ensures
        r == tag_key(h.key()),
{
    ((h.index as u64) << 32u64) | (h.generation as u64)
}

/// One physics world: engine stores for bodies and colliders, plus the
/// owner side table. Every collider has a live parent body and an owner.
pub struct World2DState {
    pub island_manager: IslandManager,
    pub rigid_body_set: RigidBodySet,
    pub collider_set: ColliderSet,
    pub impulse_joints: ImpulseJointSet,
    pub multibody_joints: MultibodyJointSet,
    pub owners: HashMap<u64, u64>,
}

impl World2DState {
    /// Keys of the live bodies.
    pub open spec fn bodies(&self) -> Set<(u32, u32)> {
        body_keys(self.rigid_body_set)
    }

    /// Live colliders: parent body key and sensor flag.
    pub open spec fn colliders(&self) -> Map<(u32, u32), (Option<(u32, u32)>, bool)> {
        collider_table(self.collider_set)
    }

    /// Each live body's attachment list, as the engine keeps it.
    pub open spec fn attachments(&self) -> Map<(u32, u32), Multiset<(u32, u32)>> {
        attached(self.rigid_body_set)
    }

    /// Whether collider `k` hangs from body `b`.
    pub open spec fn hangs_from(&self, k: (u32, u32), b: (u32, u32)) -> bool {
        self.colliders().contains_key(k) && self.colliders()[k].0 == Some(b)
    }

    /// The scene node that owns each live collider.
    pub open spec fn owners(&self) -> Map<(u32, u32), u64> {
        Map::new(|k: (u32, u32)| self.colliders().contains_key(k), |k: (u32, u32)| self.owners@[tag_key(k)])
    }

    /// Every collider hangs from a live body, each live body's attachment
    /// list holds exactly the colliders that hang from it, and the owner
    /// table covers exactly the live colliders.
    pub open spec fn wf(&self) -> bool {
        &&& self.bodies().finite()
        &&& forall|b: (u32, u32), k: (u32, u32)|
            self.bodies().contains(b) ==> #[trigger] self.attachments()[b].count(k) == (if self.hangs_from(k, b) {
                1nat
            } else {
                0nat
            })
        &&& forall|k: (u32, u32)| #[trigger]
            self.colliders().contains_key(k) ==> match self.colliders()[k].0 {
                Some(p) => self.bodies().contains(p),
                None => false,
            }
        &&& forall|k: (u32, u32)|
            self.colliders().contains_key(k) <==> #[trigger] self.owners@.contains_key(tag_key(k))
        &&& forall|p: u64| #[trigger] self.owners@.contains_key(p) ==> self.colliders().contains_key(untag(p))
    }

    /// Every collider key that stays has the parent it had before.
    pub open spec fn parents_kept(&self, before: &World2DState) -> bool {
        forall|k: (u32, u32)| #[trigger]
            self.colliders().contains_key(k) ==> before.colliders().contains_key(k)
                && self.colliders()[k] == before.colliders()[k]
    }

    /// An empty world.
    pub fn new() -> (r: Self)
        ensures
            r.wf(),
            r.bodies() == Set::<(u32, u32)>::empty(),
            r.colliders() == Map::<(u32, u32), (Option<(u32, u32)>, bool)>::empty(),
    {
        let r = World2DState {
            island_manager: IslandManager::new(),
            rigid_body_set: new_body_set(),
            collider_set: new_collider_set(),
            impulse_joints: ImpulseJointSet::new(),
            multibody_joints: MultibodyJointSet::new(),
            owners: HashMap::new(),
        };
        assert(r.bodies() =~= Set::<(u32, u32)>::empty());
        assert(r.colliders() =~= Map::<(u32, u32), (Option<(u32, u32)>, bool)>::empty());
        proof {
            assert forall|p: u64| #[trigger] r.owners@.contains_key(p) implies r.colliders().contains_key(untag(p)) by {}
        }
        r
    }

    /// Whether the body is live in this world.
    pub fn has_body(&self, h: BodyHandle) -> (r: bool)
        ensures
            r == self.bodies().contains(h.key()),
    {
        body_present(&self.rigid_body_set, h)
    }

    /// Whether the collider is live in this world.
    pub fn has_collider(&self, h: ColliderHandle) -> (r: bool)
        ensures
            r == self.colliders().contains_key(h.key()),
    {
        collider_present(&self.collider_set, h)
    }

    /// Inserts a rigid body under a fresh handle. Colliders are untouched.
    pub fn insert_rigid_body(&mut self, body: RigidBody) -> (r: BodyHandle)
        requires
            old(self).wf(),
        ensures
            final(self).wf(),
            !old(self).bodies().contains(r.key()),
            final(self).bodies() == old(self).bodies().insert(r.key()),
            final(self).colliders() == old(self).colliders(),
            final(self).owners() == old(self).owners(),
    {
        let r = insert_body(&mut self.rigid_body_set, body);
        assert(self.owners() =~= old(self).owners());
        proof {
            assert forall|b: (u32, u32), k: (u32, u32)| self.bodies().contains(b) implies #[trigger] self.attachments()[b].count(k) == (if self.hangs_from(k, b) {
                    1nat
                } else {
                    0nat
                }) by {
                if b != r.key() {
                    assert(old(self).attachments()[b].count(k) == (if old(self).hangs_from(k, b) { 1nat } else { 0nat }));
                } else if self.hangs_from(k, b) {
                    assert(old(self).colliders().contains_key(k));
                }
            }
        }
        r
    }

    /// Inserts a collider attached to a live body, under a fresh handle,
    /// with the given sensor flag, and records the scene node that owns it.
    pub fn insert_collider_with_parent(
        &mut self,
        coll: Collider,
        parent_handle: BodyHandle,
        owner: u64,
        sensor: bool,
    ) -> (r: ColliderHandle)
        requires
            old(self).wf(),
            old(self).bodies().contains(parent_handle.key()),
        ensures
            final(self).wf(),
            !old(self).colliders().contains_key(r.key()),
            final(self).colliders() == old(self).colliders().insert(
                r.key(),
                (Some(parent_handle.key()), sensor),
            ),
            final(self).bodies() == old(self).bodies(),
            final(self).owners() == old(self).owners().insert(r.key(), owner),
    {
        let h = insert_collider(&mut self.collider_set, coll, parent_handle, &mut self.rigid_body_set);
        set_collider_sensor(&mut self.collider_set, h, sensor);
        let t = tag_of(h);
        self.owners.insert(t, owner);
        proof {
            assert(self.colliders() =~= old(self).colliders().insert(h.key(), (Some(parent_handle.key()), sensor)));
            assert forall|b: (u32, u32), k: (u32, u32)| self.bodies().contains(b) implies #[trigger] self.attachments()[b].count(k) == (if self.hangs_from(k, b) {
                    1nat
                } else {
                    0nat
                }) by {
                assert(old(self).attachments()[b].count(k) == (if old(self).hangs_from(k, b) { 1nat } else { 0nat }));
                assert(old(self).attachments()[b].count(h.key()) == (if old(self).hangs_from(h.key(), b) { 1nat } else { 0nat }));
            }
            assert forall|k: (u32, u32)|
                self.colliders().contains_key(k) <==> #[trigger] self.owners@.contains_key(tag_key(k)) by {
                lemma_tag_injective(k, h.key());
            }
            assert forall|p: u64| #[trigger] self.owners@.contains_key(p) implies self.colliders().contains_key(untag(p)) by {
                if p == t {
                    lemma_tag_round_trip(h.index, h.generation);
                }
            }
            assert forall|k: (u32, u32)| #[trigger] self.owners().contains_key(k) implies self.owners()[k] == old(self).owners().insert(h.key(), owner)[k] by {
                lemma_tag_injective(k, h.key());
            }
            assert(self.owners() =~= old(self).owners().insert(h.key(), owner));
        }
        h
    }

    /// Removes one collider; its parent body stays. A stale handle changes
    /// nothing.
    pub fn remove_collider(&mut self, handle: ColliderHandle)
        requires
            old(self).wf(),
        ensures
            final(self).wf(),
            final(self).colliders() == old(self).colliders().remove(handle.key()),
            final(self).bodies() == old(self).bodies(),
            final(self).owners() == old(self).owners().remove(handle.key()),
    {
        erase_collider(&mut self.collider_set, handle, &mut self.island_manager, &mut self.rigid_body_set);
        let t = tag_of(handle);
        self.owners.remove(&t);
        proof {
            assert forall|b: (u32, u32), k: (u32, u32)| self.bodies().contains(b) implies #[trigger] self.attachments()[b].count(k) == (if self.hangs_from(k, b) {
                    1nat
                } else {
                    0nat
                }) by {
                assert(old(self).attachments()[b].count(k) == (if old(self).hangs_from(k, b) { 1nat } else { 0nat }));
                assert(old(self).attachments()[b].count(handle.key()) == (if old(self).hangs_from(handle.key(), b) { 1nat } else { 0nat }));
            }
            assert forall|k: (u32, u32)|
                self.colliders().contains_key(k) <==> #[trigger] self.owners@.contains_key(tag_key(k)) by {
                lemma_tag_injective(k, handle.key());
            }
            assert forall|p: u64| #[trigger] self.owners@.contains_key(p) implies self.colliders().contains_key(untag(p)) by {
                lemma_untag_round_trip(p);
                lemma_tag_injective(untag(p), handle.key());
            }
            assert forall|k: (u32, u32)| #[trigger] self.owners().contains_key(k) implies self.owners()[k] == old(self).owners().remove(handle.key())[k] by {
                lemma_tag_injective(k, handle.key());
            }
            assert(self.owners() =~= old(self).owners().remove(handle.key()));
        }
    }

    /// Removes a body together with every collider attached to it. Every
    /// other collider stays, with its entry and owner. A stale handle
    /// changes nothing.
    pub fn remove_rigid_body(&mut self, handle: BodyHandle)
        requires
            old(self).wf(),
        ensures
            final(self).wf(),
            final(self).bodies() == old(self).bodies().remove(handle.key()),
            final(self).parents_kept(old(self)),
            forall|k: (u32, u32)| #[trigger]
                final(self).colliders().contains_key(k) <==> old(self).colliders().contains_key(k)
                    && old(self).colliders()[k].0 != Some(handle.key()),
            final(self).owners() == old(self).owners().restrict(final(self).colliders().dom()),
            !old(self).bodies().contains(handle.key()) ==> final(self).colliders() == old(self).colliders(),
    {
        let list = collider_handles(&self.collider_set);
        let mut i: usize = 0;
        while i < list.len()
            invariant
                0 <= i <= list@.len(),
                self.wf(),
                self.bodies() == old(self).bodies(),
                self.parents_kept(old(self)),
                self.owners() == old(self).owners().restrict(self.colliders().dom()),
                forall|k: (u32, u32)| #[trigger]
                    old(self).colliders().contains_key(k) && old(self).colliders()[k].0 != Some(handle.key())
                        ==> self.colliders().contains_key(k),
                forall|j: int| 0 <= j < list@.len() ==> old(self).colliders().contains_key(#[trigger] list@[j].key()),
                forall|k: (u32, u32)| #[trigger]
                    old(self).colliders().contains_key(k) ==> exists|j: int|
                        0 <= j < list@.len() && #[trigger] list@[j].key() == k,
                forall|j: int| #![trigger list@[j].key()]
                    0 <= j < i ==> !self.colliders().contains_key(list@[j].key())
                        || self.colliders()[list@[j].key()].0 != Some(handle.key()),
            decreases list@.len() - i,
        {
            let c = list[i];
            if self.has_collider(c) {
                let parent = collider_parent(&self.collider_set, c);
                let attached = match parent {
                    Some(p) => p.index == handle.index && p.generation == handle.generation,
                    None => false,
                };
                if attached {
                    self.remove_collider(c);
                    assert(self.owners() =~= old(self).owners().restrict(self.colliders().dom()));
                }
            }
            i += 1;
        }
        proof {
            assert forall|k: (u32, u32)| #[trigger] self.colliders().contains_key(k) implies
                self.colliders()[k].0 != Some(handle.key()) by {
                let j = choose|j: int| 0 <= j < list@.len() && #[trigger] list@[j].key() == k;
            }
            if self.bodies().contains(handle.key()) {
                assert forall|k: (u32, u32)| #[trigger] attached(self.rigid_body_set)[handle.key()].count(k) == 0 by {
                    assert(self.attachments()[handle.key()].count(k) == (if self.hangs_from(k, handle.key()) { 1nat } else { 0nat }));
                }
            }
            assert(body_keys(self.rigid_body_set).contains(handle.key()) ==> forall|k: (u32, u32)|
                #[trigger] attached(self.rigid_body_set)[handle.key()].count(k) == 0);
        }
        let ghost mid = *self;
        erase_body(
            &mut self.rigid_body_set,
            handle,
            &mut self.island_manager,
            &mut self.collider_set,
            &mut self.impulse_joints,
            &mut self.multibody_joints,
        );
        proof {
            assert(self.colliders() =~= mid.colliders());
            assert(self.owners() =~= mid.owners());
            assert forall|b: (u32, u32), k: (u32, u32)| self.bodies().contains(b) implies #[trigger] self.attachments()[b].count(k) == (if self.hangs_from(k, b) {
                    1nat
                } else {
                    0nat
                }) by {
                assert(mid.attachments()[b].count(k) == (if mid.hangs_from(k, b) { 1nat } else { 0nat }));
            }
            if !old(self).bodies().contains(handle.key()) {
                assert forall|k: (u32, u32)| #[trigger] old(self).colliders().contains_key(k) implies
                    old(self).colliders()[k].0 != Some(handle.key()) by {}
                assert(self.colliders() =~= old(self).colliders());
            }
        }
    }

    /// The scene node that owns a live collider, or `None` for a stale handle.
    pub fn collider_owner(&self, handle: ColliderHandle) -> (r: Option<u64>)
        requires
            self.wf(),
        ensures
            r == (if self.colliders().contains_key(handle.key()) {
                Some(self.owners()[handle.key()])
            } else {
                None
            }),
    {
        if !self.has_collider(handle) {
            return None;
        }
        let t = tag_of(handle);
        match self.owners.get(&t) {
            Some(n) => Some(*n),
            None => None,
        }
    }

    /// Whether a live collider is a sensor, or `None` for a stale handle.
    pub fn collider_is_sensor(&self, handle: ColliderHandle) -> (r: Option<bool>)
        ensures
            r == (if self.colliders().contains_key(handle.key()) {
                Some(self.colliders()[handle.key()].1)
            } else {
                None
            }),
    {
        if !self.has_collider(handle) {
            return None;
        }
        Some(collider_sensor(&self.collider_set, handle))
    }

    /// Sets a live collider's sensor flag; a stale handle changes nothing.
    pub fn set_sensor(&mut self, handle: ColliderHandle, is_sensor: bool)
        requires
            old(self).wf(),
        ensures
            final(self).wf(),
            final(self).bodies() == old(self).bodies(),
            final(self).owners() == old(self).owners(),
            final(self).colliders() == (if old(self).colliders().contains_key(handle.key()) {
                old(self).colliders().insert(handle.key(), (old(self).colliders()[handle.key()].0, is_sensor))
            } else {
                old(self).colliders()
            }),
    {
        if self.has_collider(handle) {
            set_collider_sensor(&mut self.collider_set, handle, is_sensor);
            assert(self.colliders().dom() =~= old(self).colliders().dom());
            assert(self.owners() =~= old(self).owners());
            assert forall|b: (u32, u32), k: (u32, u32)| self.bodies().contains(b) implies #[trigger] self.attachments()[b].count(k) == (if self.hangs_from(k, b) {
                    1nat
                } else {
                    0nat
                }) by {
                assert(old(self).attachments()[b].count(k) == (if old(self).hangs_from(k, b) { 1nat } else { 0nat }));
            }
        }
    }
}

/// In a well-formed world every collider has a parent body, and that body
/// is live: no collider exists before, or outlives, its parent.
pub proof fn lemma_colliders_hang_from_live_bodies(w: World2DState, k: (u32, u32))
    requires
        w.wf(),
        w.colliders().contains_key(k),
    ensures
        w.colliders()[k].0 is Some,
        w.bodies().contains(w.colliders()[k].0.unwrap()),
{
}

} // verus!
