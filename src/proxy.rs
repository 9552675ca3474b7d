//! Proxies: the physics-facing state of scene nodes, and the registration
//! protocol that creates and removes their engine objects.
use crate::handle::{BodyHandle, ColliderHandle};
use crate::kind::RapierRigidBodyType;
use crate::world::World2DState;
use rapier2d::prelude::{Collider, RigidBody};
use vstd::prelude::*;

verus! {

/// The physics side of a rigid-body node: its kind and, while registered,
/// the handle of its body.
#[derive(Clone, Copy, Debug)]
pub struct BodyProxy {
    pub kind: RapierRigidBodyType,
    pub handle: Option<BodyHandle>,
}

/// The physics side of a collider node: its sensor flag and, while
/// registered, the handle of its collider.
#[derive(Clone, Copy, Debug)]
pub struct ColliderProxy {
    pub is_sensor: bool,
    pub handle: Option<ColliderHandle>,
}

/// The bodies left after a proxy's earlier registration is torn down.
pub open spec fn bodies_without(bodies: Set<(u32, u32)>, h: Option<BodyHandle>) -> Set<(u32, u32)> {
    match h {
        Some(b) => bodies.remove(b.key()),
        None => bodies,
    }
}

/// The colliders left after a proxy's earlier registration is torn down.
pub open spec fn colliders_without(
    colliders: Map<(u32, u32), (Option<(u32, u32)>, bool)>,
    h: Option<ColliderHandle>,
) -> Map<(u32, u32), (Option<(u32, u32)>, bool)> {
    match h {
        Some(c) => colliders.remove(c.key()),
        None => colliders,
    }
}

/// Whether a collider entry survives tearing down a proxy's earlier body:
/// it does unless that body is its parent.
pub open spec fn survives_body_removal(entry: (Option<(u32, u32)>, bool), h: Option<BodyHandle>) -> bool {
    match h {
        Some(b) => entry.0 != Some(b.key()),
        None => true,
    }
}

/// Whether the proxy holds collider `k`.
pub open spec fn holds_key(p: ColliderProxy, k: (u32, u32)) -> bool {
    match p.handle {
        Some(c) => c.key() == k,
        None => false,
    }
}

/// Whether one of the first `n` proxies holds collider `k`.
pub open spec fn held_among(children: Seq<ColliderProxy>, n: int, k: (u32, u32)) -> bool {
    exists|j: int| 0 <= j < n && #[trigger] holds_key(children[j], k)
}

/// The owners left after a proxy's earlier registration is torn down.
pub open spec fn owners_without(owners: Map<(u32, u32), u64>, h: Option<ColliderHandle>) -> Map<(u32, u32), u64> {
    match h {
        Some(c) => owners.remove(c.key()),
        None => owners,
    }
}

impl BodyProxy {
    /// The body's handle, if the proxy is registered and the body is live.
    pub open spec fn live_handle(&self, w: &World2DState) -> Option<BodyHandle> {
        match self.handle {
            Some(h) => if w.bodies().contains(h.key()) {
                Some(h)
            } else {
                None
            },
            None => None,
        }
    }

    /// An unregistered proxy of the given kind.
    pub fn new(kind: RapierRigidBodyType) -> (r: Self)
        ensures
            r.kind == kind,
            r.handle is None,
    {
        BodyProxy { kind, handle: None }
    }

    /// Whether the proxy holds a handle.
    pub fn is_registered(&self) -> (r: bool)
        ensures
            r == self.handle is Some,
    {
        self.handle.is_some()
    }

    /// Tears down the proxy's body, with every collider attached to it, and
    /// leaves the proxy unregistered.
    pub fn remove_from_world(&mut self, world: &mut World2DState)
        requires
            old(world).wf(),
        ensures
            final(world).wf(),
            final(self).handle is None,
            final(self).kind == old(self).kind,
            final(world).bodies() == bodies_without(old(world).bodies(), old(self).handle),
            final(world).parents_kept(old(world)),
            forall|k: (u32, u32)| #[trigger]
                final(world).colliders().contains_key(k) <==> old(world).colliders().contains_key(k)
                    && survives_body_removal(old(world).colliders()[k], old(self).handle),
            old(self).live_handle(old(world)) is None ==> final(world).colliders() == old(world).colliders(),
            final(world).owners() == old(world).owners().restrict(final(world).colliders().dom()),
    {
        match self.handle {
            Some(h) => world.remove_rigid_body(h),
            None => {
                assert(world.owners() =~= world.owners().restrict(world.colliders().dom()));
            },
        }
        self.handle = None;
    }

    /// Registers the proxy: an earlier registration is torn down first, so
    /// the proxy never owns two bodies; then the new body goes in.
    pub fn add_to_world(&mut self, world: &mut World2DState, body: RigidBody) -> (r: BodyHandle)
        requires
            old(world).wf(),
        ensures
            final(world).wf(),
            final(self).handle == Some(r),
            final(self).kind == old(self).kind,
            !bodies_without(old(world).bodies(), old(self).handle).contains(r.key()),
            final(world).bodies() == bodies_without(old(world).bodies(), old(self).handle).insert(r.key()),
            final(world).bodies().len() == old(world).bodies().len() + (if old(self).live_handle(old(world)) is Some {
                0int
            } else {
                1int
            }),
            final(world).parents_kept(old(world)),
            forall|k: (u32, u32)| #[trigger]
                final(world).colliders().contains_key(k) <==> old(world).colliders().contains_key(k)
                    && survives_body_removal(old(world).colliders()[k], old(self).handle),
            final(world).owners() == old(world).owners().restrict(final(world).colliders().dom()),
            old(self).live_handle(old(world)) is None ==> final(world).colliders() == old(world).colliders(),
    {
        self.remove_from_world(world);
        let r = world.insert_rigid_body(body);
        self.handle = Some(r);
        r
    }

    /// Forgets the registration without touching any world: for a proxy
    /// whose world no longer exists.
    pub fn detach(&mut self)
        ensures
            final(self).handle is None,
            final(self).kind == old(self).kind,
    {
        self.handle = None;
    }

    /// The handle whose pose the tick copies to the scene node: `None` when
    /// the proxy is unregistered, its body is gone, or its world no longer
    /// exists. A lost world also clears the handle for good.
    pub fn sync_target(&mut self, world: Option<&World2DState>) -> (r: Option<BodyHandle>)
        ensures
            final(self).kind == old(self).kind,
            match world {
                None => r is None && final(self).handle is None,
                Some(w) => r == old(self).live_handle(w) && final(self).handle == old(self).handle,
            },
    {
        match world {
            None => {
                self.handle = None;
                None
            },
            Some(w) => match self.handle {
                Some(h) => if w.has_body(h) {
                    Some(h)
                } else {
                    None
                },
                None => None,
            },
        }
    }
}

impl ColliderProxy {
    /// The collider's handle, if the proxy is registered and the collider is live.
    pub open spec fn live_handle(&self, w: &World2DState) -> Option<ColliderHandle> {
        match self.handle {
            Some(h) => if w.colliders().contains_key(h.key()) {
                Some(h)
            } else {
                None
            },
            None => None,
        }
    }

    /// An unregistered proxy with the given sensor flag.
    pub fn new(is_sensor: bool) -> (r: Self)
        ensures
            r.is_sensor == is_sensor,
            r.handle is None,
    {
        ColliderProxy { is_sensor, handle: None }
    }

    /// Whether the proxy holds a handle.
    pub fn is_registered(&self) -> (r: bool)
        ensures
            r == self.handle is Some,
    {
        self.handle.is_some()
    }

    /// Removes the proxy's collider, if any, and leaves it unregistered. The
    /// parent body stays.
    pub fn remove_from_world(&mut self, world: &mut World2DState)
        requires
            old(world).wf(),
        ensures
            final(world).wf(),
            final(self).handle is None,
            final(self).is_sensor == old(self).is_sensor,
            final(world).bodies() == old(world).bodies(),
            final(world).colliders() == colliders_without(old(world).colliders(), old(self).handle),
            final(world).owners() == owners_without(old(world).owners(), old(self).handle),
    {
        match self.handle {
            Some(h) => world.remove_collider(h),
            None => {},
        }
        self.handle = None;
    }

    /// Registers the proxy under a parent body, for the scene node `owner`.
    /// An earlier registration is torn down first. When the parent is not
    /// registered in this world nothing is inserted and `None` comes back:
    /// a collider never goes in before its parent body.
    pub fn add_to_world(
        &mut self,
        world: &mut World2DState,
        parent: &BodyProxy,
        collider: Collider,
        owner: u64,
    ) -> (r: Option<ColliderHandle>)
        requires
            old(world).wf(),
        ensures
            final(world).wf(),
            final(self).handle == r,
            final(self).is_sensor == old(self).is_sensor,
            final(world).bodies() == old(world).bodies(),
            match parent.live_handle(old(world)) {
                Some(p) => r matches Some(c) && {
                    &&& !colliders_without(old(world).colliders(), old(self).handle).contains_key(c.key())
                    &&& final(world).colliders() == colliders_without(
                        old(world).colliders(),
                        old(self).handle,
                    ).insert(c.key(), (Some(p.key()), old(self).is_sensor))
                    &&& final(world).owners() == owners_without(old(world).owners(), old(self).handle).insert(
                        c.key(),
                        owner,
                    )
                },
                None => r is None && final(world).colliders() == colliders_without(
                    old(world).colliders(),
                    old(self).handle,
                ) && final(world).owners() == owners_without(old(world).owners(), old(self).handle),
            },
    {
        self.remove_from_world(world);
        let p = match parent.handle {
            Some(p) => p,
            None => return None,
        };
        if !world.has_body(p) {
            return None;
        }
        let c = world.insert_collider_with_parent(collider, p, owner, self.is_sensor);
        self.handle = Some(c);
        Some(c)
    }

    /// The handle that property writes go to: `None` when the proxy is
    /// unregistered, its collider is gone, or its world no longer exists. A
    /// lost world also clears the handle for good.
    pub fn write_target(&mut self, world: Option<&World2DState>) -> (r: Option<ColliderHandle>)
        ensures
            final(self).is_sensor == old(self).is_sensor,
            match world {
                None => r is None && final(self).handle is None,
                Some(w) => r == old(self).live_handle(w) && final(self).handle == old(self).handle,
            },
    {
        match world {
            None => {
                self.handle = None;
                None
            },
            Some(w) => match self.handle {
                Some(h) => if w.has_collider(h) {
                    Some(h)
                } else {
                    None
                },
                None => None,
            },
        }
    }

    /// Forgets the registration without touching any world: for a proxy
    /// whose world no longer exists.
    pub fn detach(&mut self)
        ensures
            final(self).handle is None,
            final(self).is_sensor == old(self).is_sensor,
    {
        self.handle = None;
    }

    /// Sets the sensor flag of a proxy whose world no longer exists: the
    /// flag is cached for a later registration, and the proxy stays
    /// unregistered.
    pub fn set_is_sensor_detached(&mut self, is_sensor: bool)
        ensures
            final(self).is_sensor == is_sensor,
            final(self).handle is None,
    {
        self.handle = None;
        self.is_sensor = is_sensor;
    }

    /// Sets the sensor flag: the proxy caches it, and a live collider takes
    /// it at once.
    pub fn set_is_sensor(&mut self, world: &mut World2DState, is_sensor: bool)
        requires
            old(world).wf(),
        ensures
            final(world).wf(),
            final(self).is_sensor == is_sensor,
            final(self).handle == old(self).handle,
            final(world).bodies() == old(world).bodies(),
            final(world).owners() == old(world).owners(),
            final(world).colliders() == match old(self).live_handle(old(world)) {
                Some(h) => old(world).colliders().insert(h.key(), (old(world).colliders()[h.key()].0, is_sensor)),
                None => old(world).colliders(),
            },
    {
        self.is_sensor = is_sensor;
        match self.handle {
            Some(h) => world.set_sensor(h, is_sensor),
            None => {},
        }
    }
}

impl BodyProxy {
    /// Registers the proxy together with its collider children: the
    /// children's earlier colliders are torn down, the body goes in (after
    /// its own earlier registration is torn down), and then each child's
    /// collider goes in under the new body, for the node `owners[i]`. No
    /// collider is inserted before its parent body exists.
    pub fn add_to_world_with_children(
        &mut self,
        world: &mut World2DState,
        body: RigidBody,
        children: &mut Vec<ColliderProxy>,
        colliders: Vec<Collider>,
        owners: &Vec<u64>,
    ) -> (r: BodyHandle)
        requires
            old(world).wf(),
            colliders@.len() == old(children)@.len(),
            owners@.len() == old(children)@.len(),
        ensures
            final(world).wf(),
            final(self).handle == Some(r),
            final(self).kind == old(self).kind,
            final(world).bodies().contains(r.key()),
            final(children)@.len() == old(children)@.len(),
            forall|i: int| #![trigger final(children)@[i]]
                0 <= i < final(children)@.len() ==> {
                    &&& final(children)@[i].is_sensor == old(children)@[i].is_sensor
                    &&& final(children)@[i].handle matches Some(c)
                    &&& final(world).colliders().contains_key(c.key())
                    &&& final(world).colliders()[c.key()] == (Some(r.key()), old(children)@[i].is_sensor)
                    &&& final(world).owners()[c.key()] == owners@[i]
                },
            forall|i: int, j: int|
                0 <= i < j < final(children)@.len() ==> final(children)@[i].handle != final(children)@[j].handle,
            final(world).bodies() == bodies_without(old(world).bodies(), old(self).handle).insert(r.key()),
            forall|k: (u32, u32)| #[trigger]
                final(world).colliders().contains_key(k) ==> held_among(final(children)@, final(children)@.len() as int, k)
                    || (old(world).colliders().contains_key(k) && survives_body_removal(
                    old(world).colliders()[k],
                    old(self).handle,
                ) && !held_among(old(children)@, old(children)@.len() as int, k)),
            forall|k: (u32, u32)| #[trigger]
                old(world).colliders().contains_key(k) && survives_body_removal(old(world).colliders()[k], old(self).handle)
                    && !held_among(old(children)@, old(children)@.len() as int, k)
                    ==> final(world).colliders().contains_key(k)
                    && final(world).colliders()[k] == old(world).colliders()[k],
    {
        let n = children.len();
        let mut i: usize = 0;
        while i < n
            invariant
                0 <= i <= n,
                n == children@.len(),
                n == old(children)@.len(),
                world.wf(),
                forall|j: int| #![trigger children@[j]]
                    0 <= j < n ==> children@[j].is_sensor == old(children)@[j].is_sensor,
                forall|j: int| #![trigger children@[j]] 0 <= j < i ==> children@[j].handle is None,
                forall|j: int| #![trigger children@[j]] i <= j < n ==> children@[j] == old(children)@[j],
                world.bodies() == old(world).bodies(),
                forall|k: (u32, u32)| #[trigger]
                    world.colliders().contains_key(k) <==> old(world).colliders().contains_key(k)
                        && !held_among(old(children)@, i as int, k),
                forall|k: (u32, u32)| #[trigger]
                    world.colliders().contains_key(k) ==> world.colliders()[k] == old(world).colliders()[k],
            decreases n - i,
        {
            let mut c = children[i];
            let ghost before = *world;
            c.remove_from_world(world);
            children.set(i, c);
            proof {
                assert forall|k: (u32, u32)| #[trigger] world.colliders().contains_key(k) <==> old(world).colliders().contains_key(k)
                    && !held_among(old(children)@, i + 1, k) by {
                    if held_among(old(children)@, i + 1, k) && !held_among(old(children)@, i as int, k) {
                        let j = choose|j: int| 0 <= j < i + 1 && #[trigger] holds_key(old(children)@[j], k);
                        assert(j == i);
                    }
                    if holds_key(old(children)@[i as int], k) {
                        assert(held_among(old(children)@, i + 1, k));
                    }
                }
            }
            i += 1;
        }
        let ghost mid = *world;
        let r = self.add_to_world(world, body);
        let ghost mid2 = *world;
        let mut colliders = colliders;
        let mut i: usize = 0;
        while i < n
            invariant
                0 <= i <= n,
                n == children@.len(),
                n == old(children)@.len(),
                n == owners@.len(),
                colliders@.len() == n - i,
                world.wf(),
                self.handle == Some(r),
                self.kind == old(self).kind,
                world.bodies().contains(r.key()),
                forall|j: int| #![trigger children@[j]]
                    0 <= j < n ==> children@[j].is_sensor == old(children)@[j].is_sensor,
                forall|j: int| #![trigger children@[j]] i <= j < n ==> children@[j].handle is None,
                forall|j: int| #![trigger children@[j]]
                    0 <= j < i ==> {
                        &&& children@[j].handle matches Some(c)
                        &&& world.colliders().contains_key(c.key())
                        &&& world.colliders()[c.key()] == (Some(r.key()), old(children)@[j].is_sensor)
                        &&& world.owners()[c.key()] == owners@[j]
                    },
                forall|j: int, l: int|
                    0 <= j < l < i ==> children@[j].handle != children@[l].handle,
                world.bodies() == mid2.bodies(),
                forall|k: (u32, u32)| #[trigger]
                    world.colliders().contains_key(k) ==> mid2.colliders().contains_key(k) || held_among(children@, i as int, k),
                forall|k: (u32, u32)| #[trigger]
                    mid2.colliders().contains_key(k) ==> world.colliders().contains_key(k)
                        && world.colliders()[k] == mid2.colliders()[k],
            decreases n - i,
        {
            let ghost ch0 = children@;
            let coll = colliders.remove(0);
            let mut c = children[i];
            let ghost before = *world;
            let got = c.add_to_world(world, self, coll, owners[i]);
            proof {
                let k = got.unwrap().key();
                assert forall|j: int| #![trigger children@[j]] 0 <= j < i implies {
                    &&& children@[j].handle matches Some(c)
                    &&& world.colliders().contains_key(c.key())
                    &&& world.colliders()[c.key()] == (Some(r.key()), old(children)@[j].is_sensor)
                    &&& world.owners()[c.key()] == owners@[j]
                } by {
                    let cj = children@[j].handle.unwrap();
                    assert(before.colliders().contains_key(cj.key()));
                    assert(cj.key() != k);
                }
            }
            children.set(i, c);
            proof {
                let nk = got.unwrap().key();
                assert(self.live_handle(&before) == Some(r));
                assert(world.colliders() == before.colliders().insert(nk, (Some(r.key()), c.is_sensor)));
                assert(children@[i as int] == c);
                assert(holds_key(children@[i as int], nk));
                assert forall|k: (u32, u32)| #[trigger] mid2.colliders().contains_key(k) implies
                    world.colliders().contains_key(k) && world.colliders()[k] == mid2.colliders()[k] by {
                    assert(before.colliders().contains_key(k));
                }
                assert forall|k: (u32, u32)| #[trigger] world.colliders().contains_key(k) implies
                    mid2.colliders().contains_key(k) || held_among(children@, i + 1, k) by {
                    if !before.colliders().contains_key(k) {
                        assert(holds_key(children@[i as int], k));
                    } else if !mid2.colliders().contains_key(k) {
                        assert(held_among(ch0, i as int, k));
                        let j = choose|j: int| 0 <= j < i && #[trigger] holds_key(ch0[j], k);
                        assert(children@[j] == ch0[j]);
                        assert(holds_key(children@[j], k));
                    }
                }
                assert forall|j: int, l: int| 0 <= j < l < i + 1 implies children@[j].handle != children@[l].handle by {
                    if l == i {
                        let cj = children@[j].handle.unwrap();
                        assert(before.colliders().contains_key(cj.key()));
                    }
                }
            }
            i += 1;
        }
        proof {
            assert forall|k: (u32, u32)| #[trigger] world.colliders().contains_key(k) implies held_among(children@, n as int, k)
                || (old(world).colliders().contains_key(k) && survives_body_removal(old(world).colliders()[k], old(self).handle)
                && !held_among(old(children)@, n as int, k)) by {
                if !held_among(children@, n as int, k) {
                    assert(mid2.colliders().contains_key(k));
                    assert(mid.colliders().contains_key(k));
                }
            }
            assert forall|k: (u32, u32)| #[trigger] old(world).colliders().contains_key(k) && survives_body_removal(
                old(world).colliders()[k], old(self).handle) && !held_among(old(children)@, n as int, k) implies
                world.colliders().contains_key(k) && world.colliders()[k] == old(world).colliders()[k] by {
                assert(mid.colliders().contains_key(k));
                assert(mid2.colliders().contains_key(k));
            }
        }
        r
    }
}

/// A proxy whose world is gone holds no handle, so no world it is later
/// shown reports it live: ticks and property writes on it do nothing.
pub proof fn lemma_detached_body_is_inert(p: BodyProxy, w: World2DState)
    requires
        p.handle is None,
    ensures
        p.live_handle(&w) is None,
{
}

/// The same holds of a collider proxy.
pub proof fn lemma_detached_collider_is_inert(p: ColliderProxy, w: World2DState)
    requires
        p.handle is None,
    ensures
        p.live_handle(&w) is None,
{
}

} // verus!
