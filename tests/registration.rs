use godot_rapier::handle::{BodyHandle, ColliderHandle};
use godot_rapier::kind::RapierRigidBodyType;
use godot_rapier::proxy::{BodyProxy, ColliderProxy};
use godot_rapier::world::World2DState;
use rapier2d::prelude::{ColliderBuilder, RigidBodyBuilder};

fn fixed_body() -> rapier2d::prelude::RigidBody {
    RigidBodyBuilder::fixed().build()
}

fn ball() -> rapier2d::prelude::Collider {
    ColliderBuilder::ball(0.5).build()
}

#[test]
fn new_world_is_empty() {
    let w = World2DState::new();
    assert_eq!(w.rigid_body_set.len(), 0);
    assert_eq!(w.collider_set.len(), 0);
}

#[test]
fn body_registration_inserts_one_body() {
    let mut w = World2DState::new();
    let mut b = BodyProxy::new(RapierRigidBodyType::Fixed);
    assert!(!b.is_registered());
    let h = b.add_to_world(&mut w, fixed_body());
    assert!(b.is_registered());
    assert_eq!(b.handle, Some(h));
    assert!(w.has_body(h));
    assert_eq!(w.rigid_body_set.len(), 1);
}

#[test]
fn collider_goes_in_under_its_parent() {
    let mut w = World2DState::new();
    let mut b = BodyProxy::new(RapierRigidBodyType::Dynamic);
    let bh = b.add_to_world(&mut w, fixed_body());
    let mut c = ColliderProxy::new(false);
    let ch = c.add_to_world(&mut w, &b, ball(), 42).unwrap();
    assert!(w.has_collider(ch));
    assert_eq!(w.collider_owner(ch), Some(42));
    assert_eq!(w.collider_is_sensor(ch), Some(false));
    let parent = w.collider_set.get(rapier2d::prelude::ColliderHandle::from_raw_parts(ch.index, ch.generation))
        .unwrap()
        .parent()
        .unwrap()
        .into_raw_parts();
    assert_eq!(parent, (bh.index, bh.generation));
}

#[test]
fn collider_without_registered_parent_is_not_inserted() {
    let mut w = World2DState::new();
    let b = BodyProxy::new(RapierRigidBodyType::Fixed);
    let mut c = ColliderProxy::new(false);
    assert_eq!(c.add_to_world(&mut w, &b, ball(), 1), None);
    assert!(!c.is_registered());
    assert_eq!(w.collider_set.len(), 0);
}

#[test]
fn collider_with_removed_parent_is_not_inserted() {
    let mut w = World2DState::new();
    let mut b = BodyProxy::new(RapierRigidBodyType::Fixed);
    let h = b.add_to_world(&mut w, fixed_body());
    w.remove_rigid_body(h);
    let mut c = ColliderProxy::new(false);
    assert_eq!(c.add_to_world(&mut w, &b, ball(), 1), None);
    assert_eq!(w.collider_set.len(), 0);
}

#[test]
fn unregistering_body_removes_its_colliders() {
    let mut w = World2DState::new();
    let mut b1 = BodyProxy::new(RapierRigidBodyType::Fixed);
    let mut b2 = BodyProxy::new(RapierRigidBodyType::Dynamic);
    b1.add_to_world(&mut w, fixed_body());
    b2.add_to_world(&mut w, fixed_body());
    let mut c1 = ColliderProxy::new(false);
    let mut c2 = ColliderProxy::new(true);
    let mut c3 = ColliderProxy::new(false);
    let h1 = c1.add_to_world(&mut w, &b1, ball(), 1).unwrap();
    let h2 = c2.add_to_world(&mut w, &b1, ball(), 2).unwrap();
    let h3 = c3.add_to_world(&mut w, &b2, ball(), 3).unwrap();
    assert_eq!(w.collider_set.len(), 3);
    b1.remove_from_world(&mut w);
    assert!(!b1.is_registered());
    assert_eq!(w.rigid_body_set.len(), 1);
    assert!(!w.has_collider(h1));
    assert!(!w.has_collider(h2));
    assert!(w.has_collider(h3));
    assert_eq!(w.collider_owner(h1), None);
    assert_eq!(w.collider_owner(h3), Some(3));
    assert_eq!(w.collider_set.len(), 1);
}

#[test]
fn removing_collider_keeps_parent_body() {
    let mut w = World2DState::new();
    let mut b = BodyProxy::new(RapierRigidBodyType::Fixed);
    let bh = b.add_to_world(&mut w, fixed_body());
    let mut c = ColliderProxy::new(false);
    let ch = c.add_to_world(&mut w, &b, ball(), 5).unwrap();
    c.remove_from_world(&mut w);
    assert!(!c.is_registered());
    assert!(!w.has_collider(ch));
    assert!(w.has_body(bh));
    assert_eq!(w.collider_owner(ch), None);
}

#[test]
fn re_registering_body_replaces_old_body() {
    let mut w = World2DState::new();
    let mut other = BodyProxy::new(RapierRigidBodyType::Fixed);
    other.add_to_world(&mut w, fixed_body());
    let mut b = BodyProxy::new(RapierRigidBodyType::KinematicPositionBased);
    let first = b.add_to_world(&mut w, fixed_body());
    assert_eq!(w.rigid_body_set.len(), 2);
    let second = b.add_to_world(&mut w, fixed_body());
    assert_eq!(w.rigid_body_set.len(), 2);
    assert!(!w.has_body(first));
    assert!(w.has_body(second));
    assert_eq!(b.handle, Some(second));
}

#[test]
fn re_registering_collider_replaces_old_collider() {
    let mut w = World2DState::new();
    let mut b = BodyProxy::new(RapierRigidBodyType::Fixed);
    b.add_to_world(&mut w, fixed_body());
    let mut c = ColliderProxy::new(false);
    let first = c.add_to_world(&mut w, &b, ball(), 9).unwrap();
    let second = c.add_to_world(&mut w, &b, ball(), 9).unwrap();
    assert_eq!(w.collider_set.len(), 1);
    assert!(!w.has_collider(first));
    assert!(w.has_collider(second));
}

#[test]
fn stale_handles_change_nothing() {
    let mut w = World2DState::new();
    let stale_body = BodyHandle { index: 7, generation: 3 };
    let stale_collider = ColliderHandle { index: 4, generation: 1 };
    assert!(!w.has_body(stale_body));
    w.remove_rigid_body(stale_body);
    w.remove_collider(stale_collider);
    w.set_sensor(stale_collider, true);
    assert_eq!(w.collider_is_sensor(stale_collider), None);
    assert_eq!(w.collider_owner(stale_collider), None);
    assert_eq!(w.rigid_body_set.len(), 0);
}

#[test]
fn sensor_write_reaches_live_collider_at_once() {
    let mut w = World2DState::new();
    let mut b = BodyProxy::new(RapierRigidBodyType::Fixed);
    b.add_to_world(&mut w, fixed_body());
    let mut c = ColliderProxy::new(false);
    let ch = c.add_to_world(&mut w, &b, ball(), 1).unwrap();
    c.set_is_sensor(&mut w, true);
    assert!(c.is_sensor);
    assert_eq!(w.collider_is_sensor(ch), Some(true));
    c.set_is_sensor(&mut w, false);
    assert_eq!(w.collider_is_sensor(ch), Some(false));
}

#[test]
fn sensor_flag_of_proxy_is_applied_on_insert() {
    let mut w = World2DState::new();
    let mut b = BodyProxy::new(RapierRigidBodyType::Fixed);
    b.add_to_world(&mut w, fixed_body());
    let mut c = ColliderProxy::new(true);
    let ch = c.add_to_world(&mut w, &b, ball(), 1).unwrap();
    assert_eq!(w.collider_is_sensor(ch), Some(true));
}

#[test]
fn friction_write_is_visible_before_step() {
    let mut w = World2DState::new();
    let mut b = BodyProxy::new(RapierRigidBodyType::Fixed);
    b.add_to_world(&mut w, fixed_body());
    let mut c = ColliderProxy::new(false);
    c.add_to_world(&mut w, &b, ball(), 1).unwrap();
    let h = c.write_target(Some(&w)).unwrap();
    let raw = rapier2d::prelude::ColliderHandle::from_raw_parts(h.index, h.generation);
    w.collider_set.get_mut(raw).unwrap().set_friction(0.7);
    let friction: f32 = w.collider_set.get(raw).unwrap().friction();
    assert_eq!(friction, 0.7);
}

#[test]
fn lost_world_leaves_body_proxy_unregistered() {
    let mut w = World2DState::new();
    let mut b = BodyProxy::new(RapierRigidBodyType::Fixed);
    let h = b.add_to_world(&mut w, fixed_body());
    assert_eq!(b.sync_target(Some(&w)), Some(h));
    drop(w);
    assert_eq!(b.sync_target(None), None);
    assert!(!b.is_registered());
    assert_eq!(b.sync_target(None), None);
    let other = World2DState::new();
    assert_eq!(b.sync_target(Some(&other)), None);
}

#[test]
fn lost_world_leaves_collider_proxy_unregistered() {
    let mut w = World2DState::new();
    let mut b = BodyProxy::new(RapierRigidBodyType::Fixed);
    b.add_to_world(&mut w, fixed_body());
    let mut c = ColliderProxy::new(false);
    let ch = c.add_to_world(&mut w, &b, ball(), 1).unwrap();
    assert_eq!(c.write_target(Some(&w)), Some(ch));
    drop(w);
    assert_eq!(c.write_target(None), None);
    assert!(!c.is_registered());
    let mut other = World2DState::new();
    c.set_is_sensor(&mut other, true);
    assert!(c.is_sensor);
    assert_eq!(other.collider_set.len(), 0);
}

#[test]
fn sync_target_skips_removed_body() {
    let mut w = World2DState::new();
    let mut b = BodyProxy::new(RapierRigidBodyType::Fixed);
    let h = b.add_to_world(&mut w, fixed_body());
    w.remove_rigid_body(h);
    assert_eq!(b.sync_target(Some(&w)), None);
    assert_eq!(b.handle, Some(h));
}

#[test]
fn fixed_body_pose_scales_by_pixels_per_meter() {
    let mut w = World2DState::new();
    let mut b = BodyProxy::new(RapierRigidBodyType::Fixed);
    let body = RigidBodyBuilder::fixed()
        .translation(rapier2d::math::Vector::<f32>::new(2.0, 3.0))
        .build();
    b.add_to_world(&mut w, body);
    let mut pipeline = rapier2d::prelude::PhysicsPipeline::new();
    let mut broad = rapier2d::prelude::BroadPhase::new();
    let mut narrow = rapier2d::prelude::NarrowPhase::new();
    let mut ccd = rapier2d::prelude::CCDSolver::new();
    let params = rapier2d::prelude::IntegrationParameters::default();
    let gravity = rapier2d::math::Vector::<f32>::new(0.0, 9.81);
    pipeline.step(
        &gravity,
        &params,
        &mut w.island_manager,
        &mut broad,
        &mut narrow,
        &mut w.rigid_body_set,
        &mut w.collider_set,
        &mut w.impulse_joints,
        &mut w.multibody_joints,
        &mut ccd,
        &(),
        &(),
    );
    let h = b.sync_target(Some(&w)).unwrap();
    let raw = rapier2d::prelude::RigidBodyHandle::from_raw_parts(h.index, h.generation);
    let t = w.rigid_body_set.get(raw).unwrap().translation();
    let ppm: f32 = 64.0;
    assert_eq!((t.x * ppm, t.y * ppm), (128.0, 192.0));
}

#[test]
fn stale_body_removal_keeps_every_collider() {
    let mut w = World2DState::new();
    let mut b = BodyProxy::new(RapierRigidBodyType::Fixed);
    b.add_to_world(&mut w, fixed_body());
    let mut c = ColliderProxy::new(false);
    let ch = c.add_to_world(&mut w, &b, ball(), 1).unwrap();
    w.remove_rigid_body(BodyHandle { index: 99, generation: 0 });
    assert_eq!(w.rigid_body_set.len(), 1);
    assert!(w.has_collider(ch));
    assert_eq!(w.collider_owner(ch), Some(1));
}

#[test]
fn re_registering_body_keeps_other_colliders() {
    let mut w = World2DState::new();
    let mut other = BodyProxy::new(RapierRigidBodyType::Fixed);
    other.add_to_world(&mut w, fixed_body());
    let mut oc = ColliderProxy::new(false);
    let och = oc.add_to_world(&mut w, &other, ball(), 8).unwrap();
    let mut b = BodyProxy::new(RapierRigidBodyType::Dynamic);
    b.add_to_world(&mut w, fixed_body());
    b.add_to_world(&mut w, fixed_body());
    assert_eq!(w.rigid_body_set.len(), 2);
    assert_eq!(w.collider_set.len(), 1);
    assert!(w.has_collider(och));
}

#[test]
fn body_with_children_registers_all_under_new_body() {
    let mut w = World2DState::new();
    let mut b = BodyProxy::new(RapierRigidBodyType::Dynamic);
    let mut children = vec![ColliderProxy::new(false), ColliderProxy::new(true), ColliderProxy::new(false)];
    let colliders = vec![ball(), ball(), ColliderBuilder::cuboid(0.5, 0.5).build()];
    let owners = vec![11, 12, 13];
    let h = b.add_to_world_with_children(&mut w, fixed_body(), &mut children, colliders, &owners);
    assert_eq!(b.handle, Some(h));
    assert_eq!(w.rigid_body_set.len(), 1);
    assert_eq!(w.collider_set.len(), 3);
    for (i, c) in children.iter().enumerate() {
        let ch = c.handle.unwrap();
        assert_eq!(w.collider_owner(ch), Some(owners[i]));
        assert_eq!(w.collider_is_sensor(ch), Some(c.is_sensor));
        let parent = w.collider_set
            .get(rapier2d::prelude::ColliderHandle::from_raw_parts(ch.index, ch.generation))
            .unwrap()
            .parent()
            .unwrap()
            .into_raw_parts();
        assert_eq!(parent, (h.index, h.generation));
    }
}

#[test]
fn body_with_children_re_registration_replaces_everything() {
    let mut w = World2DState::new();
    let mut b = BodyProxy::new(RapierRigidBodyType::Fixed);
    let mut children = vec![ColliderProxy::new(false), ColliderProxy::new(false)];
    let first = b.add_to_world_with_children(&mut w, fixed_body(), &mut children, vec![ball(), ball()], &vec![1, 2]);
    let old0 = children[0].handle.unwrap();
    let second = b.add_to_world_with_children(&mut w, fixed_body(), &mut children, vec![ball(), ball()], &vec![1, 2]);
    assert!(!w.has_body(first));
    assert!(w.has_body(second));
    assert!(!w.has_collider(old0));
    assert_eq!(w.rigid_body_set.len(), 1);
    assert_eq!(w.collider_set.len(), 2);
}

#[test]
fn detach_forgets_registration_without_world() {
    let mut w = World2DState::new();
    let mut b = BodyProxy::new(RapierRigidBodyType::Fixed);
    let h = b.add_to_world(&mut w, fixed_body());
    let mut c = ColliderProxy::new(false);
    c.add_to_world(&mut w, &b, ball(), 1).unwrap();
    b.detach();
    c.detach();
    assert!(!b.is_registered());
    assert!(!c.is_registered());
    assert_eq!(b.kind, RapierRigidBodyType::Fixed);
    assert!(w.has_body(h));
}

#[test]
fn sensor_write_without_world_only_caches() {
    let mut w = World2DState::new();
    let mut b = BodyProxy::new(RapierRigidBodyType::Fixed);
    b.add_to_world(&mut w, fixed_body());
    let mut c = ColliderProxy::new(false);
    let ch = c.add_to_world(&mut w, &b, ball(), 1).unwrap();
    c.set_is_sensor_detached(true);
    assert!(c.is_sensor);
    assert!(!c.is_registered());
    assert_eq!(w.collider_is_sensor(ch), Some(false));
}

#[test]
fn body_with_children_keeps_other_bodies_colliders() {
    let mut w = World2DState::new();
    let mut other = BodyProxy::new(RapierRigidBodyType::Fixed);
    other.add_to_world(&mut w, fixed_body());
    let mut oc = ColliderProxy::new(false);
    let och = oc.add_to_world(&mut w, &other, ball(), 7).unwrap();
    let mut b = BodyProxy::new(RapierRigidBodyType::Dynamic);
    let mut children = vec![ColliderProxy::new(false)];
    b.add_to_world_with_children(&mut w, fixed_body(), &mut children, vec![ball()], &vec![1]);
    b.add_to_world_with_children(&mut w, fixed_body(), &mut children, vec![ball()], &vec![1]);
    assert!(w.has_collider(och));
    assert_eq!(w.collider_owner(och), Some(7));
    assert_eq!(w.rigid_body_set.len(), 2);
    assert_eq!(w.collider_set.len(), 2);
}
