//! Classification of contact and sensor-overlap events into notifications
//! for the scene nodes that own the colliders.
use crate::handle::ColliderHandle;
use crate::world::World2DState;
use vstd::prelude::*;

verus! {

/// The notifications a collider node can receive.
#[derive(Clone, Copy, Debug, PartialEq, Eq, Structural)]
pub enum Notification {
    /// Another collider began to overlap this sensor.
    ColliderEntered,
    /// Another collider stopped overlapping this sensor.
    ColliderExited,
    /// Solid contact with another collider began.
    CollisionStarted,
    /// Solid contact with another collider ended.
    CollisionEnded,
}

impl Notification {
    /// The name of the scene signal that carries this notification.
    pub fn signal_name(&self) -> (r: &'static str)
        ensures
            r@ == match *self {
                Notification::ColliderEntered => "collider_entered"@,
                Notification::ColliderExited => "collider_exited"@,
                Notification::CollisionStarted => "collision_started"@,
                Notification::CollisionEnded => "collision_ended"@,
            },
    {
        match *self {
            Notification::ColliderEntered => {
                proof { reveal_strlit("collider_entered"); }
                "collider_entered"
            },
            Notification::ColliderExited => {
                proof { reveal_strlit("collider_exited"); }
                "collider_exited"
            },
            Notification::CollisionStarted => {
                proof { reveal_strlit("collision_started"); }
                "collision_started"
            },
            Notification::CollisionEnded => {
                proof { reveal_strlit("collision_ended"); }
                "collision_ended"
            },
        }
    }
}

/// One notification to send: `signal` goes to node `target`, with node
/// `other` as payload.
#[derive(Clone, Copy, Debug, PartialEq, Eq, Structural)]
pub struct Dispatch {
    pub target: u64,
    pub signal: Notification,
    pub other: u64,
}

/// A contact event as the engine reports it: two colliders, and whether
/// the contact or overlap starts or ends.
#[derive(Clone, Copy, Debug, PartialEq, Eq, Structural)]
pub struct ContactEvent {
    pub collider1: ColliderHandle,
    pub collider2: ColliderHandle,
    pub started: bool,
}

/// The two sides of an event, resolved to their owning nodes.
#[derive(Clone, Copy, Debug, PartialEq, Eq, Structural)]
pub struct EventParties {
    pub node1: u64,
    pub sensor1: bool,
    pub node2: u64,
    pub sensor2: bool,
}

/// The notifications an event yields. A sensor on the first side takes
/// priority: only it is told, about the second. Otherwise a sensor on the
/// second side is told about the first. Two solid colliders are both told,
/// each about the other.
pub open spec fn classify_spec(p: EventParties, started: bool) -> Seq<Dispatch> {
    let overlap = if started {
        Notification::ColliderEntered
    } else {
        Notification::ColliderExited
    };
    let contact = if started {
        Notification::CollisionStarted
    } else {
        Notification::CollisionEnded
    };
    if p.sensor1 {
        seq![Dispatch { target: p.node1, signal: overlap, other: p.node2 }]
    } else if p.sensor2 {
        seq![Dispatch { target: p.node2, signal: overlap, other: p.node1 }]
    } else {
        seq![
            Dispatch { target: p.node1, signal: contact, other: p.node2 },
            Dispatch { target: p.node2, signal: contact, other: p.node1 },
        ]
    }
}

/// Classifies one resolved event.
pub fn classify(p: EventParties, started: bool) -> (r: Vec<Dispatch>)
    ensures
        r@ == classify_spec(p, started),
{
    let overlap = if started {
        Notification::ColliderEntered
    } else {
        Notification::ColliderExited
    };
    let contact = if started {
        Notification::CollisionStarted
    } else {
        Notification::CollisionEnded
    };
    let mut r: Vec<Dispatch> = Vec::new();
    if p.sensor1 {
        r.push(Dispatch { target: p.node1, signal: overlap, other: p.node2 });
    } else if p.sensor2 {
        r.push(Dispatch { target: p.node2, signal: overlap, other: p.node1 });
    } else {
        r.push(Dispatch { target: p.node1, signal: contact, other: p.node2 });
        r.push(Dispatch { target: p.node2, signal: contact, other: p.node1 });
    }
    assert(r@ =~= classify_spec(p, started));
    r
}

/// A sensor overlapping a solid collider tells the sensor alone, once:
/// "entered" when the overlap starts and "exited" when it ends, about the
/// solid collider's node.
pub proof fn lemma_sensor_overlap_notifies_sensor_only(p: EventParties, started: bool)
    requires
        p.sensor1,
        !p.sensor2,
    ensures
        classify_spec(p, started).len() == 1,
        classify_spec(p, started)[0].target == p.node1,
        classify_spec(p, started)[0].other == p.node2,
        classify_spec(p, started)[0].signal == (if started {
            Notification::ColliderEntered
        } else {
            Notification::ColliderExited
        }),
{
}

/// The same overlap seen from the other side: the sensor, now second, is
/// still the only one told.
pub proof fn lemma_sensor_second_notifies_sensor_only(p: EventParties, started: bool)
    requires
        !p.sensor1,
        p.sensor2,
    ensures
        classify_spec(p, started).len() == 1,
        classify_spec(p, started)[0].target == p.node2,
        classify_spec(p, started)[0].other == p.node1,
        classify_spec(p, started)[0].signal == (if started {
            Notification::ColliderEntered
        } else {
            Notification::ColliderExited
        }),
{
}

/// Contact between two solid colliders tells both, each about the other:
/// two "collision_started" notifications when it starts, two
/// "collision_ended" when it ends.
pub proof fn lemma_solid_contact_notifies_both(p: EventParties, started: bool)
    requires
        !p.sensor1,
        !p.sensor2,
    ensures
        classify_spec(p, started).len() == 2,
        classify_spec(p, started)[0] == (Dispatch {
            target: p.node1,
            signal: if started {
                Notification::CollisionStarted
            } else {
                Notification::CollisionEnded
            },
            other: p.node2,
        }),
        classify_spec(p, started)[1] == (Dispatch {
            target: p.node2,
            signal: if started {
                Notification::CollisionStarted
            } else {
                Notification::CollisionEnded
            },
            other: p.node1,
        }),
{
}

/// Resolves raw engine events against a world and classifies them.
pub struct RawRefCollisionEventHandler {}

impl RawRefCollisionEventHandler {
    pub fn new() -> (r: Self) {
        RawRefCollisionEventHandler {  }
    }

    /// The owners and sensor flags of the event's two colliders, or `None`
    /// when either collider is no longer in the world.
    pub fn resolve(&self, world: &World2DState, event: ContactEvent) -> (r: Option<EventParties>)
        requires
            world.wf(),
        ensures
            r == (if world.colliders().contains_key(event.collider1.key())
                && world.colliders().contains_key(event.collider2.key()) {
                Some(
                    EventParties {
                        node1: world.owners()[event.collider1.key()],
                        sensor1: world.colliders()[event.collider1.key()].1,
                        node2: world.owners()[event.collider2.key()],
                        sensor2: world.colliders()[event.collider2.key()].1,
                    },
                )
            } else {
                None
            }),
    {
        let node1 = match world.collider_owner(event.collider1) {
            Some(n) => n,
            None => return None,
        };
        let node2 = match world.collider_owner(event.collider2) {
            Some(n) => n,
            None => return None,
        };
        let sensor1 = match world.collider_is_sensor(event.collider1) {
            Some(s) => s,
            None => return None,
        };
        let sensor2 = match world.collider_is_sensor(event.collider2) {
            Some(s) => s,
            None => return None,
        };
        Some(EventParties { node1, sensor1, node2, sensor2 })
    }

    /// The notifications for one event. Nothing is sent when either
    /// collider has left the world or either owning node is no longer
    /// alive (`alive` tells which nodes are).
    pub fn handle_collision_event(
        &self,
        world: &World2DState,
        event: ContactEvent,
        alive1: bool,
        alive2: bool,
    ) -> (r: Vec<Dispatch>)
        requires
            world.wf(),
        ensures
            r@ == (if world.colliders().contains_key(event.collider1.key())
                && world.colliders().contains_key(event.collider2.key()) && alive1 && alive2 {
                classify_spec(
                    EventParties {
                        node1: world.owners()[event.collider1.key()],
                        sensor1: world.colliders()[event.collider1.key()].1,
                        node2: world.owners()[event.collider2.key()],
                        sensor2: world.colliders()[event.collider2.key()].1,
                    },
                    event.started,
                )
            } else {
                Seq::<Dispatch>::empty()
            }),
    {
        if !alive1 || !alive2 {
            return Vec::new();
        }
        match self.resolve(world, event) {
            Some(p) => classify(p, event.started),
            None => Vec::new(),
        }
    }
}

} // verus!
