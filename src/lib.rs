//! Physics-side bookkeeping that keeps a 2-D rigid-body world in step with
//! the nodes of a scene graph: handle lifecycle, registration of bodies and
//! their colliders, liveness checks for proxies and classification of
//! contact and sensor events.
pub mod engine;
pub mod events;
pub mod handle;
pub mod kind;
pub mod proxy;
pub mod world;
