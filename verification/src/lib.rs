//! Runtime core of a client/server real-time simulation engine.
//!
//! The crate carries three coupled subsystems: a physics world that manages
//! rigid bodies and colliders through generation-checked handles, a
//! system/entity runtime with hierarchical transform propagation and
//! lifecycle hooks split by network role, and a replication protocol that
//! carries state between the roles over reliable and unreliable channels.
//! Spatial quantities are fixed-point integers; the floating-point
//! integration itself is the physics backend's task, driven by the embedding
//! program against the records kept here.

pub mod framework;
pub mod game_main;
pub mod networking;
pub mod objects;
pub mod physics;
pub mod systems;
pub mod test_system;
pub mod transform;
