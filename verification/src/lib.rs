//! Core of a passive visualization client for a remote physics simulation:
//! the wire codec for simulation snapshots, the stale-tick filter and framing
//! decisions of the datagram transport, the triple-buffered snapshot store
//! with its three smoothing policies, and the camera-target state machine.
//!
//! Scalar physical quantities travel as IEEE-754 single-precision bit
//! patterns (`u32`). This crate never does arithmetic on them: it frames,
//! stores, pairs and forwards them bit-exactly; continuous-time blending is
//! the embedding application's concern.

pub mod buffer;
pub mod camera;
pub mod clock;
pub mod codec;
pub mod events;
pub mod game;
pub mod math;
pub mod packet;
pub mod render;
