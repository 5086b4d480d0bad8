//! Core of a networked two-player platformer: edge-triggered input, a
//! fixed-point physics integrator, the wire codec, and the server and client
//! session logic.

pub mod input;
pub mod physics;
pub mod protocol;
pub mod session;
pub mod snapshot;
pub mod client;
