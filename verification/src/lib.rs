//! A verified core for a LAN software KVM: one keyboard and mouse drive
//! several machines, with the cursor crossing screen edges to hand focus
//! from one machine to the next.
//!
//! The library holds the logic that is worth proving: the canonical input
//! event set and its wire codec, frame parsing with heartbeat handling,
//! the screen topology and edge detection, the pre-shared-key handshake,
//! trust-on-first-use fingerprint pinning, the focus state machine, and
//! the host- and agent-side event routing. Sockets, input devices, mDNS
//! and files live outside, in ordinary Rust that hands this library plain
//! values and takes plain values back.

pub mod agent;
pub mod cli;
pub mod clipboard;
pub mod codec;
pub mod config;
pub mod discovery;
pub mod events;
pub mod fingerprint;
pub mod focus;
pub mod handshake;
pub mod host;
pub mod input;
pub mod logging;
pub mod permissions;
pub mod simulation;
pub mod text;
pub mod topology;
pub mod transport;

pub use events::{Event, Key, MouseButton};
