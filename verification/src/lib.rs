//! A flat, handle-indexed, polling-based boundary around a rollback-netcode
//! session engine.
//!
//! The bridge owns three things: a registry that maps opaque nonzero handles
//! to live sessions, a per-session queue of plain fixed-layout request
//! records flattened from the engine's per-advance event batches, and, for
//! peer-to-peer sessions, a pair of caller-driven transport queues of framed
//! byte messages. All rules — builder validation, handle lifecycle, emission
//! order, capacity policy, containment of unknown handles — live here and
//! are verified. The engine itself is driven by the surrounding shell, which
//! hands its outcomes in as plain values.
//!
//! The bridge is one explicitly owned object with no interior locking: all
//! entry points must be invoked from a single logical thread, the owner of
//! the [`bridge::CBridge`] value.

use vstd::prelude::*;

pub mod bridge;
pub mod message;
pub mod requests;
pub mod settings;

verus! {

/// Opaque identifier for a live session. `INVALID_HANDLE` never names one.
pub type CSessionHandle = u32;

/// Index of a player within a session, `0 .. num_players` for active players.
pub type CPlayerHandle = usize;

/// A simulation frame number; the engine uses negative values as sentinels.
pub type CFrame = i32;

/// Fixed-width input payload carried for one player and one frame.
pub type CInput = u32;

/// Opaque identifier naming a remote endpoint; its meaning is owned by the
/// caller's transport layer.
pub type CAddressHandle = u32;

/// Sentinel handle: returned when a build fails, never issued for a session.
pub const INVALID_HANDLE: CSessionHandle = 0;

} // verus!
