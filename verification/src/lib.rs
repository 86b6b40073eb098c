//! Playback-ordering and playback-coordination core of a streaming-audio
//! client.
//!
//! The [`queue`] module owns the canonical track list, the optional shuffle
//! permutation, the current position and the repeat/shuffle policy, and
//! decides which synchronous call the playback engine should receive for each
//! operation. The [`worker`] module is the decision table of the cooperative
//! event loop that multiplexes commands, raw engine notifications, a periodic
//! refresh tick and a cancellable background token task. The surrounding
//! process performs the engine calls and the channel plumbing; everything that
//! decides is here.

pub mod playable;
pub mod queue;
mod rng;
pub mod worker;
