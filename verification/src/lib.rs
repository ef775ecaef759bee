//! Broadcast hub core: a channel registry with lifecycle states, a
//! per-channel registry of live sessions, a fan-out engine, and a durable
//! store that persists channel and message records across restarts.

use vstd::prelude::*;

pub mod channel;
pub mod clock;
pub mod config;
pub mod codec;
pub mod errors;
pub mod hub;
pub mod ident;
pub mod message;
pub mod service;
pub mod store;
pub mod text;

verus! {

} // verus!
