//! Cross-process synchronization layer between a host application and a
//! separately running mesh-processing engine, communicating through shared
//! memory.
//!
//! The crate verifies the pieces that carry the protocol's correctness:
//! the asset layout planner, the bounds-checked asset views, the slab
//! registry and compact-pointer hydration, the command queue discipline,
//! and the session lifecycle. The unverified worker threads and process
//! management live outside this library and drive it through the state
//! machines and builders exported here.

// The shared-memory transport logs through a pluggable logger and needs
// a default provider linked into every binary that uses this crate.
use iceoryx2_bb_loggers as _;

pub mod asset_sync_context;
pub mod com_types;
pub mod commands;
pub mod dispatch;
pub mod errors;
pub mod ids;
pub mod layout;
pub mod listener;
pub mod platform;
pub mod session;
pub mod slabs;
pub mod view;
pub mod wire;
