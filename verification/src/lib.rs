//! Data-availability light client core.
//!
//! For every newly finalized block of an erasure-coded blockchain, this
//! library samples enough coded cells to reach a configurable statistical
//! confidence that the block's data is available, verifies the sampled cells,
//! computes and records a confidence score, and optionally reconstructs one
//! application's data.  The surrounding process (network transports, the
//! on-disk database, FFI bridges) stays outside; the library holds the
//! synchronization and sampling engine itself, with its state and its rules.

pub mod api;
pub mod app_client;
pub mod assoc;
pub mod cells;
pub mod codec;
pub mod confidence;
pub mod finality;
pub mod light_client;
pub mod messages;
pub mod startup;
pub mod store;
pub mod sync_client;
pub mod text;
pub mod types;
