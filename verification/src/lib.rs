//! Verified core of the Dropset order book: price encoding, sector-based linked structures in
//! market account data, per-user order maps, and instruction data layouts.

pub mod error;
pub mod events;
pub mod instructions;
pub mod le_bytes;
pub mod pack;
pub mod price;
pub mod state;
pub mod tag_codegen;
