//! Market account state: sectors, linked lists, the free stack and the market header.

pub mod asks_dll;
pub mod bids_dll;
pub mod free_stack;
pub mod linked_list;
pub mod market;
pub mod market_header;
pub mod market_seat;
pub mod node;
pub mod order;
pub mod seats_dll;
pub mod sector;
pub mod transmutable;
pub mod user_order_sectors;

use vstd::prelude::*;

verus! {

/// The size in bytes of a `u16`.
pub const U16_SIZE: usize = 2;

/// The size in bytes of a `u32`.
pub const U32_SIZE: usize = 4;

/// The size in bytes of a `u64`.
pub const U64_SIZE: usize = 8;

/// A `u32` stored as little-endian bytes.
pub type LeU32 = [u8; 4];

/// A `u64` stored as little-endian bytes.
pub type LeU64 = [u8; 8];

/// The system program's address ("11111111111111111111111111111111" in base58): all zero bytes.
pub const SYSTEM_PROGRAM_ID: [u8; 32] = [
    0u8, 0, 0, 0, 0, 0, 0, 0, 0, 0, 0, 0, 0, 0, 0, 0, 0, 0, 0, 0, 0, 0, 0, 0, 0, 0, 0, 0, 0, 0, 0, 0,
];

} // verus!
