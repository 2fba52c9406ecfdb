//! Decoding of blueprint containers: a fixed header, a run of zstd-compressed
//! blocks, and a grid of ink codes read from one block's payload.

pub mod block;
pub mod blueprint;
pub mod bytes;
pub mod error;
pub mod grid;
pub mod header;
pub mod ink;

pub use block::BlockData;
pub use blueprint::BlueprintData;
pub use bytes::u32_from_3_bytes_be;
pub use error::FormatError;
pub use grid::{InkGrid, UnknownSymbolCode, block_to_inks, inks_from_payload};
pub use header::BlueprintHeader;
pub use ink::Ink;
