//! Driver core for the AT24Cx family of serial EEPROMs.
//!
//! The chip is byte-addressable and organised in pages. It sits on a two-wire
//! bus, takes part of the memory address in its bus address, and needs time
//! after every page write before it answers again. This crate turns read
//! and write requests on a flat address space into bus transactions: which
//! bus address to target, how a write is cut at page boundaries, and how the
//! end of the chip's write cycle is awaited.
//!
//! The core performs no bus traffic itself. It says which transaction comes
//! next, and is told how the last one ended.

pub mod address;
pub mod bounds;
pub mod chunking;
pub mod device;
pub mod error;
pub mod medium;
pub mod polling;
pub mod transfer;

pub use address::Address;
pub use device::At24Cx;
pub use error::{Error, ErrorKind};
