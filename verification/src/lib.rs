//! Driver logic for a W25Q serial NOR flash on a quad-wire command bus.
//!
//! The crate performs no bus traffic itself. The driver in [`w25q`] is a
//! protocol engine: every operation hands out the bus transactions to perform,
//! one at a time, and takes back what the transport reported for each.
//!
//! - [`bus`]: the shape of a transaction and of the transport's errors.
//! - [`protocol`]: the stages of the chip's operations, how the driver moves
//!   through them, and what holds of every run.
//! - [`w25q`]: addresses and sectors, the driver, and the handle on an erase
//!   or program that is under way.
//! - [`layout`]: which bytes the commands of an operation program and erase.
//! - [`fs`] and [`embedded_storage`]: the driver as block storage for a
//!   filesystem and as byte-addressable NOR flash.

pub mod bus;
pub mod embedded_storage;
pub mod fs;
pub mod layout;
pub mod protocol;
pub mod w25q;
