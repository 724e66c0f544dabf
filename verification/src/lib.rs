//! Incremental decoder for Modbus RTU requests.
//!
//! Bytes received from a serial line are stored in a lock-free byte ring
//! and decoded, one request frame per pull, without copying the payload of
//! the write-multiple requests.

pub mod consts;
pub mod data;
pub mod delivery;
pub mod error;
pub mod general;
pub mod modbus;
pub mod request;
pub mod ring;
pub mod stream;
pub mod task;
pub mod wire;

pub use data::{CoilIterator, CoilState, CoilStore, RegisterIterator, RegisterStore};
pub use error::Error;
pub use general::crc_valid;
pub use modbus::Modbus;
pub use request::{Request, RequestFrame};
pub use ring::RING_SIZE;
