//! Client side of the InfiniTime BLE file-transfer protocol: the request and
//! response frames, and the state machines that drive each transfer.

pub mod codec;
pub mod engine;
pub mod laws;
pub mod responses;
pub mod transfer;
