//! The decisions that the socket connectors take between their I/O calls.

pub mod firecracker;
pub mod vsock;
