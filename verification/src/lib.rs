//! Hex-encoded socket URIs (Unix Domain, Firecracker and VSOCK) and the
//! decisions of the socket connectors, with their behaviour stated and proved.

pub mod decimal;
pub mod hexcode;
pub mod tokio;
pub mod uri;
pub mod utils;
