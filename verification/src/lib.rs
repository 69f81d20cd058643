//! Bridge between a wireless control channel and a configurable camera.
//!
//! The library holds the protocol and normalization layer of the bridge:
//! a wire codec that serializes and compresses tagged configuration
//! records, a foreign-boundary adapter that rebuilds a decoded record as
//! an owned C-style structure, a normalizer that maps heterogeneous
//! driver widgets onto one uniform record shape, and the characteristic
//! dispatcher that routes read and write requests. The wireless
//! transport and the physical camera driver are external collaborators;
//! they live outside this crate and talk to it through plain values.

pub mod boundary;
pub mod camera_controller;
pub mod codec;
pub mod data;
pub mod dispatcher;
pub mod numeric;
