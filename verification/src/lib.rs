//! A client engine for UPnP-described network devices.
//!
//! The crate turns device-description and SCPD documents into a typed,
//! navigable model, builds and decodes the SOAP-style control protocol
//! used to invoke actions, and handles the GENA eventing handshake
//! together with the decoding of its notification payloads.
//!
//! All networking is left to the caller: the functions here work on plain
//! values (strings, byte-for-byte header values, parsed XML trees) so that
//! their behaviour can be stated and checked precisely.

pub mod dec;
pub mod device;
pub mod error;
pub mod scpd;
pub mod service;
pub mod shared;
pub mod subscription;
pub mod strutil;
pub mod urn;
pub mod xml;

pub use device::{Device, DeviceSpec};
pub use error::Error;
pub use service::Service;
pub use urn::URN;
