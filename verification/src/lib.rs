//! Decoding and dispatch pipeline for short-range radio sensor advertisements.
//!
//! The library recognizes a sensor model from a 16-bit vendor identifier,
//! decodes the vendor-specific payload bytes into physical measurements,
//! and routes each decoded measurement to the per-device metric sink that
//! was bound when the device was first discovered.

pub mod govee;
pub mod laws;
pub mod metrics;
pub mod router;
pub mod table;
