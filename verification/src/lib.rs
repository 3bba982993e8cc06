//! Verified core of a raw block-storage imaging library.
//!
//! The library models the data path of three operations on raw byte
//! streams: cloning a device into a file, flashing an image file onto a
//! device with post-write integrity verification, and enumerating
//! candidate block devices from the attributes the operating system
//! exposes for them.  All I/O lives outside this crate; the functions
//! here work on plain values and carry contracts for what they compute.

pub mod checksum;
pub mod devices;
pub mod engine;
pub mod errors;
pub mod hex;
pub mod progress;
pub mod transfer;
pub mod xz;

use vstd::prelude::*;

verus! {

/// Number of bytes in a SHA-256 digest.
pub const DIGEST_LEN: usize = 32;

} // verus!
