//! Typed failures of the imaging data path and of device enumeration.

use vstd::prelude::*;

verus! {

/// Failure of a clone or flash operation.  `IntegrityMismatch` is kept
/// distinct from the transport failures so a caller can tell data
/// corruption apart from an I/O fault.
#[derive(Clone, Copy, Debug, PartialEq, Eq, Structural)]
pub enum ImagingError {
    /// The source device or image could not be opened.
    SourceOpenFailed,
    /// The destination file or device could not be opened.
    DestinationOpenFailed,
    /// A read from the source failed.
    ReadFailed,
    /// A write to the destination failed.
    WriteFailed,
    /// The source is larger than the addressable size on this platform.
    SizeConversionOverflow,
    /// The compressed image could not be decoded.
    DecompressionFailed,
    /// The checksum read back from the destination differs from the
    /// checksum of the source.
    IntegrityMismatch,
}

/// Failure of a device enumeration call.  Only an unreadable top-level
/// registry is fatal; per-device attribute failures degrade to default
/// field values instead.
#[derive(Clone, Copy, Debug, PartialEq, Eq, Structural)]
pub enum EnumerationError {
    /// The block-device registry itself could not be read.
    RegistryUnreadable,
}

} // verus!
