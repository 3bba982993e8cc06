//! The flash state machine.
//!
//! A flash runs `Idle → (Decompressing) → ChecksummingSource →
//! Writing → VerifyingDestination → {Verified | Mismatch | Failed}`.
//! The surrounding process performs each pending step — decode the
//! image, checksum a file, write blocks — and reports its outcome
//! here; this type decides every transition and every reported
//! percentage.  Any I/O failure in any non-terminal state goes
//! straight to `Failed`, and a session begun on a compressed image
//! requires its scratch file to be removed on every terminal state.

use vstd::prelude::*;
use crate::checksum::Checksum;
use crate::errors::ImagingError;
use crate::progress::{
    percent_spec,
    flash_percent,
    lemma_percent_monotonic,
    lemma_percent_le_100,
};

verus! {

/// The states of one flash operation.  `Verified`, `Mismatch` and
/// `Failed` are terminal.
#[derive(Clone, Copy, Debug, PartialEq, Eq, Structural)]
pub enum FlashPhase {
    /// Nothing has happened yet.
    Idle,
    /// The compressed source is being decoded into a scratch file.
    Decompressing,
    /// The (decoded) source is being read once in full to checksum it.
    ChecksummingSource,
    /// Blocks are being written to the destination.
    Writing,
    /// The destination is being read back to checksum it.
    VerifyingDestination,
    /// The destination checksum equals the source checksum.
    Verified,
    /// The destination checksum differs: data corruption.
    Mismatch,
    /// An I/O or decoding failure ended the operation.
    Failed,
}

/// One flash operation from start to terminal state.
pub struct FlashSession {
    phase: FlashPhase,
    compressed: bool,
    total: u64,
    written: u64,
    source_sum: Option<Checksum>,
    failure: Option<ImagingError>,
}

impl FlashSession {
    /// Current state.
    pub closed spec fn phase(&self) -> FlashPhase {
        self.phase
    }

    /// Whether the source image was compressed, in which case a
    /// scratch file exists until a terminal state cleans it up.
    pub closed spec fn compressed(&self) -> bool {
        self.compressed
    }

    /// Total size of the (decoded) source in bytes.
    pub closed spec fn total(&self) -> u64 {
        self.total
    }

    /// Bytes written so far.
    pub closed spec fn written(&self) -> u64 {
        self.written
    }

    /// Digest of the source, once the source checksum pass is done.
    pub closed spec fn source_digest(&self) -> Option<Seq<u8>> {
        match self.source_sum {
            Some(c) => Some(c@),
            None => None,
        }
    }

    /// The failure that ended the operation, if one did.
    pub closed spec fn failure(&self) -> Option<ImagingError> {
        self.failure
    }

    /// No transition leaves a terminal state.
    pub open spec fn is_terminal_spec(&self) -> bool {
        self.phase() is Verified || self.phase() is Mismatch || self.phase() is Failed
    }

    /// Internal consistency, established by `new` and preserved by
    /// every transition.
    pub closed spec fn inv(&self) -> bool {
        &&& self.written <= self.total
        &&& (self.phase is Writing || self.phase is VerifyingDestination || self.phase
            is Verified || self.phase is Mismatch) ==> self.source_sum is Some
        &&& (self.phase is VerifyingDestination || self.phase is Verified || self.phase
            is Mismatch) ==> self.written == self.total
        &&& self.phase is Failed <==> self.failure is Some
    }

    /// Fresh session for a source image; `compressed` says whether it
    /// must be decoded first.
    pub fn new(compressed: bool) -> (s: FlashSession)
        ensures
            s.inv(),
            s.phase() is Idle,
            s.compressed() == compressed,
            s.written() == 0,
            s.failure() is None,
    {
        FlashSession {
            phase: FlashPhase::Idle,
            compressed,
            total: 0,
            written: 0,
            source_sum: None,
            failure: None,
        }
    }

    /// Begin: a compressed image is decoded first, a plain one goes
    /// straight to the source checksum pass.
    pub fn start(&mut self)
        requires
            old(self).inv(),
            old(self).phase() is Idle,
        ensures
            final(self).inv(),
            old(self).compressed() ==> final(self).phase() is Decompressing,
            !old(self).compressed() ==> final(self).phase() is ChecksummingSource,
            final(self).compressed() == old(self).compressed(),
            final(self).failure() is None,
    {
        if self.compressed {
            self.phase = FlashPhase::Decompressing;
        } else {
            self.phase = FlashPhase::ChecksummingSource;
        }
    }

    /// The decode step ended.  Success moves on to the source
    /// checksum pass; a malformed stream is a reported decoding
    /// failure, not a process abort.
    pub fn decompression_finished(&mut self, ok: bool)
        requires
            old(self).inv(),
            old(self).phase() is Decompressing,
        ensures
            final(self).inv(),
            final(self).compressed() == old(self).compressed(),
            ok ==> final(self).phase() is ChecksummingSource && final(self).failure() is None,
            !ok ==> final(self).phase() is Failed && final(self).failure() == Some(
                ImagingError::DecompressionFailed,
            ),
    {
        if ok {
            self.phase = FlashPhase::ChecksummingSource;
        } else {
            self.phase = FlashPhase::Failed;
            self.failure = Some(ImagingError::DecompressionFailed);
        }
    }

    /// The source was read once in full: its digest and size are
    /// known, and writing begins.
    pub fn source_ready(&mut self, digest: Checksum, total: u64)
        requires
            old(self).inv(),
            old(self).phase() is ChecksummingSource,
        ensures
            final(self).inv(),
            final(self).phase() is Writing,
            final(self).compressed() == old(self).compressed(),
            final(self).total() == total,
            final(self).written() == 0,
            final(self).source_digest() == Some(digest@),
            final(self).failure() is None,
    {
        self.phase = FlashPhase::Writing;
        self.total = total;
        self.written = 0;
        self.source_sum = Some(digest);
    }

    /// One block of `n` bytes reached the destination.  The returned
    /// percentage is exactly `written * 100 / total` of the new
    /// count (100 for a zero-length source) and never decreases.
    pub fn block_written(&mut self, n: u64) -> (p: u64)
        requires
            old(self).inv(),
            old(self).phase() is Writing,
            old(self).written() + n <= old(self).total(),
        ensures
            final(self).inv(),
            final(self).phase() is Writing,
            final(self).compressed() == old(self).compressed(),
            final(self).total() == old(self).total(),
            final(self).written() == old(self).written() + n,
            final(self).source_digest() == old(self).source_digest(),
            p == percent_spec(final(self).written() as nat, final(self).total() as nat),
            percent_spec(old(self).written() as nat, old(self).total() as nat) <= p <= 100,
    {
        proof {
            lemma_percent_monotonic(
                self.written as nat,
                (self.written + n) as nat,
                self.total as nat,
            );
        }
        self.written = self.written + n;
        flash_percent(self.written, self.total)
    }

    /// Reading the source hit end of stream: every byte is written,
    /// and the destination is read back for verification.
    pub fn write_finished(&mut self)
        requires
            old(self).inv(),
            old(self).phase() is Writing,
            old(self).written() == old(self).total(),
        ensures
            final(self).inv(),
            final(self).phase() is VerifyingDestination,
            final(self).compressed() == old(self).compressed(),
            final(self).total() == old(self).total(),
            final(self).source_digest() == old(self).source_digest(),
            final(self).failure() is None,
    {
        self.phase = FlashPhase::VerifyingDestination;
    }

    /// The destination was read back and checksummed.  Equal digests
    /// verify the flash; unequal digests are the distinguished
    /// integrity failure, kept apart from transport faults.
    pub fn destination_checksummed(&mut self, digest: &Checksum) -> (r: Result<(), ImagingError>)
        requires
            old(self).inv(),
            old(self).phase() is VerifyingDestination,
        ensures
            final(self).inv(),
            final(self).compressed() == old(self).compressed(),
            match r {
                Ok(()) => final(self).phase() is Verified && old(self).source_digest() == Some(digest@),
                Err(e) => {
                    &&& final(self).phase() is Mismatch
                    &&& e == ImagingError::IntegrityMismatch
                    &&& old(self).source_digest() != Some(digest@)
                },
            },
    {
        let matches = match &self.source_sum {
            Some(s) => s.equals(digest),
            None => false,
        };
        if matches {
            self.phase = FlashPhase::Verified;
            Ok(())
        } else {
            self.phase = FlashPhase::Mismatch;
            Err(ImagingError::IntegrityMismatch)
        }
    }

    /// An I/O failure in any non-terminal state ends the operation at
    /// once with that failure.
    pub fn io_failed(&mut self, e: ImagingError)
        requires
            old(self).inv(),
            !old(self).is_terminal_spec(),
        ensures
            final(self).inv(),
            final(self).phase() is Failed,
            final(self).compressed() == old(self).compressed(),
            final(self).failure() == Some(e),
    {
        self.phase = FlashPhase::Failed;
        self.failure = Some(e);
    }

    /// Current state, for the process driving the operation.
    pub fn current_phase(&self) -> (p: FlashPhase)
        ensures
            p == self.phase(),
    {
        self.phase
    }

    /// Whether the operation has ended, in success or failure.
    pub fn is_terminal(&self) -> (r: bool)
        ensures
            r == self.is_terminal_spec(),
    {
        match self.phase {
            FlashPhase::Verified => true,
            FlashPhase::Mismatch => true,
            FlashPhase::Failed => true,
            _ => false,
        }
    }

    /// Whether a scratch file from decompression must be removed once
    /// the session is terminal — on success and on failure alike.
    pub fn needs_cleanup(&self) -> (r: bool)
        ensures
            r == self.compressed(),
    {
        self.compressed
    }

    /// The failure that ended the operation, if one did.
    pub fn failure_cause(&self) -> (r: Option<ImagingError>)
        ensures
            r == self.failure(),
    {
        self.failure
    }

    /// Progress of the write phase so far.
    pub fn percent_now(&self) -> (p: u64)
        requires
            self.inv(),
        ensures
            p == percent_spec(self.written() as nat, self.total() as nat),
            p <= 100,
    {
        proof {
            lemma_percent_le_100(self.written as nat, self.total as nat);
        }
        flash_percent(self.written, self.total)
    }
}

} // verus!
