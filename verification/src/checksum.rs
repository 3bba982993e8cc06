//! SHA-256 checksums of byte streams.
//!
//! A flash operation checksums its source once in full, writes it out,
//! checksums the destination, and succeeds only when the two agree.
//! The digest itself comes from the `sha2` crate; everything around it
//! — accumulation of the stream, hex rendering, comparison, and the
//! success/mismatch decision — is verified here.

use vstd::prelude::*;
use crate::DIGEST_LEN;
use crate::errors::ImagingError;
use crate::hex::{hex_of, to_hex};

verus! {

/// The SHA-256 digest of a byte sequence.  Its value is fixed by the
/// SHA-256 function itself and is not restated here; contracts speak
/// of it by this name.
pub uninterp spec fn sha256_of(bytes: Seq<u8>) -> Seq<u8>;

/// Equal byte sequences have equal digests: the digest is a function
/// of the bytes alone.
pub proof fn lemma_equal_bytes_equal_digests(a: Seq<u8>, b: Seq<u8>)
    requires
        a == b,
    ensures
        sha256_of(a) == sha256_of(b),
{
}

/// Relies on `sha2::Sha256` through the one-shot `Digest::digest`
/// call: the SHA-256 digest of the input, 32 bytes, a function of the
/// input bytes alone.
#[verifier::external_body]
fn sha256_digest_bytes(data: &[u8]) -> (r: Vec<u8>)
    ensures
        r@ == sha256_of(data@),
        r@.len() == DIGEST_LEN,
{
    <sha2::Sha256 as sha2::Digest>::digest(data).to_vec()
}

/// A computed checksum: the raw SHA-256 digest of some byte stream,
/// reported to callers as a 64-character lower-case hex string.
pub struct Checksum {
    digest: Vec<u8>,
}

impl View for Checksum {
    type V = Seq<u8>;

    closed spec fn view(&self) -> Seq<u8> {
        self.digest@
    }
}

impl Checksum {
    /// A checksum always holds a full-size digest.
    pub open spec fn well_formed(&self) -> bool {
        self@.len() == DIGEST_LEN
    }

    /// Digest equality, which `crate::hex::lemma_hex_of_injective`
    /// shows is the same comparison as equality of the hex strings.
    pub fn equals(&self, other: &Checksum) -> (r: bool)
        ensures
            r <==> self@ == other@,
    {
        if self.digest.len() != other.digest.len() {
            return false;
        }
        let mut i: usize = 0;
        while i < self.digest.len()
            invariant
                i <= self.digest@.len(),
                self.digest@.len() == other.digest@.len(),
                forall|j: int| 0 <= j < i ==> self.digest@[j] == other.digest@[j],
            decreases self.digest@.len() - i,
        {
            if self.digest[i] != other.digest[i] {
                return false;
            }
            i = i + 1;
        }
        proof {
            assert(self@ =~= other@);
        }
        true
    }

    /// Canonical lower-case hex rendering of the digest.
    pub fn hex(&self) -> (r: String)
        ensures
            r@ == hex_of(self@),
    {
        to_hex(self.digest.as_slice())
    }
}

/// Accumulates a byte stream fed in chunks and digests it on
/// `finalize`.  The view is the sequence of bytes consumed so far.
pub struct ChecksumCalculator {
    data: Vec<u8>,
}

impl View for ChecksumCalculator {
    type V = Seq<u8>;

    closed spec fn view(&self) -> Seq<u8> {
        self.data@
    }
}

impl ChecksumCalculator {
    /// Fresh calculator; the size hint only pre-sizes the internal
    /// buffer and does not bound how much may be fed.
    pub fn new(size_hint: usize) -> (r: ChecksumCalculator)
        ensures
            r@ == Seq::<u8>::empty(),
    {
        let r = ChecksumCalculator { data: Vec::with_capacity(size_hint) };
        proof {
            assert(r@ =~= Seq::<u8>::empty());
        }
        r
    }

    /// Consume one chunk of the stream.
    pub fn update(&mut self, chunk: &[u8])
        ensures
            final(self)@ == old(self)@ + chunk@,
    {
        let mut i: usize = 0;
        while i < chunk.len()
            invariant
                i <= chunk@.len(),
                self.data@ == old(self).data@ + chunk@.take(i as int),
            decreases chunk@.len() - i,
        {
            self.data.push(chunk[i]);
            i = i + 1;
            proof {
                assert(self.data@ =~= old(self).data@ + chunk@.take(i as int));
            }
        }
        proof {
            assert(chunk@.take(chunk@.len() as int) =~= chunk@);
        }
    }

    /// Digest of everything consumed, in order.  An empty stream
    /// yields the digest of the empty byte sequence, not an error.
    pub fn finalize(self) -> (r: Checksum)
        ensures
            r@ == sha256_of(self@),
            r.well_formed(),
    {
        Checksum { digest: sha256_digest_bytes(self.data.as_slice()) }
    }
}

/// Checksum of a byte buffer in one call.
pub fn checksum_of_bytes(data: &[u8]) -> (r: Checksum)
    ensures
        r@ == sha256_of(data@),
        r.well_formed(),
{
    Checksum { digest: sha256_digest_bytes(data) }
}

/// The verification step of a flash: success exactly when the
/// checksum read back from the destination equals the checksum of the
/// source, and otherwise the distinguished integrity failure.
pub fn verify_transfer(source: &Checksum, destination: &Checksum) -> (r: Result<
    (),
    ImagingError,
>)
    ensures
        match r {
            Ok(()) => source@ == destination@,
            Err(e) => source@ != destination@ && e == ImagingError::IntegrityMismatch,
        },
{
    if source.equals(destination) {
        Ok(())
    } else {
        Err(ImagingError::IntegrityMismatch)
    }
}

} // verus!
