//! The byte-level data path of clone and flash, modeled over byte
//! buffers.
//!
//! A transfer moves a source into a destination in blocks: every
//! write but the last moves a full block, the last moves what is
//! left.  A flash additionally verifies the destination against the
//! source checksum and reports progress as percentages; a clone
//! reports cumulative byte counts.  The surrounding process performs
//! the actual device I/O and feeds these functions plain bytes.

use vstd::prelude::*;
use vstd::pervasive::VecAdditionalExecFns;
use vstd::slice::slice_subrange;
use crate::errors::ImagingError;
use crate::progress::{
    percent_spec,
    flash_percent,
    lemma_percent_complete,
    lemma_percent_monotonic,
};
use crate::checksum::{checksum_of_bytes, verify_transfer};
use crate::xz::{decompress_image, xz_decoded};

verus! {

/// Sizes of the successive writes of a transfer of `total` bytes in
/// blocks of `block` bytes: full blocks, then the remainder.
pub open spec fn write_sizes(total: int, block: int) -> Seq<int>
    decreases total,
{
    if block <= 0 || total <= 0 {
        Seq::empty()
    } else if total <= block {
        seq![total]
    } else {
        seq![block] + write_sizes(total - block, block)
    }
}

/// The write plan for a transfer: how many bytes each successive
/// write moves.
pub fn block_sizes(total: usize, block: usize) -> (r: Vec<usize>)
    requires
        block > 0,
    ensures
        r@.map_values(|x: usize| x as int) == write_sizes(total as int, block as int),
{
    let mut r: Vec<usize> = Vec::new();
    let mut remaining: usize = total;
    while remaining > 0
        invariant
            block > 0,
            remaining <= total,
            write_sizes(total as int, block as int) == r@.map_values(|x: usize| x as int)
                + write_sizes(remaining as int, block as int),
        decreases remaining,
    {
        let n: usize = if remaining < block {
            remaining
        } else {
            block
        };
        let ghost prev = r@;
        let ghost prev_remaining = remaining as int;
        r.push(n);
        remaining = remaining - n;
        proof {
            assert(r@.map_values(|x: usize| x as int) =~= prev.map_values(|x: usize| x as int)
                + seq![n as int]);
            assert(write_sizes(prev_remaining, block as int) == seq![n as int] + write_sizes(
                remaining as int,
                block as int,
            ));
            assert(r@.map_values(|x: usize| x as int) + write_sizes(
                remaining as int,
                block as int,
            ) =~= prev.map_values(|x: usize| x as int) + write_sizes(
                prev_remaining,
                block as int,
            ));
        }
    }
    proof {
        assert(r@.map_values(|x: usize| x as int) =~= r@.map_values(|x: usize| x as int)
            + write_sizes(0, block as int));
    }
    r
}

/// Percentages reported after each remaining write of a flash that
/// has already moved `written` of `total` bytes.
pub open spec fn percent_events_from(written: int, total: int, block: int) -> Seq<int>
    decreases total - written,
{
    if block <= 0 || written >= total {
        Seq::empty()
    } else if total - written <= block {
        seq![percent_spec(total as nat, total as nat) as int]
    } else {
        seq![percent_spec((written + block) as nat, total as nat) as int] + percent_events_from(
            written + block,
            total,
            block,
        )
    }
}

/// All percentages a flash of `total` bytes reports: one per write,
/// from the cumulative bytes written; a zero-length source reports a
/// single 100 at once instead of dividing by zero.
pub open spec fn percent_events(total: int, block: int) -> Seq<int> {
    if total == 0 {
        seq![100int]
    } else {
        percent_events_from(0, total, block)
    }
}

/// Cumulative byte counts reported after each remaining read of a
/// clone that has already captured `copied` of `total` bytes.
pub open spec fn byte_count_events_from(copied: int, total: int, block: int) -> Seq<int>
    decreases total - copied,
{
    if block <= 0 || copied >= total {
        Seq::empty()
    } else if total - copied <= block {
        seq![total]
    } else {
        seq![copied + block] + byte_count_events_from(copied + block, total, block)
    }
}

/// All byte counts a clone of `total` bytes reports, one per block
/// actually read; an empty source reports nothing.
pub open spec fn byte_count_events(total: int, block: int) -> Seq<int> {
    byte_count_events_from(0, total, block)
}

/// Write `image` onto the front of `device` in blocks of `block`
/// bytes and verify the result, as a flash does once both endpoints
/// are open: the first `|image|` bytes of the device afterwards are
/// exactly the image, the rest is untouched, and the reported
/// percentages are those of `percent_events`, never decreasing and
/// ending on exactly 100.  A device smaller than the image fails the
/// write and changes nothing.
pub fn flash_image(image: &[u8], device: &mut Vec<u8>, block: usize) -> (r: Result<
    Vec<u64>,
    ImagingError,
>)
    requires
        block > 0,
    ensures
        match r {
            Ok(events) => {
                &&& image@.len() <= old(device)@.len()
                &&& final(device)@ == image@ + old(device)@.skip(image@.len() as int)
                &&& events@.map_values(|p: u64| p as int) == percent_events(
                    image@.len() as int,
                    block as int,
                )
                &&& events@.len() > 0
                &&& events@[events@.len() - 1] == 100
                &&& forall|i: int, j: int|
                    0 <= i <= j < events@.len() ==> events@[i] <= events@[j]
            },
            Err(e) => {
                &&& e == ImagingError::WriteFailed
                &&& image@.len() > old(device)@.len()
                &&& final(device)@ == old(device)@
            },
        },
{
    let total: usize = image.len();
    if total > device.len() {
        return Err(ImagingError::WriteFailed);
    }
    let mut events: Vec<u64> = Vec::new();
    if total == 0 {
        let p = flash_percent(0, 0);
        events.push(p);
    }
    let mut written: usize = 0;
    while written < total
        invariant
            block > 0,
            total == image@.len(),
            total <= device@.len(),
            device@.len() == old(device)@.len(),
            written <= total,
            device@ == image@.take(written as int) + old(device)@.skip(written as int),
            total == 0 ==> events@.map_values(|p: u64| p as int) == seq![100int],
            total > 0 ==> events@.map_values(|p: u64| p as int) + percent_events_from(
                written as int,
                total as int,
                block as int,
            ) == percent_events_from(0, total as int, block as int),
            events@.len() > 0 ==> events@[events@.len() - 1] as nat == percent_spec(
                written as nat,
                total as nat,
            ),
            total > 0 && written > 0 ==> events@.len() > 0,
            total == 0 ==> events@.len() == 1,
            forall|i: int, j: int| 0 <= i <= j < events@.len() ==> events@[i] <= events@[j],
        decreases total - written,
    {
        let n: usize = if total - written < block {
            total - written
        } else {
            block
        };
        let mut j: usize = 0;
        while j < n
            invariant
                written + n <= total,
                total == image@.len(),
                total <= device@.len(),
                device@.len() == old(device)@.len(),
                j <= n,
                device@ == image@.take(written as int + j as int) + old(device)@.skip(
                    written as int + j as int,
                ),
            decreases n - j,
        {
            let ghost before = device@;
            device.set(written + j, image[written + j]);
            j = j + 1;
            proof {
                assert(device@ =~= image@.take(written as int + j as int) + old(device)@.skip(
                    written as int + j as int,
                ));
            }
        }
        let ghost prev_events = events@;
        let ghost prev_written = written as int;
        written = written + n;
        let p = flash_percent(written as u64, total as u64);
        events.push(p);
        proof {
            assert(events@.map_values(|p: u64| p as int) =~= prev_events.map_values(
                |p: u64| p as int,
            ) + seq![p as int]);
            assert(percent_events_from(prev_written, total as int, block as int) == seq![
                p as int,
            ] + percent_events_from(written as int, total as int, block as int));
            assert(events@.map_values(|p: u64| p as int) + percent_events_from(
                written as int,
                total as int,
                block as int,
            ) =~= prev_events.map_values(|p: u64| p as int) + percent_events_from(
                prev_written,
                total as int,
                block as int,
            ));
            if prev_events.len() > 0 {
                lemma_percent_monotonic(prev_written as nat, written as nat, total as nat);
            }
        }
    }
    proof {
        assert(image@.take(total as int) =~= image@);
        lemma_percent_complete(total as nat);
        if total > 0 {
            assert(events@.map_values(|p: u64| p as int) =~= events@.map_values(|p: u64| p as int)
                + percent_events_from(total as int, total as int, block as int));
        }
        assert(events@.map_values(|p: u64| p as int).len() == events@.len());
    }
    let source_sum = checksum_of_bytes(image);
    let readback = slice_subrange(device.as_slice(), 0, total);
    let destination_sum = checksum_of_bytes(readback);
    match verify_transfer(&source_sum, &destination_sum) {
        Ok(()) => Ok(events),
        Err(e) => {
            proof {
                assert(readback@ =~= image@);
                assert(false);
            }
            Err(e)
        },
    }
}

/// Capture the raw bytes of a device into a fresh buffer in blocks of
/// `block` bytes, as a clone does: the output equals the device
/// bytes, and the reported cumulative byte counts are those of
/// `byte_count_events`, strictly increasing up to the device size.
pub fn clone_device(device: &[u8], block: usize) -> (r: (Vec<u8>, Vec<u64>))
    requires
        block > 0,
    ensures
        r.0@ == device@,
        r.1@.map_values(|c: u64| c as int) == byte_count_events(device@.len() as int, block as int),
        device@.len() > 0 ==> r.1@.len() > 0 && r.1@[r.1@.len() - 1] == device@.len() as u64,
        forall|i: int, j: int| 0 <= i <= j < r.1@.len() ==> r.1@[i] <= r.1@[j],
{
    let total: usize = device.len();
    let mut out: Vec<u8> = Vec::with_capacity(total);
    let mut events: Vec<u64> = Vec::new();
    let mut copied: usize = 0;
    while copied < total
        invariant
            block > 0,
            total == device@.len(),
            copied <= total,
            out@ == device@.take(copied as int),
            events@.map_values(|c: u64| c as int) + byte_count_events_from(
                copied as int,
                total as int,
                block as int,
            ) == byte_count_events_from(0, total as int, block as int),
            events@.len() > 0 ==> events@[events@.len() - 1] == copied as u64,
            copied > 0 ==> events@.len() > 0,
            forall|i: int, j: int| 0 <= i <= j < events@.len() ==> events@[i] <= events@[j],
        decreases total - copied,
    {
        let n: usize = if total - copied < block {
            total - copied
        } else {
            block
        };
        let mut j: usize = 0;
        while j < n
            invariant
                copied + n <= total,
                total == device@.len(),
                j <= n,
                out@ == device@.take(copied as int + j as int),
            decreases n - j,
        {
            out.push(device[copied + j]);
            j = j + 1;
            proof {
                assert(out@ =~= device@.take(copied as int + j as int));
            }
        }
        let ghost prev_events = events@;
        let ghost prev_copied = copied as int;
        copied = copied + n;
        events.push(copied as u64);
        proof {
            assert(events@.map_values(|c: u64| c as int) =~= prev_events.map_values(
                |c: u64| c as int,
            ) + seq![copied as int]);
            assert(byte_count_events_from(prev_copied, total as int, block as int) == seq![
                copied as int,
            ] + byte_count_events_from(copied as int, total as int, block as int));
            assert(events@.map_values(|c: u64| c as int) + byte_count_events_from(
                copied as int,
                total as int,
                block as int,
            ) =~= prev_events.map_values(|c: u64| c as int) + byte_count_events_from(
                prev_copied,
                total as int,
                block as int,
            ));
        }
    }
    proof {
        assert(device@.take(total as int) =~= device@);
        assert(events@.map_values(|c: u64| c as int) =~= events@.map_values(|c: u64| c as int)
            + byte_count_events_from(total as int, total as int, block as int));
        assert(events@.map_values(|c: u64| c as int).len() == events@.len());
    }
    (out, events)
}

/// Flash a compressed image: decode it in full, then write and
/// verify the decoded bytes exactly as `flash_image` does.  A
/// malformed stream is the distinguished decoding failure and leaves
/// the device untouched; a decoded image larger than the device
/// fails the write and leaves the device untouched.
pub fn flash_compressed_image(data: &[u8], device: &mut Vec<u8>, block: usize) -> (r: Result<
    Vec<u64>,
    ImagingError,
>)
    requires
        block > 0,
    ensures
        match r {
            Ok(events) => {
                &&& xz_decoded(data@) is Some
                &&& xz_decoded(data@).unwrap().len() <= old(device)@.len()
                &&& final(device)@ == xz_decoded(data@).unwrap() + old(device)@.skip(
                    xz_decoded(data@).unwrap().len() as int,
                )
                &&& events@.map_values(|p: u64| p as int) == percent_events(
                    xz_decoded(data@).unwrap().len() as int,
                    block as int,
                )
                &&& events@.len() > 0
                &&& events@[events@.len() - 1] == 100
            },
            Err(e) => {
                &&& final(device)@ == old(device)@
                &&& (e == ImagingError::DecompressionFailed <==> xz_decoded(data@) is None)
                &&& (e == ImagingError::DecompressionFailed || e == ImagingError::WriteFailed)
                &&& (e == ImagingError::WriteFailed ==> xz_decoded(data@).unwrap().len() > old(
                    device,
                )@.len())
            },
        },
{
    match decompress_image(data) {
        Ok(image) => flash_image(image.as_slice(), device, block),
        Err(e) => Err(e),
    }
}

/// How many bytes past `addr` the next `align`-aligned address lies.
/// Direct I/O requires buffers aligned to the device's logical block
/// size; the process allocating a transfer buffer places it this far
/// into an oversized allocation.
pub fn alignment_offset(addr: usize, align: usize) -> (r: usize)
    requires
        align > 0,
    ensures
        r < align,
        (addr + r) % (align as int) == 0,
{
    let rem = addr % align;
    if rem == 0 {
        0
    } else {
        proof {
            let q = addr as int / align as int;
            vstd::arithmetic::div_mod::lemma_fundamental_div_mod(addr as int, align as int);
            assert(addr as int == align as int * q + rem as int);
            vstd::arithmetic::mul::lemma_mul_is_distributive_add(align as int, q, 1);
            assert(addr as int + (align - rem) as int == align as int * (q + 1));
            vstd::arithmetic::mul::lemma_mul_is_commutative(align as int, q + 1);
            vstd::arithmetic::div_mod::lemma_mod_multiples_basic(q + 1, align as int);
        }
        align - rem
    }
}

/// Reading back the flashed region returns exactly the image that was
/// written, and the device keeps its size.
pub proof fn lemma_flash_read_back(image: Seq<u8>, before: Seq<u8>, after: Seq<u8>)
    requires
        image.len() <= before.len(),
        after == image + before.skip(image.len() as int),
    ensures
        after.take(image.len() as int) == image,
        after.len() == before.len(),
{
    assert(after.take(image.len() as int) =~= image);
}

/// Cloning a device and flashing the cloned output onto a destination
/// of the same size reproduces the original bytes exactly.
pub proof fn lemma_clone_flash_round_trip(
    source: Seq<u8>,
    cloned: Seq<u8>,
    dest_before: Seq<u8>,
    dest_after: Seq<u8>,
)
    requires
        cloned == source,
        dest_before.len() == source.len(),
        dest_after == cloned + dest_before.skip(cloned.len() as int),
    ensures
        dest_after == source,
{
    assert(dest_after =~= source);
}

} // verus!
