use liblitho::checksum::checksum_of_bytes;
use liblitho::engine::{FlashPhase, FlashSession};
use liblitho::errors::ImagingError;
use liblitho::progress::flash_percent;

#[test]
fn percentages_by_integer_division() {
    assert_eq!(flash_percent(4096, 10000), 40);
    assert_eq!(flash_percent(8192, 10000), 81);
    assert_eq!(flash_percent(10000, 10000), 100);
    assert_eq!(flash_percent(0, 10000), 0);
}

#[test]
fn zero_total_reports_100_without_division_failure() {
    assert_eq!(flash_percent(0, 0), 100);
}

#[test]
fn verified_flash_walkthrough() {
    let mut s = FlashSession::new(false);
    assert_eq!(s.current_phase(), FlashPhase::Idle);
    s.start();
    assert_eq!(s.current_phase(), FlashPhase::ChecksummingSource);
    s.source_ready(checksum_of_bytes(b"abc"), 3);
    assert_eq!(s.current_phase(), FlashPhase::Writing);
    assert_eq!(s.block_written(2), 66);
    assert_eq!(s.block_written(1), 100);
    s.write_finished();
    assert_eq!(s.current_phase(), FlashPhase::VerifyingDestination);
    let readback = checksum_of_bytes(b"abc");
    assert!(s.destination_checksummed(&readback).is_ok());
    assert_eq!(s.current_phase(), FlashPhase::Verified);
    assert!(s.is_terminal());
    assert_eq!(s.failure_cause(), None);
}

#[test]
fn corrupted_destination_ends_in_mismatch() {
    let mut s = FlashSession::new(false);
    s.start();
    s.source_ready(checksum_of_bytes(b"abc"), 3);
    assert_eq!(s.block_written(3), 100);
    s.write_finished();
    let readback = checksum_of_bytes(b"abd");
    assert_eq!(
        s.destination_checksummed(&readback).unwrap_err(),
        ImagingError::IntegrityMismatch
    );
    assert_eq!(s.current_phase(), FlashPhase::Mismatch);
    assert!(s.is_terminal());
}

#[test]
fn compressed_source_decodes_first_and_cleans_up() {
    let mut s = FlashSession::new(true);
    s.start();
    assert_eq!(s.current_phase(), FlashPhase::Decompressing);
    assert!(s.needs_cleanup());
    s.decompression_finished(true);
    assert_eq!(s.current_phase(), FlashPhase::ChecksummingSource);
}

#[test]
fn malformed_stream_fails_recoverably() {
    let mut s = FlashSession::new(true);
    s.start();
    s.decompression_finished(false);
    assert_eq!(s.current_phase(), FlashPhase::Failed);
    assert_eq!(s.failure_cause(), Some(ImagingError::DecompressionFailed));
    assert!(s.is_terminal());
    assert!(s.needs_cleanup());
}

#[test]
fn io_failure_goes_straight_to_failed() {
    let mut s = FlashSession::new(false);
    s.start();
    s.io_failed(ImagingError::ReadFailed);
    assert_eq!(s.current_phase(), FlashPhase::Failed);
    assert_eq!(s.failure_cause(), Some(ImagingError::ReadFailed));
}

#[test]
fn zero_length_source_is_complete_at_once() {
    let mut s = FlashSession::new(false);
    s.start();
    s.source_ready(checksum_of_bytes(b""), 0);
    assert_eq!(s.percent_now(), 100);
}

#[test]
fn progress_is_monotone_across_blocks() {
    let mut s = FlashSession::new(false);
    s.start();
    s.source_ready(checksum_of_bytes(&[0u8; 64]), 10000);
    let mut last = 0u64;
    for _ in 0..2 {
        let p = s.block_written(4096);
        assert!(p >= last);
        last = p;
    }
    let p = s.block_written(1808);
    assert!(p >= last);
    assert_eq!(p, 100);
}

#[test]
fn every_transport_failure_is_reported_as_itself() {
    let failures = [
        ImagingError::SourceOpenFailed,
        ImagingError::DestinationOpenFailed,
        ImagingError::ReadFailed,
        ImagingError::WriteFailed,
        ImagingError::SizeConversionOverflow,
    ];
    for f in failures {
        let mut s = FlashSession::new(false);
        s.start();
        s.io_failed(f);
        assert_eq!(s.current_phase(), FlashPhase::Failed);
        assert_eq!(s.failure_cause(), Some(f));
        assert!(s.is_terminal());
    }
}
