use liblitho::checksum::{checksum_of_bytes, verify_transfer, ChecksumCalculator};
use liblitho::errors::ImagingError;
use liblitho::hex::to_hex;

#[test]
fn empty_stream_digests_to_known_value() {
    let c = checksum_of_bytes(b"");
    assert_eq!(
        c.hex(),
        "e3b0c44298fc1c149afbf4c8996fb92427ae41e4649b934ca495991b7852b855"
    );
}

#[test]
fn known_vector_abc() {
    let c = checksum_of_bytes(b"abc");
    assert_eq!(
        c.hex(),
        "ba7816bf8f01cfea414140de5dae2223b00361a396177a9cb410ff61f20015ad"
    );
}

#[test]
fn hex_is_two_lowercase_digits_per_byte() {
    assert_eq!(to_hex(&[0x00, 0x0F, 0xA5, 0xFF]), "000fa5ff");
    assert_eq!(to_hex(&[]), "");
}

#[test]
fn streaming_in_chunks_equals_one_shot() {
    let mut calc = ChecksumCalculator::new(3);
    calc.update(b"ab");
    calc.update(b"");
    calc.update(b"c");
    let streamed = calc.finalize();
    let oneshot = checksum_of_bytes(b"abc");
    assert!(streamed.equals(&oneshot));
    assert_eq!(streamed.hex(), oneshot.hex());
}

#[test]
fn verify_accepts_identical_bytes() {
    let data = vec![9u8; 4096];
    let source = checksum_of_bytes(&data);
    let destination = checksum_of_bytes(&data);
    assert!(verify_transfer(&source, &destination).is_ok());
}

#[test]
fn single_flipped_byte_is_an_integrity_mismatch() {
    let data = vec![9u8; 4096];
    let mut corrupted = data.clone();
    corrupted[1234] ^= 0x01;
    let source = checksum_of_bytes(&data);
    let destination = checksum_of_bytes(&corrupted);
    assert!(!source.equals(&destination));
    assert_eq!(
        verify_transfer(&source, &destination).unwrap_err(),
        ImagingError::IntegrityMismatch
    );
}
