use liblitho::errors::ImagingError;
use liblitho::transfer::flash_compressed_image;
use liblitho::xz::{decompress_image, is_xz_name};

fn fixture_plaintext() -> Vec<u8> {
    let mut v = Vec::with_capacity(20000);
    for i in 0..20000usize {
        v.push((i * 7 % 256) as u8);
    }
    v
}

#[test]
fn decompressing_a_fixture_restores_the_plaintext() {
    let plain = fixture_plaintext();
    let compressed = lzma::compress(&plain, 6).unwrap();
    let restored = decompress_image(&compressed).unwrap();
    assert_eq!(restored, plain);
}

#[test]
fn truncated_stream_is_a_decoding_failure_not_a_partial_file() {
    let plain = fixture_plaintext();
    let compressed = lzma::compress(&plain, 6).unwrap();
    let truncated = &compressed[..compressed.len() / 2];
    assert_eq!(
        decompress_image(truncated).unwrap_err(),
        ImagingError::DecompressionFailed
    );
}

#[test]
fn garbage_is_a_decoding_failure() {
    assert_eq!(
        decompress_image(b"this is not an xz stream").unwrap_err(),
        ImagingError::DecompressionFailed
    );
}

#[test]
fn xz_suffix_detection() {
    assert!(is_xz_name("image.img.xz"));
    assert!(is_xz_name("a.xz"));
    assert!(!is_xz_name("image.img"));
    assert!(!is_xz_name("xz"));
    assert!(!is_xz_name(""));
    assert!(!is_xz_name("image.xz.img"));
}

#[test]
fn compressed_flash_writes_the_decoded_bytes() {
    let plain = fixture_plaintext();
    let compressed = lzma::compress(&plain, 6).unwrap();
    let mut device = vec![0u8; 20000];
    let events = flash_compressed_image(&compressed, &mut device, 4096).unwrap();
    assert_eq!(device, plain);
    assert_eq!(*events.last().unwrap(), 100);
}

#[test]
fn compressed_flash_on_malformed_stream_keeps_the_device() {
    let mut device = vec![5u8; 64];
    let r = flash_compressed_image(b"garbage", &mut device, 16);
    assert_eq!(r.unwrap_err(), ImagingError::DecompressionFailed);
    assert_eq!(device, vec![5u8; 64]);
}
