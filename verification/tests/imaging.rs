use liblitho::transfer::{alignment_offset, block_sizes, clone_device, flash_image};
use liblitho::errors::ImagingError;

fn pattern(len: usize) -> Vec<u8> {
    let mut v = Vec::with_capacity(len);
    for i in 0..len {
        v.push((i % 251) as u8);
    }
    v
}

#[test]
fn write_plan_10000_by_4096() {
    let plan = block_sizes(10000, 4096);
    assert_eq!(plan, vec![4096, 4096, 1808]);
}

#[test]
fn write_plan_exact_multiple() {
    assert_eq!(block_sizes(8192, 4096), vec![4096, 4096]);
    assert_eq!(block_sizes(0, 4096), Vec::<usize>::new());
    assert_eq!(block_sizes(10, 4096), vec![10]);
}

#[test]
fn flash_percentages_10000_by_4096() {
    let image = pattern(10000);
    let mut device = vec![0u8; 10000];
    let events = flash_image(&image, &mut device, 4096).unwrap();
    assert_eq!(events, vec![40, 81, 100]);
    assert_eq!(device, image);
}

#[test]
fn flash_read_back_equals_source() {
    let image = pattern(5000);
    let mut device = vec![0xEEu8; 8000];
    flash_image(&image, &mut device, 512).unwrap();
    assert_eq!(&device[..5000], &image[..]);
    assert!(device[5000..].iter().all(|b| *b == 0xEE));
}

#[test]
fn flash_zero_length_source_reports_100() {
    let image: Vec<u8> = Vec::new();
    let mut device = vec![7u8; 16];
    let events = flash_image(&image, &mut device, 4096).unwrap();
    assert_eq!(events, vec![100]);
    assert_eq!(device, vec![7u8; 16]);
}

#[test]
fn flash_events_end_on_100_and_never_decrease() {
    let image = pattern(100001);
    let mut device = vec![0u8; 100001];
    let events = flash_image(&image, &mut device, 4096).unwrap();
    assert_eq!(*events.last().unwrap(), 100);
    for w in events.windows(2) {
        assert!(w[0] <= w[1]);
    }
}

#[test]
fn flash_too_small_device_fails_and_keeps_device() {
    let image = pattern(100);
    let mut device = vec![3u8; 99];
    let r = flash_image(&image, &mut device, 16);
    assert_eq!(r.unwrap_err(), ImagingError::WriteFailed);
    assert_eq!(device, vec![3u8; 99]);
}

#[test]
fn clone_captures_device_bytes() {
    let device = pattern(10000);
    let (file, events) = clone_device(&device, 4096);
    assert_eq!(file, device);
    assert_eq!(events, vec![4096, 8192, 10000]);
}

#[test]
fn clone_empty_device_reports_nothing() {
    let device: Vec<u8> = Vec::new();
    let (file, events) = clone_device(&device, 4096);
    assert!(file.is_empty());
    assert!(events.is_empty());
}

#[test]
fn clone_then_flash_round_trip() {
    let original = pattern(9000);
    let (file, _) = clone_device(&original, 1024);
    let mut destination = vec![0u8; 9000];
    flash_image(&file, &mut destination, 1024).unwrap();
    assert_eq!(destination, original);
}

#[test]
fn alignment_offsets_are_minimal_and_aligned() {
    assert_eq!(alignment_offset(0, 4096), 0);
    assert_eq!(alignment_offset(4096, 4096), 0);
    assert_eq!(alignment_offset(1, 4096), 4095);
    assert_eq!(alignment_offset(5000, 4096), 3192);
    for addr in [0usize, 1, 511, 4097, 123456] {
        let off = alignment_offset(addr, 512);
        assert!(off < 512);
        assert_eq!((addr + off) % 512, 0);
    }
}
