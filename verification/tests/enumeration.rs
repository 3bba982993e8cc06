use liblitho::devices::{
    clean_attribute, describe_entry, devices_from_registry, list_devices, parse_device_size,
    parse_removable_flag, trim_bytes, RawDeviceEntry,
};
use liblitho::errors::EnumerationError;

fn entry(name: &str, has_dir: bool, node: bool) -> RawDeviceEntry {
    RawDeviceEntry {
        name: name.to_string(),
        has_device_dir: has_dir,
        dev_node_exists: node,
        vendor: None,
        model: None,
        removable: None,
        size: None,
    }
}

#[test]
fn qualifying_entries_are_counted_exactly() {
    let mut full = entry("sda", true, true);
    full.vendor = Some(b"Kingston\n".to_vec());
    full.model = Some(b"DataTraveler\n".to_vec());
    full.removable = Some(b"1\n".to_vec());
    full.size = Some(b"62333952\n".to_vec());
    let entries = vec![
        full,
        entry("sda1", false, true),
        entry("loop0", true, false),
        entry("mmcblk0", true, true),
    ];
    let devices = list_devices(&entries);
    assert_eq!(devices.len(), 2);
    assert_eq!(devices[0].device_name, "/dev/sda");
    assert_eq!(devices[0].vendor_name, "Kingston");
    assert_eq!(devices[0].model_name, "DataTraveler");
    assert_eq!(devices[0].removable, 1);
    assert_eq!(devices[0].size, 62333952);
    assert_eq!(devices[1].device_name, "/dev/mmcblk0");
    assert_eq!(devices[1].vendor_name, "");
    assert_eq!(devices[1].model_name, "");
    assert_eq!(devices[1].removable, 0);
    assert_eq!(devices[1].size, 0);
}

#[test]
fn partitions_and_missing_nodes_are_excluded() {
    assert!(describe_entry(&entry("sda1", false, true)).is_none());
    assert!(describe_entry(&entry("dm-0", true, false)).is_none());
    assert!(describe_entry(&entry("sdb", true, true)).is_some());
}

#[test]
fn unreadable_attributes_degrade_without_failing() {
    let d = describe_entry(&entry("sdc", true, true)).unwrap();
    assert_eq!(d.device_name, "/dev/sdc");
    assert_eq!(d.vendor_name, "");
    assert_eq!(d.model_name, "");
    assert_eq!(d.removable, 0);
    assert_eq!(d.size, 0);
}

#[test]
fn unreadable_registry_fails_the_whole_call() {
    let r = devices_from_registry(Err(()));
    assert_eq!(r.unwrap_err(), EnumerationError::RegistryUnreadable);
    let ok = devices_from_registry(Ok(vec![entry("sda", true, true)]));
    assert_eq!(ok.unwrap().len(), 1);
}

#[test]
fn size_parsing_with_degradation() {
    assert_eq!(parse_device_size(b"62333952\n"), 62333952);
    assert_eq!(parse_device_size(b"  123 \n"), 123);
    assert_eq!(parse_device_size(b""), 0);
    assert_eq!(parse_device_size(b"   \n"), 0);
    assert_eq!(parse_device_size(b"12a3"), 0);
    assert_eq!(parse_device_size(b"18446744073709551615"), u64::MAX);
    assert_eq!(parse_device_size(b"18446744073709551616"), 0);
    assert_eq!(parse_device_size(b"99999999999999999999999999"), 0);
}

#[test]
fn removable_flag_parsing() {
    assert_eq!(parse_removable_flag(b"1\n"), 1);
    assert_eq!(parse_removable_flag(b"0\n"), 0);
    assert_eq!(parse_removable_flag(b" 1 "), 1);
    assert_eq!(parse_removable_flag(b"yes"), 0);
    assert_eq!(parse_removable_flag(b""), 0);
}

#[test]
fn attribute_cleaning() {
    assert_eq!(trim_bytes(b"  ab \n"), b"ab");
    assert_eq!(trim_bytes(b"\n\t \r"), b"");
    assert_eq!(clean_attribute(b"ACME\nCorp\n"), b"ACMECorp");
    assert_eq!(clean_attribute(b"plain"), b"plain");
}

#[test]
fn vendor_keeps_inner_spaces_like_the_attribute_file() {
    let mut e = entry("sdd", true, true);
    e.vendor = Some(b"Generic Flash \n".to_vec());
    let d = describe_entry(&e).unwrap();
    assert_eq!(d.vendor_name, "Generic Flash ");
}
