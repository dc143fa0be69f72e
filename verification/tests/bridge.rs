use next_tablet_driver::bridge::{
    config_version_changed, device_name_for_publish, device_name_from_published,
    mode_from_published, published_mode, DEVICE_NAME_CAPACITY,
};
use next_tablet_driver::protocol::DriverMode;

#[test]
fn device_name_round_trips() {
    for name in ["Wacom CTL-472", "Gaomon S620 ✓", "x"] {
        let (buf, len) = device_name_for_publish(name);
        assert_eq!(len as usize, name.len());
        assert_eq!(device_name_from_published(&buf, len), name);
    }
}

#[test]
fn long_names_are_truncated_to_capacity() {
    let name = "A".repeat(100);
    let (buf, len) = device_name_for_publish(&name);
    assert_eq!(len as usize, DEVICE_NAME_CAPACITY);
    assert!(buf.iter().all(|b| *b == b'A'));
    assert_eq!(device_name_from_published(&buf, len), "A".repeat(64));
    // a length beyond capacity is capped
    assert_eq!(device_name_from_published(&buf, 1000), "A".repeat(64));
}

#[test]
fn unusable_names_read_as_no_tablet() {
    let (buf, _) = device_name_for_publish("");
    assert_eq!(device_name_from_published(&buf, 0), "No Tablet Detected");
    let mut bad = [0u8; 64];
    bad[0] = 0xff;
    bad[1] = b'a';
    assert_eq!(device_name_from_published(&bad, 2), "No Tablet Detected");
    // a multi-byte character cut in half by truncation is invalid UTF-8
    let name = format!("{}é", "a".repeat(63));
    let (buf, len) = device_name_for_publish(&name);
    assert_eq!(len, 64);
    assert_eq!(buf[63], "é".as_bytes()[0]);
    assert_eq!(device_name_from_published(&buf, len), "No Tablet Detected");
    // a prefix of a valid name is valid
    assert_eq!(device_name_from_published(&buf, 3), "aaa");
}

#[test]
fn published_mode_round_trips() {
    for m in [DriverMode::Absolute, DriverMode::Relative] {
        assert_eq!(mode_from_published(published_mode(m)), m);
    }
    assert_eq!(published_mode(DriverMode::Relative), 1);
    assert_eq!(mode_from_published(7), DriverMode::Absolute);
}

#[test]
fn config_version_is_applied_once() {
    let mut last = None;
    assert!(config_version_changed(&mut last, 3));
    assert_eq!(last, Some(3));
    assert!(!config_version_changed(&mut last, 3));
    assert!(config_version_changed(&mut last, 4));
    assert!(config_version_changed(&mut last, 3));
}
