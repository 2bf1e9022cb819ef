use media_provision::drives::windows::{
    describe, drive_from_volume, holds_removable_media, label_length, logical_slots, name_of_slot,
    removable_drives, root_of_slot, volume_label, Volume, DRIVE_REMOVABLE, SLOT_COUNT,
};

fn buffer(label: &str) -> Vec<u16> {
    let mut units: Vec<u16> = label.encode_utf16().collect();
    units.resize(261, 0);
    units
}

fn volume(slot: u8, drive_type: u32, label: Option<&str>, total_bytes: u64) -> Volume {
    Volume { slot, drive_type, label: label.map(buffer), total_bytes }
}

#[test]
fn slots_of_a_bitmask() {
    assert_eq!(logical_slots(0), Vec::<u8>::new());
    assert_eq!(logical_slots(0b1), vec![0]);
    assert_eq!(logical_slots(0b1_1100), vec![2, 3, 4]);
    assert_eq!(logical_slots(1 << 25), vec![25]);
    assert_eq!(logical_slots(1 << 26), Vec::<u8>::new());
    assert_eq!(logical_slots(0xFC00_0000), Vec::<u8>::new());
    assert_eq!(logical_slots(u32::MAX), (0u8..26).collect::<Vec<u8>>());
    assert_eq!(SLOT_COUNT, 26);
}

#[test]
fn names_and_roots_of_slots() {
    assert_eq!(name_of_slot(0), "A:");
    assert_eq!(name_of_slot(4), "E:");
    assert_eq!(name_of_slot(25), "Z:");
    assert_eq!(root_of_slot(0), "A:\\");
    assert_eq!(root_of_slot(4), "E:\\");
    assert_eq!(root_of_slot(25), "Z:\\");
}

#[test]
fn only_type_two_is_removable() {
    assert_eq!(DRIVE_REMOVABLE, 2);
    assert!(holds_removable_media(2));
    for t in [0u32, 1, 3, 4, 5, 6, u32::MAX] {
        assert!(!holds_removable_media(t));
    }
}

#[test]
fn label_ends_at_the_first_zero() {
    assert_eq!(label_length(&[]), 0);
    assert_eq!(label_length(&[0, 65]), 0);
    assert_eq!(label_length(&[65, 66, 0, 67, 0]), 2);
    assert_eq!(label_length(&[65, 66, 67]), 3);
    assert_eq!(volume_label(&buffer("DATA")), "DATA");
    assert_eq!(volume_label(&buffer("")), "");
    assert_eq!(volume_label(&[65, 66, 0, 67, 0]), "AB");
    assert_eq!(volume_label(&[0x4D, 0xDC00, 0x59]), "M\u{fffd}Y");
    assert_eq!(volume_label(&[0xD83D, 0xDE00, 0]), "\u{1F600}");
    assert_eq!(volume_label(&buffer("St\u{e9}phane \u{65e5}\u{672c}")), "St\u{e9}phane \u{65e5}\u{672c}");
}

#[test]
fn descriptor_of_a_volume() {
    let d = drive_from_volume(&volume(4, 2, Some("DATA"), 1_073_741_824)).unwrap();
    assert_eq!(d.name, "E:");
    assert_eq!(d.device_path, "E:");
    assert_eq!(d.mount_path, Some("E:\\".to_string()));
    assert_eq!(d.label, "DATA");
    assert_eq!(d.size_bytes, 1_073_741_824);
    assert_eq!(d.display_name(), "E: - DATA (1.0 GB)");
}

#[test]
fn a_failed_label_query_gives_an_empty_label() {
    let d = drive_from_volume(&volume(4, 2, None, 1_073_741_824)).unwrap();
    assert_eq!(d.label, "");
    assert_eq!(d.display_name(), "E: (1.0 GB)");
}

#[test]
fn volumes_that_give_no_descriptor() {
    assert!(drive_from_volume(&volume(2, 3, Some("SYSTEM"), 500_000_000_000)).is_none());
    assert!(drive_from_volume(&volume(3, 5, Some("CD"), 700_000_000)).is_none());
    assert!(drive_from_volume(&volume(0, 2, None, 0)).is_none());
    assert!(drive_from_volume(&volume(26, 2, Some("X"), 100)).is_none());
    assert!(drive_from_volume(&volume(255, 2, Some("X"), 100)).is_none());
}

#[test]
fn volume_discovery_keeps_order_and_drops_the_rest() {
    let volumes = vec![
        volume(0, 2, None, 0),
        volume(2, 3, Some("SYSTEM"), 500_000_000_000),
        volume(4, 2, Some("DATA"), 31_914_983_424),
        volume(5, 2, None, 7_948_206_080),
    ];
    let drives = removable_drives(&volumes);
    assert_eq!(drives.len(), 2);
    assert_eq!(drives[0].name, "E:");
    assert_eq!(drives[1].name, "F:");
    assert_eq!(drives[1].label, "");
    for d in drives.iter() {
        assert!(d.size_bytes > 0);
    }
}

#[test]
fn volumes_with_nothing_removable_give_nothing() {
    assert!(removable_drives(&Vec::new()).is_empty());
    let volumes = vec![volume(2, 3, Some("SYSTEM"), 500_000_000_000), volume(3, 5, None, 0)];
    assert!(removable_drives(&volumes).is_empty());
}

#[test]
fn descriptor_from_a_label_already_read() {
    let d = describe(25, 2, "BACKUP".to_string(), 512).unwrap();
    assert_eq!(d.name, "Z:");
    assert_eq!(d.device_path, "Z:");
    assert_eq!(d.mount_path, Some("Z:\\".to_string()));
    assert_eq!(d.label, "BACKUP");
    assert_eq!(d.size_bytes, 512);
    assert!(describe(25, 3, "BACKUP".to_string(), 512).is_none());
    assert!(describe(25, 2, "BACKUP".to_string(), 0).is_none());
    assert!(describe(26, 2, "BACKUP".to_string(), 512).is_none());
}

#[test]
fn volumes_read_by_the_bitmask_give_drives_that_follow_it() {
    let mask: u32 = 0b10_0000_0000_0000_0011_1101;
    let types = [2u32, 0, 3, 2, 5, 2, 0, 0, 0, 0, 0, 0, 0, 0, 0, 0, 0, 0, 0, 0, 0, 2];
    let volumes: Vec<Volume> = logical_slots(mask)
        .into_iter()
        .map(|slot| volume(slot, types[slot as usize], None, 1 + slot as u64))
        .collect();
    let drives = removable_drives(&volumes);
    let names: Vec<&str> = drives.iter().map(|d| d.name.as_str()).collect();
    assert_eq!(names, vec!["A:", "D:", "F:", "V:"]);
    assert!(drives.len() <= 26);
    for pair in drives.windows(2) {
        assert!(pair[0].name < pair[1].name);
    }
    for d in drives.iter() {
        let slot = d.name.as_bytes()[0] - b'A';
        assert!(slot < 26);
        assert_eq!((mask >> slot) & 1, 1);
        assert_eq!(types[slot as usize], 2);
        assert_eq!(d.device_path, d.name);
        assert_eq!(d.mount_path, Some(format!("{}\\", d.name)));
    }
}

#[test]
fn every_slot_in_use_and_removable_gives_twenty_six_drives() {
    let volumes: Vec<Volume> =
        logical_slots(u32::MAX).into_iter().map(|slot| volume(slot, 2, None, 512)).collect();
    let drives = removable_drives(&volumes);
    assert_eq!(drives.len(), 26);
    assert_eq!(drives[0].name, "A:");
    assert_eq!(drives[25].name, "Z:");
}
