use media_provision::drives::linux::{
    capacity_in_bytes, decode_label, drive_from_entry, find_label, find_linux_mount_info,
    find_mount_point, is_synthetic_device, removable_drives, removable_flag_set,
    source_names_device, BlockDevice, LabelLink, Registry,
};

const MOUNTS: &str = "sysfs /sys sysfs rw,nosuid 0 0\n\
/dev/sda1 / ext4 rw,relatime 0 0\n\
/dev/sdb1 /media/user/STICK vfat rw,nosuid 0 0\n\
/dev/sdb2 /media/user/OTHER vfat rw,nosuid 0 0\n\
/dev/mmcblk0p1 /media/user/CARD vfat rw 0 0\n";

fn device(name: &str, removable: Option<&str>, size: Option<&str>) -> BlockDevice {
    BlockDevice {
        name: name.to_string(),
        removable: removable.map(|s| s.to_string()),
        size: size.map(|s| s.to_string()),
    }
}

fn link(name: &str, target: &str) -> LabelLink {
    LabelLink { name: name.to_string(), target: target.to_string() }
}

fn links() -> Vec<LabelLink> {
    vec![
        link("ROOT", "../../sda1"),
        link("MY\\x20DISK", "../../sdb1"),
        link("CARD", "../../mmcblk0p1"),
    ]
}

#[test]
fn synthetic_devices_are_told_by_their_names() {
    for name in ["loop0", "loop", "ram1", "zram0", "dm-0", "ramdisk"] {
        assert!(is_synthetic_device(name), "{}", name);
    }
    for name in ["sda", "sdb", "mmcblk0", "nvme0n1", "sr0", "dm", "xloop0", "", "Loop0"] {
        assert!(!is_synthetic_device(name), "{}", name);
    }
}

#[test]
fn the_flag_is_exactly_one() {
    for content in ["1", "1\n", " 1 ", "\t1\r\n"] {
        assert!(removable_flag_set(content), "{:?}", content);
    }
    for content in ["0", "0\n", "", "11", "01", "+1", "1 1", "yes", "\n"] {
        assert!(!removable_flag_set(content), "{:?}", content);
    }
}

#[test]
fn capacity_is_sectors_times_512() {
    assert_eq!(capacity_in_bytes("62333952\n"), 31_914_983_424);
    assert_eq!(capacity_in_bytes("1"), 512);
    assert_eq!(capacity_in_bytes(" 2097152 "), 1_073_741_824);
    assert_eq!(capacity_in_bytes("36028797018963967"), 18_446_744_073_709_551_104);
}

#[test]
fn capacity_is_zero_where_it_is_not_known() {
    assert_eq!(capacity_in_bytes("0\n"), 0);
    assert_eq!(capacity_in_bytes(""), 0);
    assert_eq!(capacity_in_bytes("many"), 0);
    assert_eq!(capacity_in_bytes("-5"), 0);
    assert_eq!(capacity_in_bytes("12 34"), 0);
    // more sectors than 64 bits hold bytes of
    assert_eq!(capacity_in_bytes("36028797018963968"), 0);
    assert_eq!(capacity_in_bytes("18446744073709551615"), 0);
    assert_eq!(capacity_in_bytes("18446744073709551616"), 0);
}

#[test]
fn mount_point_of_the_first_partition_listed() {
    assert_eq!(find_mount_point(MOUNTS, "/dev/sdb"), Some("/media/user/STICK".to_string()));
    assert_eq!(find_mount_point(MOUNTS, "/dev/sda"), Some("/".to_string()));
    assert_eq!(find_mount_point(MOUNTS, "/dev/mmcblk0"), Some("/media/user/CARD".to_string()));
    assert_eq!(find_mount_point(MOUNTS, "/dev/sdc"), None);
    assert_eq!(find_mount_point("", "/dev/sdb"), None);
}

#[test]
fn mount_point_of_the_device_itself() {
    assert_eq!(find_mount_point("/dev/sdb /mnt/whole ext4 rw 0 0\n", "/dev/sdb"), Some("/mnt/whole".to_string()));
}

#[test]
fn mount_point_of_any_partition_number() {
    for source in ["/dev/sdb1", "/dev/sdb2", "/dev/sdb10", "/dev/sdb007", "/dev/sdbp1", "/dev/sdbp12"] {
        let table = format!("{} /mnt/part vfat rw 0 0\n", source);
        assert_eq!(find_mount_point(&table, "/dev/sdb"), Some("/mnt/part".to_string()), "{}", source);
    }
}

#[test]
fn a_source_that_only_begins_like_the_device_is_another_device() {
    assert_eq!(find_mount_point("/dev/sdaa1 /mnt/x ext4 rw 0 0", "/dev/sda"), None);
    for source in [
        "/dev/sdaa", "/dev/sdaa1", "/dev/sdbc", "/dev/sdb1x", "/dev/sdbp", "/dev/sdbpp1", "/dev/sdbp1a",
        "/dev/sdb-1", "/dev/sdb+1", "/dev/sdb\u{661}", "/dev/sdbP1", "/dev/sd", "dev/sdb1",
    ] {
        let table = format!("{} /mnt/other vfat rw 0 0\n", source);
        assert_eq!(find_mount_point(&table, "/dev/sdb"), None, "{:?}", source);
    }
}

#[test]
fn the_first_line_that_names_the_device_wins() {
    let table = "/dev/sdbb1 /other x\n/dev/sdb3 /third x\n/dev/sdb1 /first x\n";
    assert_eq!(find_mount_point(table, "/dev/sdb"), Some("/third".to_string()));
}

#[test]
fn mount_lines_with_one_field_are_passed_over() {
    let table = "/dev/sdb1\n\n   \n/dev/sdb1 /mnt\n";
    assert_eq!(find_mount_point(table, "/dev/sdb"), Some("/mnt".to_string()));
    assert_eq!(find_mount_point("/dev/sdb1", "/dev/sdb"), None);
}

#[test]
fn sources_told_one_by_one() {
    let path: Vec<char> = "/dev/mmcblk0".chars().collect();
    let names = |source: &str| {
        let source: Vec<char> = source.chars().collect();
        source_names_device(&source, &path)
    };
    assert!(names("/dev/mmcblk0"));
    assert!(names("/dev/mmcblk0p1"));
    assert!(names("/dev/mmcblk0p25"));
    assert!(names("/dev/mmcblk01"));
    assert!(!names("/dev/mmcblk0p"));
    assert!(!names("/dev/mmcblk0boot0"));
    assert!(!names("/dev/mmcblk1p1"));
    assert!(!names("/dev/mmcblk"));
    assert!(!names(""));
}

#[test]
fn label_decoding() {
    assert_eq!(decode_label("MY\\x20DISK"), "MY DISK");
    assert_eq!(decode_label("A\\x20B\\x20C"), "A B C");
    assert_eq!(decode_label("PLAIN"), "PLAIN");
    assert_eq!(decode_label(""), "");
    assert_eq!(decode_label("\\x2"), "\\x2");
    assert_eq!(decode_label("\\x20\\x20"), "  ");
    assert_eq!(decode_label("X\\x2\\x200"), "X\\x2 0");
}

#[test]
fn decoded_labels_hold_no_escaped_space() {
    for name in ["MY\\x20DISK", "\\x\\x2020", "\\\\x20x20", "\\x20", "a\\x2\\x200b"] {
        assert!(!decode_label(name).contains("\\x20"), "{}", name);
    }
}

#[test]
fn label_of_the_first_symlink_that_holds_the_name() {
    assert_eq!(find_label(&links(), "sdb"), "MY DISK");
    assert_eq!(find_label(&links(), "sda"), "ROOT");
    assert_eq!(find_label(&links(), "mmcblk0"), "CARD");
    assert_eq!(find_label(&links(), "sdc"), "");
    assert_eq!(find_label(&Vec::new(), "sdb"), "");
}

#[test]
fn a_name_that_begins_another_answers_to_its_symlink() {
    let both = vec![link("TEN", "../../sdb10"), link("ONE", "../../sdb1")];
    assert_eq!(find_label(&both, "sdb"), "TEN");
    let other = vec![link("WIDE", "../../sdbc1")];
    assert_eq!(find_label(&other, "sdb"), "WIDE");
}

#[test]
fn mount_point_and_label_together() {
    let (mount, label) = find_linux_mount_info(&Some(MOUNTS.to_string()), &links(), "/dev/sdb", "sdb");
    assert_eq!(mount, Some("/media/user/STICK".to_string()));
    assert_eq!(label, "MY DISK");
    let other = Some("/dev/sdaa1 /mnt/x ext4 rw 0 0".to_string());
    let (mount, label) = find_linux_mount_info(&other, &Vec::new(), "/dev/sda", "sda");
    assert_eq!(mount, None);
    assert_eq!(label, "");
    let (mount, label) = find_linux_mount_info(&None, &links(), "/dev/sdb", "sdb");
    assert_eq!(mount, None);
    assert_eq!(label, "MY DISK");
}

#[test]
fn one_entry_gives_one_descriptor() {
    let d = drive_from_entry(
        &device("sdb", Some("1\n"), Some("62333952\n")),
        &Some(MOUNTS.to_string()),
        &links(),
    )
    .unwrap();
    assert_eq!(d.name, "sdb");
    assert_eq!(d.device_path, "/dev/sdb");
    assert_eq!(d.mount_path, Some("/media/user/STICK".to_string()));
    assert_eq!(d.label, "MY DISK");
    assert_eq!(d.size_bytes, 31_914_983_424);
    assert_eq!(d.display_name(), "sdb - MY DISK (29.7 GB)");
}

#[test]
fn entries_that_give_no_descriptor() {
    let mounts = Some(MOUNTS.to_string());
    let none = [
        device("loop0", Some("1"), Some("100")),
        device("zram0", Some("1"), Some("100")),
        device("sda", Some("0\n"), Some("100")),
        device("sdb", None, Some("100")),
        device("sdb", Some("1"), Some("0\n")),
        device("sdb", Some("1"), None),
        device("sdb", Some("1"), Some("garbage")),
        device("sdb", Some("yes"), Some("100")),
    ];
    for entry in none.iter() {
        assert!(drive_from_entry(entry, &mounts, &links()).is_none(), "{:?}", entry);
    }
}

#[test]
fn registry_discovery_keeps_order_and_drops_the_rest() {
    let registry = Registry {
        devices: vec![
            device("loop0", Some("0"), Some("8")),
            device("sda", Some("0\n"), Some("1000215216\n")),
            device("sdc", Some("1\n"), Some("0\n")),
            device("sdb", Some("1\n"), Some("62333952\n")),
            device("dm-0", Some("1\n"), Some("62333952\n")),
            device("mmcblk0", Some("1\n"), Some("15523840\n")),
        ],
        mounts: Some(MOUNTS.to_string()),
        labels: links(),
    };
    let drives = removable_drives(&registry);
    assert_eq!(drives.len(), 2);
    assert_eq!(drives[0].name, "sdb");
    assert_eq!(drives[1].name, "mmcblk0");
    assert_eq!(drives[1].device_path, "/dev/mmcblk0");
    assert_eq!(drives[1].mount_path, Some("/media/user/CARD".to_string()));
    assert_eq!(drives[1].label, "CARD");
    assert_eq!(drives[1].size_bytes, 7_948_206_080);
    for d in drives.iter() {
        assert!(d.size_bytes > 0);
    }
}

#[test]
fn discovery_without_mount_table_or_labels() {
    let registry = Registry {
        devices: vec![device("sdb", Some("1"), Some("2097152"))],
        mounts: None,
        labels: Vec::new(),
    };
    let drives = removable_drives(&registry);
    assert_eq!(drives.len(), 1);
    assert_eq!(drives[0].mount_path, None);
    assert_eq!(drives[0].label, "");
    assert_eq!(drives[0].display_name(), "sdb (1.0 GB)");
}

#[test]
fn registry_with_nothing_removable_gives_nothing() {
    let registry = Registry {
        devices: vec![device("sda", Some("0"), Some("100")), device("nvme0n1", None, Some("100"))],
        mounts: Some(MOUNTS.to_string()),
        labels: links(),
    };
    assert!(removable_drives(&registry).is_empty());
    let empty = Registry { devices: Vec::new(), mounts: None, labels: Vec::new() };
    assert!(removable_drives(&empty).is_empty());
}
