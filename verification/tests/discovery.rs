use media_provision::drives::linux::{BlockDevice, Registry};
use media_provision::drives::macos::DiskReport;
use media_provision::drives::windows::Volume;
use media_provision::drives::{get_removable_drives, DriveInfo, Snapshot};

fn registry(devices: Vec<(&str, &str, &str)>) -> Snapshot {
    Snapshot::Registry(Registry {
        devices: devices
            .into_iter()
            .map(|(name, removable, size)| BlockDevice {
                name: name.to_string(),
                removable: Some(removable.to_string()),
                size: Some(size.to_string()),
            })
            .collect(),
        mounts: Some("/dev/sdb1 /media/usb vfat rw 0 0\n".to_string()),
        labels: Vec::new(),
    })
}

fn disks(reports: Vec<(&str, &str)>) -> Snapshot {
    Snapshot::Disks(
        reports
            .into_iter()
            .map(|(id, info)| DiskReport {
                disk_id: id.to_string(),
                output: Some(info.as_bytes().to_vec()),
            })
            .collect(),
    )
}

fn volumes(readings: Vec<(u8, u32, u64)>) -> Snapshot {
    Snapshot::Volumes(
        readings
            .into_iter()
            .map(|(slot, drive_type, total_bytes)| Volume {
                slot,
                drive_type,
                label: None,
                total_bytes,
            })
            .collect(),
    )
}

fn names(drives: &[DriveInfo]) -> Vec<String> {
    drives.iter().map(|d| d.name.clone()).collect()
}

#[test]
fn every_backend_finds_nothing_where_nothing_is_removable() {
    let snapshots = vec![
        registry(vec![]),
        registry(vec![("sda", "0", "1000"), ("nvme0n1", "0", "1000")]),
        disks(vec![]),
        disks(vec![("disk1", "Protocol: SATA\nRemovable Media: Fixed\nDisk Size: (5 Bytes)\n")]),
        volumes(vec![]),
        volumes(vec![(2, 3, 1000), (3, 5, 1000)]),
        Snapshot::Unsupported,
    ];
    for snapshot in snapshots.iter() {
        assert!(get_removable_drives(snapshot).is_empty(), "{:?}", snapshot);
    }
}

#[test]
fn no_backend_returns_a_drive_without_media() {
    let snapshots = vec![
        registry(vec![("sdb", "1", "0"), ("sdc", "1", "8"), ("sdd", "1", "x"), ("sde", "1", "")]),
        disks(vec![
            ("disk2", "Protocol: USB\nDisk Size: (0 Bytes)\n"),
            ("disk3", "Protocol: USB\nDisk Size: (4096 Bytes)\n"),
            ("disk4", "Protocol: USB\n"),
        ]),
        volumes(vec![(0, 2, 0), (4, 2, 4096), (5, 2, 0)]),
    ];
    let expected = [vec!["sdc"], vec!["disk3"], vec!["E:"]];
    for (snapshot, expected) in snapshots.iter().zip(expected.iter()) {
        let drives = get_removable_drives(snapshot);
        assert_eq!(&names(&drives), expected);
        for d in drives.iter() {
            assert!(d.size_bytes > 0);
        }
    }
}

#[test]
fn the_unsupported_platform_has_no_drives() {
    assert!(get_removable_drives(&Snapshot::Unsupported).is_empty());
}

#[test]
fn discovery_is_a_function_of_the_snapshot() {
    let snapshot = registry(vec![("sdb", "1", "2097152")]);
    let first = get_removable_drives(&snapshot);
    let second = get_removable_drives(&snapshot);
    assert_eq!(names(&first), names(&second));
    assert_eq!(first[0].mount_path, Some("/media/usb".to_string()));
    assert_eq!(first[0].display_name(), second[0].display_name());
}
