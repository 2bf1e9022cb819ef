//! The descriptor of a removable drive, its one-line summary, and discovery
//! from what a platform's backend read.

use vstd::prelude::*;
use crate::text::number::{decimal, push_decimal};
use crate::text::{chars_of, push_text, string_of};

pub mod linux;
pub mod macos;
pub mod windows;

verus! {

/// One removable volume, as a discovery backend found it.
#[derive(Debug, Clone)]
pub struct DriveInfo {
    /// Short identifier, as the platform names the drive ("E:", "sdb", "disk2").
    pub name: String,
    /// Path by which the raw device is addressed ("E:", "/dev/sdb", "/dev/disk2").
    pub device_path: String,
    /// Where the volume is mounted; `None` while it is not.
    pub mount_path: Option<String>,
    /// Volume label; empty where none was found.
    pub label: String,
    /// Total capacity in bytes; above zero in every entry that discovery returns.
    pub size_bytes: u64,
}

/// What a [`DriveInfo`] holds.
pub struct DriveView {
    pub name: Seq<char>,
    pub device_path: Seq<char>,
    pub mount_path: Option<Seq<char>>,
    pub label: Seq<char>,
    pub size_bytes: u64,
}

impl View for DriveInfo {
    type V = DriveView;

    open spec fn view(&self) -> DriveView {
        DriveView {
            name: self.name@,
            device_path: self.device_path@,
            mount_path: optional_text(self.mount_path),
            label: self.label@,
            size_bytes: self.size_bytes,
        }
    }
}

/// What an optional text holds.
pub open spec fn optional_text(o: Option<String>) -> Option<Seq<char>> {
    match o {
        Some(s) => Some(s@),
        None => None,
    }
}

/// What each descriptor of a list holds.
pub open spec fn drive_views(v: Seq<DriveInfo>) -> Seq<DriveView> {
    Seq::new(v.len(), |i: int| v[i]@)
}

/// Every descriptor of the list has a capacity above zero.
pub open spec fn all_have_media(v: Seq<DriveView>) -> bool {
    forall|i: int| 0 <= i < v.len() ==> (#[trigger] v[i]).size_bytes > 0
}

/// The number of bytes in the unit that capacities are shown in, 2 to the 30th.
pub const BYTES_PER_GB: u64 = 0x4000_0000;

/// The least number that takes more than 53 binary digits to write.
pub const FIRST_WIDE: u64 = 0x20_0000_0000_0000;

/// `n` divided by `unit` and rounded to the nearest whole number, to the even
/// one where two are equally near.
pub open spec fn round_half_even(n: nat, unit: nat) -> nat {
    let q = n / unit;
    let r = n % unit;
    if 2 * r > unit || (2 * r == unit && q % 2 == 1) {
        q + 1
    } else {
        q
    }
}

/// The distance between neighbouring numbers that 53 binary digits can write,
/// around `n`.
pub open spec fn spacing(n: nat) -> nat
    decreases n,
{
    if n < FIRST_WIDE {
        1
    } else {
        2 * spacing(n / 2)
    }
}

/// `n` as 53 significant binary digits hold it: the nearest multiple of
/// [`spacing`], the even multiple where two are equally near. Capacities are
/// shown from this value.
pub open spec fn binary53(n: nat) -> nat {
    round_half_even(n, spacing(n)) * spacing(n)
}

/// The capacity of `size` bytes in tenths of the display unit, to the nearest
/// tenth, and to the even tenth where two are equally near.
pub open spec fn capacity_tenths(size: u64) -> nat {
    round_half_even(binary53(size as nat) * 10, BYTES_PER_GB as nat)
}

/// The capacity of `size` bytes as it is shown: whole units, a point, one
/// decimal.
pub open spec fn capacity_text(size: u64) -> Seq<char> {
    let t = capacity_tenths(size);
    decimal(t / 10) + seq!['.'] + decimal(t % 10)
}

/// The one-line summary of a drive: its name, its label where it has one, and
/// its capacity.
pub open spec fn summary(d: DriveView) -> Seq<char> {
    if d.label.len() == 0 {
        d.name + " ("@ + capacity_text(d.size_bytes) + " GB)"@
    } else {
        d.name + " - "@ + d.label + " ("@ + capacity_text(d.size_bytes) + " GB)"@
    }
}

proof fn lemma_spacing_step(unit: nat, m: nat)
    requires
        m >= FIRST_WIDE,
    ensures
        unit * spacing(m) == (2 * unit) * spacing(m / 2),
        (m / 2) * (2 * unit) <= m * unit,
{
    assert(spacing(m) == 2 * spacing(m / 2));
    assert(unit * (2 * spacing(m / 2)) == (2 * unit) * spacing(m / 2)) by (nonlinear_arith);
    assert((m / 2) * (2 * unit) <= m * unit) by (nonlinear_arith);
}

/// Computes [`binary53`].
fn round_to_53_bits(n: u64) -> (r: u128)
    ensures
        r == binary53(n as nat),
        r <= 0x1_0000_0000_0000_1000,
{
    let mut unit: u64 = 1;
    let mut m: u64 = n;
    assert(1 * spacing(n as nat) == spacing(n as nat));
    while m >= FIRST_WIDE
        invariant
            unit >= 1,
            spacing(n as nat) == unit * spacing(m as nat),
            m * unit <= n,
            unit == 1 || m >= 0x10_0000_0000_0000,
        decreases m,
    {
        proof {
            lemma_spacing_step(unit as nat, m as nat);
            assert(unit < 0x800) by (nonlinear_arith)
                requires
                    m * unit <= n,
                    m >= 0x20_0000_0000_0000,
                    n <= 0xffff_ffff_ffff_ffff,
            ;
        }
        m = m / 2;
        unit = unit * 2;
    }
    assert(spacing(n as nat) == unit) by (nonlinear_arith)
        requires
            spacing(n as nat) == unit * spacing(m as nat),
            spacing(m as nat) == 1,
    ;
    assert(unit <= 0x1000) by (nonlinear_arith)
        requires
            m * unit <= n,
            unit == 1 || m >= 0x10_0000_0000_0000,
            n <= 0xffff_ffff_ffff_ffff,
    ;
    let q: u64 = n / unit;
    let r: u64 = n % unit;
    let up: bool = r > unit - r || (r == unit - r && q % 2 == 1);
    let steps: u128 = if up {
        q as u128 + 1
    } else {
        q as u128
    };
    assert(steps * unit <= n + unit && steps * unit <= 0x1_0000_0000_0000_1000) by (nonlinear_arith)
        requires
            steps <= q + 1,
            q == n / unit,
            unit >= 1,
            unit <= 0x1000,
            n <= 0xffff_ffff_ffff_ffff,
    ;
    steps * (unit as u128)
}

/// Computes [`capacity_tenths`].
pub fn tenths_of_gb(size: u64) -> (t: u64)
    ensures
        t == capacity_tenths(size),
{
    let held: u128 = round_to_53_bits(size);
    let n: u128 = held * 10;
    let q: u128 = n / (BYTES_PER_GB as u128);
    let r: u128 = n % (BYTES_PER_GB as u128);
    let half: u128 = 0x2000_0000;
    let t: u128 = if r > half || (r == half && q % 2 == 1) {
        q + 1
    } else {
        q
    };
    assert(n <= 0xa_0000_0000_0000_a000);
    assert(q == (n as nat) / 0x4000_0000 && r == (n as nat) % 0x4000_0000);
    assert(t <= 0x100_0000_0000);
    assert(t == round_half_even(n as nat, 0x4000_0000));
    t as u64
}

impl DriveInfo {
    /// The one-line summary of the drive, for a list that a person chooses from.
    pub fn display_name(&self) -> (r: String)
        ensures
            r@ == summary(self@),
    {
        let t: u64 = tenths_of_gb(self.size_bytes);
        let mut out: Vec<char> = chars_of(self.name.as_str());
        if !self.label.as_str().is_empty() {
            push_text(&mut out, " - ");
            push_text(&mut out, self.label.as_str());
        }
        push_text(&mut out, " (");
        push_decimal(&mut out, t / 10);
        out.push('.');
        push_decimal(&mut out, t % 10);
        push_text(&mut out, " GB)");
        proof {
            let cap = capacity_text(self.size_bytes);
            assert(cap == decimal((t / 10) as nat).push('.') + decimal((t % 10) as nat));
            if self.label@.len() == 0 {
                assert(out@ == self.name@ + " ("@ + cap + " GB)"@);
            } else {
                assert(out@ == self.name@ + " - "@ + self.label@ + " ("@ + cap + " GB)"@);
            }
        }
        string_of(out.as_slice())
    }
}

/// What a discovery backend read of its platform, ready to be turned into
/// descriptors.
#[derive(Debug, Clone)]
pub enum Snapshot {
    /// A block-device registry with mount table and label symlinks.
    Registry(linux::Registry),
    /// The disks that a disk-management utility listed, each with its
    /// description.
    Disks(Vec<macos::DiskReport>),
    /// The logical volumes of a volume interface, one for each slot that was
    /// read, in the rising order in which [`windows::logical_slots`] gives the
    /// slots of the bitmask.
    Volumes(Vec<windows::Volume>),
    /// A platform that discovery knows no data source of.
    Unsupported,
}

/// The descriptors that a snapshot gives, in the order in which the platform
/// listed its devices.
pub open spec fn drives_of(snapshot: Snapshot) -> Seq<DriveView> {
    match snapshot {
        Snapshot::Registry(registry) => linux::drives_of(
            linux::device_views(registry.devices@),
            optional_text(registry.mounts),
            linux::link_views(registry.labels@),
        ),
        Snapshot::Disks(reports) => macos::drives_of(reports@),
        Snapshot::Volumes(volumes) => windows::drives_of(volumes@),
        Snapshot::Unsupported => Seq::empty(),
    }
}

/// A snapshot that shows a removable device: an entry flagged removable, a disk
/// described as removable, a volume of the removable type.
pub open spec fn shows_removable(snapshot: Snapshot) -> bool {
    match snapshot {
        Snapshot::Registry(registry) => exists|i: int|
            0 <= i < registry.devices.len() && linux::is_flagged(
                #[trigger] linux::device_views(registry.devices@)[i],
            ),
        Snapshot::Disks(reports) => exists|i: int|
            0 <= i < reports.len() && macos::is_removable_disk(#[trigger] reports[i]),
        Snapshot::Volumes(volumes) => exists|i: int|
            0 <= i < volumes.len() && windows::is_removable_type((#[trigger] volumes[i]).drive_type),
        Snapshot::Unsupported => false,
    }
}

/// On every backend, no descriptor that discovery gives has a capacity of zero.
pub proof fn lemma_no_drive_without_media(snapshot: Snapshot)
    ensures
        all_have_media(drives_of(snapshot)),
{
    match snapshot {
        Snapshot::Registry(registry) => {
            linux::lemma_drives_have_media(
                linux::device_views(registry.devices@),
                optional_text(registry.mounts),
                linux::link_views(registry.labels@),
            );
        },
        Snapshot::Disks(reports) => {
            macos::lemma_drives_have_media(reports@);
        },
        Snapshot::Volumes(volumes) => {
            windows::lemma_drives_have_media(volumes@);
        },
        Snapshot::Unsupported => {},
    }
}

/// On every backend, discovery gives no descriptor where no removable device
/// shows.
pub proof fn lemma_nothing_removable_nothing_found(snapshot: Snapshot)
    requires
        !shows_removable(snapshot),
    ensures
        drives_of(snapshot) == Seq::<DriveView>::empty(),
{
    match snapshot {
        Snapshot::Registry(registry) => {
            linux::lemma_nothing_removable(
                linux::device_views(registry.devices@),
                optional_text(registry.mounts),
                linux::link_views(registry.labels@),
            );
        },
        Snapshot::Disks(reports) => {
            macos::lemma_nothing_removable(reports@);
        },
        Snapshot::Volumes(volumes) => {
            windows::lemma_nothing_removable(volumes@);
        },
        Snapshot::Unsupported => {},
    }
}

/// Where the logical volumes of a snapshot were read as a bitmask of slots
/// tells, its descriptors follow the bitmask: each is that of a letter from A to
/// Z whose slot the mask marks and whose volume is of the removable type; the
/// letters rise, so that no two descriptors have one name and there are 26 at
/// most; and no volume of another type is among them.
pub proof fn lemma_volumes_follow_mask(volumes: Vec<windows::Volume>, mask: u32)
    requires
        windows::read_by_mask(volumes@, mask),
    ensures
        ({
            let drives = drives_of(Snapshot::Volumes(volumes));
            let slots = windows::drive_slots(volumes@);
            &&& windows::follows_mask(drives, slots, mask)
            &&& forall|k: int|
                0 <= k < drives.len() ==> exists|i: int|
                    0 <= i < volumes.len() && (#[trigger] volumes[i]).slot == slots[k]
                        && windows::is_removable_type(volumes[i].drive_type)
                        && volumes[i].total_bytes == (#[trigger] drives[k]).size_bytes
            &&& forall|k: int, l: int|
                0 <= k < l < drives.len() ==> (#[trigger] drives[k]).name != (#[trigger] drives[l]).name
            &&& forall|i: int, k: int|
                0 <= i < volumes.len() && 0 <= k < drives.len() && !windows::is_removable_type(
                    (#[trigger] volumes[i]).drive_type,
                ) ==> (#[trigger] drives[k]).name != windows::volume_name(volumes[i].slot)
        }),
{
    windows::lemma_drives_follow_mask(volumes@, mask);
}

/// The removable drives that hold media, from what a backend read. Total on
/// every snapshot: what cannot be made sense of gives no descriptor, or an empty
/// label, or an absent mount point, never a failure. Logical volumes that were
/// read as a bitmask tells give drives that follow that bitmask.
pub fn get_removable_drives(snapshot: &Snapshot) -> (r: Vec<DriveInfo>)
    ensures
        drive_views(r@) == drives_of(*snapshot),
        all_have_media(drive_views(r@)),
        !shows_removable(*snapshot) ==> r.len() == 0,
        snapshot matches Snapshot::Volumes(volumes) ==> forall|mask: u32| #[trigger]
            windows::read_by_mask(volumes@, mask) ==> windows::follows_mask(
                drive_views(r@),
                windows::drive_slots(volumes@),
                mask,
            ),
{
    proof {
        if !shows_removable(*snapshot) {
            lemma_nothing_removable_nothing_found(*snapshot);
        }
    }
    let found = match snapshot {
        Snapshot::Registry(registry) => linux::removable_drives(registry),
        Snapshot::Disks(reports) => macos::removable_drives(reports),
        Snapshot::Volumes(volumes) => windows::removable_drives(volumes),
        Snapshot::Unsupported => Vec::new(),
    };
    assert(drive_views(found@).len() == found.len());
    found
}

} // verus!
