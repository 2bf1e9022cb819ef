//! Discovery from a block-device registry in a virtual filesystem: one entry
//! per device, with a flag file and a size file each, beside the live mount
//! table and a directory of label symlinks.

use vstd::prelude::*;
use crate::drives::{all_have_media, drive_views, optional_text, DriveInfo, DriveView};
use crate::text::number::{all_digits, only_digits, parse_u64, read_u64};
use crate::text::replace::{
    lemma_replace_absent, lemma_replace_first, lemma_replace_removes, replace, replaced,
};
use crate::text::search::{begins_with, contains, find, includes, starts_with};
use crate::text::split::{fields, lines, split_fields, split_lines, texts};
use crate::text::trim::{trim, trimmed};
use crate::text::{chars_of, copy_range, push_text, same_text, string_of};

verus! {

/// The number of bytes in a sector, the unit of the size file.
pub const SECTOR_BYTES: u64 = 512;

/// What was read of one entry of the block-device registry.
#[derive(Debug, Clone)]
pub struct BlockDevice {
    /// The name of the entry.
    pub name: String,
    /// What the removability flag file holds; `None` where it could not be read.
    pub removable: Option<String>,
    /// What the size file holds; `None` where it could not be read.
    pub size: Option<String>,
}

/// What a [`BlockDevice`] holds.
pub struct BlockDeviceView {
    pub name: Seq<char>,
    pub removable: Option<Seq<char>>,
    pub size: Option<Seq<char>>,
}

impl View for BlockDevice {
    type V = BlockDeviceView;

    open spec fn view(&self) -> BlockDeviceView {
        BlockDeviceView {
            name: self.name@,
            removable: optional_text(self.removable),
            size: optional_text(self.size),
        }
    }
}

/// One symlink of the label directory.
#[derive(Debug, Clone)]
pub struct LabelLink {
    /// The name of the symlink: the label, encoded.
    pub name: String,
    /// The path that the symlink points to.
    pub target: String,
}

/// What a [`LabelLink`] holds.
pub struct LabelLinkView {
    pub name: Seq<char>,
    pub target: Seq<char>,
}

impl View for LabelLink {
    type V = LabelLinkView;

    open spec fn view(&self) -> LabelLinkView {
        LabelLinkView { name: self.name@, target: self.target@ }
    }
}

/// Everything that discovery reads, taken at one moment.
#[derive(Debug, Clone)]
pub struct Registry {
    /// The entries of the block-device registry, in the order they were listed.
    pub devices: Vec<BlockDevice>,
    /// The text of the live mount table; `None` where it could not be read.
    pub mounts: Option<String>,
    /// The symlinks of the label directory, in the order they were listed;
    /// empty where the directory could not be read.
    pub labels: Vec<LabelLink>,
}

/// What each entry of a list holds.
pub open spec fn device_views(v: Seq<BlockDevice>) -> Seq<BlockDeviceView> {
    Seq::new(v.len(), |i: int| v[i]@)
}

/// What each symlink of a list holds.
pub open spec fn link_views(v: Seq<LabelLink>) -> Seq<LabelLinkView> {
    Seq::new(v.len(), |i: int| v[i]@)
}

/// A device that stands for no disk: loopback, RAM-backed, compressed RAM,
/// device mapper.
pub open spec fn is_synthetic(name: Seq<char>) -> bool {
    ||| starts_with(name, "loop"@)
    ||| starts_with(name, "ram"@)
    ||| starts_with(name, "zram"@)
    ||| starts_with(name, "dm-"@)
}

/// The flag file marks a removable device: it holds "1" and white space only.
pub open spec fn flag_set(content: Seq<char>) -> bool {
    trim(content) == "1"@
}

/// The capacity in bytes that a size file gives: its number of sectors times the
/// size of a sector. Zero, for unknown, where the file holds no such number or
/// 64 bits do not hold the product.
pub open spec fn capacity(content: Seq<char>) -> u64 {
    match parse_u64(trim(content)) {
        Some(sectors) => if sectors * SECTOR_BYTES <= u64::MAX {
            (sectors * SECTOR_BYTES) as u64
        } else {
            0
        },
        None => 0,
    }
}

/// The path by which a device of the registry is addressed.
pub open spec fn device_path_of(name: Seq<char>) -> Seq<char> {
    "/dev/"@ + name
}

/// The number of a partition: one decimal digit or more.
pub open spec fn is_partition_number(n: Seq<char>) -> bool {
    n.len() > 0 && all_digits(n)
}

/// A source of the mount table is the device itself or a partition of it: it is
/// the device path, or the device path with a partition number behind it, or
/// the device path with "p" and a partition number behind it. A source that
/// only begins like the device path, as "/dev/sdaa1" does for "/dev/sda", is
/// another device's.
pub open spec fn names_device(source: Seq<char>, device_path: Seq<char>) -> bool {
    ||| source == device_path
    ||| exists|n: Seq<char>| #[trigger] is_partition_number(n) && source == device_path + n
    ||| exists|n: Seq<char>|
        #[trigger] is_partition_number(n) && source == device_path + "p"@ + n
}

/// The mount point that one line of the mount table gives for the device: its
/// second field, where it has two and the first names the device.
pub open spec fn mount_of_line(line: Seq<char>, device_path: Seq<char>) -> Option<Seq<char>> {
    let f = fields(line);
    if f.len() >= 2 && names_device(f[0], device_path) {
        Some(f[1])
    } else {
        None
    }
}

/// The mount point of the first of `table` that gives one.
pub open spec fn first_mount(table: Seq<Seq<char>>, device_path: Seq<char>) -> Option<Seq<char>>
    decreases table.len(),
{
    if table.len() == 0 {
        None
    } else {
        match mount_of_line(table[0], device_path) {
            Some(m) => Some(m),
            None => first_mount(table.skip(1), device_path),
        }
    }
}

/// Where the device or one of its partitions is mounted, by the first line of
/// the mount table that names it.
pub open spec fn mount_point(mounts: Seq<char>, device_path: Seq<char>) -> Option<Seq<char>> {
    first_mount(lines(mounts), device_path)
}

/// The token that stands for a space in the name of a label symlink.
pub open spec fn escaped_space() -> Seq<char> {
    "\\x20"@
}

/// The label that the name of a symlink encodes: each escaped space is a space.
pub open spec fn decoded_label(encoded: Seq<char>) -> Seq<char> {
    replace(encoded, escaped_space(), " "@)
}

/// The label of the device: that of the first symlink whose target holds the
/// device's name anywhere in it; empty where there is none. A device whose name
/// begins another's (as "sdb" begins "sdb10") answers to the other's symlink too.
pub open spec fn label_of(links: Seq<LabelLinkView>, device_name: Seq<char>) -> Seq<char>
    decreases links.len(),
{
    if links.len() == 0 {
        Seq::empty()
    } else if contains(links[0].target, device_name) {
        decoded_label(links[0].name)
    } else {
        label_of(links.skip(1), device_name)
    }
}

/// The descriptor that one entry of the registry gives, if any: none for a
/// synthetic device, for one not flagged removable, and for one without media.
pub open spec fn drive_of(
    device: BlockDeviceView,
    mounts: Option<Seq<char>>,
    links: Seq<LabelLinkView>,
) -> Option<DriveView> {
    let size = match device.size {
        Some(content) => capacity(content),
        None => 0,
    };
    if is_synthetic(device.name) {
        None
    } else if !(device.removable matches Some(content) && flag_set(content)) {
        None
    } else if size == 0 {
        None
    } else {
        Some(
            DriveView {
                name: device.name,
                device_path: device_path_of(device.name),
                mount_path: match mounts {
                    Some(table) => mount_point(table, device_path_of(device.name)),
                    None => None,
                },
                label: label_of(links, device.name),
                size_bytes: size,
            },
        )
    }
}

/// The descriptors that the entries give, in the order of the entries.
pub open spec fn drives_of(
    devices: Seq<BlockDeviceView>,
    mounts: Option<Seq<char>>,
    links: Seq<LabelLinkView>,
) -> Seq<DriveView>
    decreases devices.len(),
{
    if devices.len() == 0 {
        Seq::empty()
    } else {
        let before = drives_of(devices.drop_last(), mounts, links);
        match drive_of(devices.last(), mounts, links) {
            Some(d) => before.push(d),
            None => before,
        }
    }
}

/// An entry that is flagged removable.
pub open spec fn is_flagged(device: BlockDeviceView) -> bool {
    device.removable matches Some(content) && flag_set(content)
}

/// No descriptor without media: every descriptor that the entries give has a
/// capacity above zero.
pub proof fn lemma_drives_have_media(
    devices: Seq<BlockDeviceView>,
    mounts: Option<Seq<char>>,
    links: Seq<LabelLinkView>,
)
    ensures
        all_have_media(drives_of(devices, mounts, links)),
        drives_of(devices, mounts, links).len() <= devices.len(),
    decreases devices.len(),
{
    if devices.len() > 0 {
        lemma_drives_have_media(devices.drop_last(), mounts, links);
    }
}

/// Where no entry is flagged removable, discovery finds no drive.
pub proof fn lemma_nothing_removable(
    devices: Seq<BlockDeviceView>,
    mounts: Option<Seq<char>>,
    links: Seq<LabelLinkView>,
)
    requires
        forall|i: int| 0 <= i < devices.len() ==> !is_flagged(#[trigger] devices[i]),
    ensures
        drives_of(devices, mounts, links) == Seq::<DriveView>::empty(),
    decreases devices.len(),
{
    if devices.len() > 0 {
        lemma_nothing_removable(devices.drop_last(), mounts, links);
        assert(!is_flagged(devices.last()));
    }
}

/// A name that holds an escaped space decodes to a label with a space in its
/// place: up to the first escaped space the label is the name, there it has a
/// space, and what follows is decoded in the same way. No escaped space is left
/// in a label, and a name without one is its own label.
pub proof fn lemma_decoded_label(encoded: Seq<char>)
    ensures
        find(encoded, escaped_space()) matches Some(i) ==> decoded_label(encoded) == encoded.take(
            i,
        ) + seq![' '] + decoded_label(encoded.skip(i + escaped_space().len())),
        !contains(decoded_label(encoded), escaped_space()),
        !contains(encoded, escaped_space()) ==> decoded_label(encoded) == encoded,
{
    reveal_strlit("\\x20");
    reveal_strlit(" ");
    assert(" "@ == seq![' ']);
    if !contains(encoded, escaped_space()) {
        lemma_replace_absent(encoded, escaped_space(), " "@);
    }
    lemma_replace_removes(encoded, escaped_space(), ' ');
    if let Some(i) = find(encoded, escaped_space()) {
        lemma_replace_first(encoded, escaped_space(), " "@, i);
    }
}

/// Decides [`is_synthetic`].
pub fn is_synthetic_device(name: &str) -> (r: bool)
    ensures
        r == is_synthetic(name@),
{
    let n = chars_of(name);
    begins_with(n.as_slice(), chars_of("loop").as_slice()) || begins_with(
        n.as_slice(),
        chars_of("ram").as_slice(),
    ) || begins_with(n.as_slice(), chars_of("zram").as_slice()) || begins_with(
        n.as_slice(),
        chars_of("dm-").as_slice(),
    )
}

/// Decides [`flag_set`].
pub fn removable_flag_set(content: &str) -> (r: bool)
    ensures
        r == flag_set(content@),
{
    let t = trimmed(chars_of(content).as_slice());
    same_text(t.as_slice(), chars_of("1").as_slice())
}

/// Computes [`capacity`].
pub fn capacity_in_bytes(content: &str) -> (r: u64)
    ensures
        r == capacity(content@),
{
    let t = trimmed(chars_of(content).as_slice());
    match read_u64(t.as_slice()) {
        Some(sectors) => match sectors.checked_mul(SECTOR_BYTES) {
            Some(bytes) => bytes,
            None => 0,
        },
        None => 0,
    }
}

/// What is left of `source` behind the device path is nothing, or a partition
/// number, or "p" and a partition number.
pub open spec fn names_by_rest(source: Seq<char>, device_path: Seq<char>) -> bool {
    let rest = source.skip(device_path.len() as int);
    &&& starts_with(source, device_path)
    &&& {
        ||| rest.len() == 0
        ||| is_partition_number(rest)
        ||| rest.len() > 0 && rest[0] == 'p' && is_partition_number(rest.skip(1))
    }
}

/// A source names the device exactly where it begins with the device path and
/// nothing, a partition number, or "p" and a partition number is left behind
/// it.
pub proof fn lemma_names_device(source: Seq<char>, device_path: Seq<char>)
    ensures
        names_device(source, device_path) == names_by_rest(source, device_path),
{
    reveal_strlit("p");
    let rest = source.skip(device_path.len() as int);
    let p = "p"@;
    if names_device(source, device_path) {
        if source == device_path {
            assert(source.subrange(0, device_path.len() as int) == device_path);
        } else if exists|n: Seq<char>| #[trigger]
            is_partition_number(n) && source == device_path + n {
            let n = choose|n: Seq<char>| #[trigger]
                is_partition_number(n) && source == device_path + n;
            assert(source.subrange(0, device_path.len() as int) == device_path);
            assert(rest == n);
        } else {
            let n = choose|n: Seq<char>| #[trigger]
                is_partition_number(n) && source == device_path + p + n;
            assert(source.subrange(0, device_path.len() as int) == device_path);
            assert(rest == p + n);
            assert(rest.skip(1) == n);
        }
    }
    if names_by_rest(source, device_path) {
        assert(source == device_path + rest) by {
            assert(source.subrange(0, device_path.len() as int) == device_path);
        }
        if rest.len() == 0 {
            assert(device_path + rest == device_path);
        } else if is_partition_number(rest) {
        } else {
            let n = rest.skip(1);
            assert(rest == p + n);
            assert(device_path + p + n == device_path + (p + n));
            assert(is_partition_number(n) && source == device_path + p + n);
        }
    }
}

/// Decides [`names_device`].
pub fn source_names_device(source: &[char], device_path: &[char]) -> (r: bool)
    ensures
        r == names_device(source@, device_path@),
{
    proof {
        lemma_names_device(source@, device_path@);
    }
    if !begins_with(source, device_path) {
        return false;
    }
    let rest = copy_range(source, device_path.len(), source.len());
    assert(rest@ == source@.skip(device_path@.len() as int));
    if rest.len() == 0 || only_digits(rest.as_slice()) {
        return true;
    }
    if rest[0] != 'p' {
        return false;
    }
    let number = copy_range(rest.as_slice(), 1, rest.len());
    assert(number@ == rest@.skip(1));
    number.len() > 0 && only_digits(number.as_slice())
}

/// Computes [`mount_point`].
pub fn find_mount_point(mounts: &str, device_path: &str) -> (r: Option<String>)
    ensures
        optional_text(r) == mount_point(mounts@, device_path@),
{
    let table = split_lines(chars_of(mounts).as_slice());
    let path = chars_of(device_path);
    let ghost all = lines(mounts@);
    let mut i: usize = 0;
    assert(all.skip(0) == all);
    while i < table.len()
        invariant
            i <= table.len(),
            texts(table@) == all,
            all == lines(mounts@),
            path@ == device_path@,
            first_mount(all, path@) == first_mount(all.skip(i as int), path@),
        decreases table.len() - i,
    {
        let f = split_fields(table[i].as_slice());
        assert(all.skip(i as int)[0] == table[i as int]@) by {
            assert(texts(table@)[i as int] == table[i as int]@);
        }
        assert(all.skip(i as int).skip(1) == all.skip(i + 1));
        assert(texts(f@).len() == f.len());
        assert(f.len() >= 2 ==> texts(f@)[0] == f[0]@ && texts(f@)[1] == f[1]@);
        if f.len() >= 2 && source_names_device(f[0].as_slice(), path.as_slice()) {
            let found = string_of(f[1].as_slice());
            assert(mount_of_line(table[i as int]@, path@) == Some(found@));
            return Some(found);
        }
        i += 1;
    }
    None
}

/// Computes [`decoded_label`].
pub fn decode_label(encoded: &str) -> (r: String)
    ensures
        r@ == decoded_label(encoded@),
{
    let out = replaced(
        chars_of(encoded).as_slice(),
        chars_of("\\x20").as_slice(),
        chars_of(" ").as_slice(),
    );
    string_of(out.as_slice())
}

/// Computes [`label_of`].
pub fn find_label(links: &Vec<LabelLink>, device_name: &str) -> (r: String)
    ensures
        r@ == label_of(link_views(links@), device_name@),
{
    let name = chars_of(device_name);
    let ghost all = link_views(links@);
    let mut i: usize = 0;
    assert(all.skip(0) == all);
    while i < links.len()
        invariant
            i <= links.len(),
            all == link_views(links@),
            name@ == device_name@,
            label_of(all, name@) == label_of(all.skip(i as int), name@),
        decreases links.len() - i,
    {
        assert(all.skip(i as int)[0] == links[i as int]@);
        assert(all.skip(i as int).skip(1) == all.skip(i + 1));
        if includes(chars_of(links[i].target.as_str()).as_slice(), name.as_slice()) {
            return decode_label(links[i].name.as_str());
        }
        i += 1;
    }
    String::new()
}

/// The mount point and the label of a device, from the mount table and the
/// label symlinks as they were read.
pub fn find_linux_mount_info(
    mounts: &Option<String>,
    links: &Vec<LabelLink>,
    device_path: &str,
    device_name: &str,
) -> (r: (Option<String>, String))
    ensures
        optional_text(r.0) == match optional_text(*mounts) {
            Some(table) => mount_point(table, device_path@),
            None => None,
        },
        r.1@ == label_of(link_views(links@), device_name@),
{
    let mount = match mounts {
        Some(table) => find_mount_point(table.as_str(), device_path),
        None => None,
    };
    (mount, find_label(links, device_name))
}

/// Computes [`drive_of`].
pub fn drive_from_entry(device: &BlockDevice, mounts: &Option<String>, links: &Vec<LabelLink>) -> (r:
    Option<DriveInfo>)
    ensures
        match r {
            Some(d) => drive_of(device@, optional_text(*mounts), link_views(links@)) == Some(d@),
            None => drive_of(device@, optional_text(*mounts), link_views(links@)) is None,
        },
{
    if is_synthetic_device(device.name.as_str()) {
        return None;
    }
    let flagged = match &device.removable {
        Some(content) => removable_flag_set(content.as_str()),
        None => false,
    };
    if !flagged {
        return None;
    }
    let size_bytes = match &device.size {
        Some(content) => capacity_in_bytes(content.as_str()),
        None => 0,
    };
    if size_bytes == 0 {
        return None;
    }
    let mut path: Vec<char> = chars_of("/dev/");
    push_text(&mut path, device.name.as_str());
    let device_path = string_of(path.as_slice());
    let (mount_path, label) = find_linux_mount_info(
        mounts,
        links,
        device_path.as_str(),
        device.name.as_str(),
    );
    Some(DriveInfo { name: device.name.clone(), device_path, mount_path, label, size_bytes })
}

/// The removable drives that hold media, among the entries of the registry and
/// in their order.
pub fn removable_drives(registry: &Registry) -> (r: Vec<DriveInfo>)
    ensures
        drive_views(r@) == drives_of(
            device_views(registry.devices@),
            optional_text(registry.mounts),
            link_views(registry.labels@),
        ),
        all_have_media(drive_views(r@)),
{
    let mut out: Vec<DriveInfo> = Vec::new();
    let ghost all = device_views(registry.devices@);
    let ghost mounts = optional_text(registry.mounts);
    let ghost links = link_views(registry.labels@);
    let mut i: usize = 0;
    assert(all.take(0) == Seq::<BlockDeviceView>::empty());
    assert(drive_views(out@) == Seq::<DriveView>::empty());
    while i < registry.devices.len()
        invariant
            i <= registry.devices.len(),
            all == device_views(registry.devices@),
            mounts == optional_text(registry.mounts),
            links == link_views(registry.labels@),
            drive_views(out@) == drives_of(all.take(i as int), mounts, links),
            all_have_media(drive_views(out@)),
        decreases registry.devices.len() - i,
    {
        let ghost before = out@;
        assert(all.take(i + 1).drop_last() == all.take(i as int));
        assert(all.take(i + 1).last() == registry.devices[i as int]@);
        match drive_from_entry(&registry.devices[i], &registry.mounts, &registry.labels) {
            Some(d) => {
                out.push(d);
                assert(drive_views(out@) == drive_views(before).push(d@));
            },
            None => {},
        }
        i += 1;
    }
    assert(all.take(registry.devices.len() as int) == all);
    out
}

} // verus!
