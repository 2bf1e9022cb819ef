//! Discovery through a volume interface: a bitmask of the logical volume slots
//! in use, and for each slot a device type, a label and a capacity.

use vstd::prelude::*;
use crate::drives::{all_have_media, drive_views, DriveInfo, DriveView};
use crate::text::decode::{decode_utf16_lossy, utf16_lossy};
use crate::text::string_of;

verus! {

/// The number of logical volume slots, one for each letter from A to Z.
pub const SLOT_COUNT: u8 = 26;

/// The device type that marks removable media.
pub const DRIVE_REMOVABLE: u32 = 2;

/// The slot `slot` is in use by the bitmask `mask`.
pub open spec fn slot_in_use(mask: u32, slot: u8) -> bool {
    (mask >> slot) & 1 == 1
}

/// The slots below `n` that `mask` marks, in rising order.
pub open spec fn slots_below(mask: u32, n: u8) -> Seq<u8>
    decreases n,
{
    if n == 0 {
        Seq::empty()
    } else {
        let before = slots_below(mask, (n - 1) as u8);
        if slot_in_use(mask, (n - 1) as u8) {
            before.push((n - 1) as u8)
        } else {
            before
        }
    }
}

/// The logical volume slots that `mask` marks, in rising order.
pub open spec fn slots_in_use(mask: u32) -> Seq<u8> {
    slots_below(mask, SLOT_COUNT)
}

/// The letter of a slot: 'A' for slot 0, up to 'Z' for slot 25.
pub open spec fn letter_of(slot: u8) -> char {
    (slot + 65) as char
}

/// The name of the volume in a slot, and the path to its device: the letter and
/// a colon.
pub open spec fn volume_name(slot: u8) -> Seq<char> {
    seq![letter_of(slot), ':']
}

/// The root of the volume in a slot: the letter, a colon and a backslash.
pub open spec fn volume_root(slot: u8) -> Seq<char> {
    seq![letter_of(slot), ':', '\\']
}

/// A device of this type holds removable media.
pub open spec fn is_removable_type(drive_type: u32) -> bool {
    drive_type == DRIVE_REMOVABLE
}

/// The index of the first zero unit of `units`; their number where none is
/// zero.
pub open spec fn text_end(units: Seq<u16>) -> nat
    decreases units.len(),
{
    if units.len() == 0 || units[0] == 0 {
        0
    } else {
        1 + text_end(units.skip(1))
    }
}

/// The label that a buffer of 16-bit units holds: the units before the first
/// zero, read as lossy UTF-16.
pub open spec fn label_in(buffer: Seq<u16>) -> Seq<char> {
    utf16_lossy(buffer.take(text_end(buffer) as int))
}

/// What was read of the volume in one slot.
#[derive(Debug, Clone)]
pub struct Volume {
    /// The number of the slot, from 0 for A.
    pub slot: u8,
    /// The device type of the volume.
    pub drive_type: u32,
    /// The buffer that the label query filled; `None` where the query failed.
    pub label: Option<Vec<u16>>,
    /// The total capacity in bytes; zero where the query failed.
    pub total_bytes: u64,
}

/// The descriptor of the volume in `slot`, if it gets one: none unless the
/// volume is of the removable type, stands in one of the slots, and has a
/// capacity above zero.
pub open spec fn described(slot: u8, drive_type: u32, label: Seq<char>, total_bytes: u64) -> Option<
    DriveView,
> {
    if slot < SLOT_COUNT && is_removable_type(drive_type) && total_bytes > 0 {
        Some(
            DriveView {
                name: volume_name(slot),
                device_path: volume_name(slot),
                mount_path: Some(volume_root(slot)),
                label,
                size_bytes: total_bytes,
            },
        )
    } else {
        None
    }
}

/// The label of a volume: what its buffer holds, and nothing where the query
/// failed.
pub open spec fn label_of(volume: Volume) -> Seq<char> {
    match volume.label {
        Some(buffer) => label_in(buffer@),
        None => Seq::empty(),
    }
}

/// The descriptor that one volume gives, if any.
pub open spec fn drive_of(volume: Volume) -> Option<DriveView> {
    described(volume.slot, volume.drive_type, label_of(volume), volume.total_bytes)
}

/// The descriptors that the volumes give, in the order of the volumes.
pub open spec fn drives_of(volumes: Seq<Volume>) -> Seq<DriveView>
    decreases volumes.len(),
{
    if volumes.len() == 0 {
        Seq::empty()
    } else {
        let before = drives_of(volumes.drop_last());
        match drive_of(volumes.last()) {
            Some(d) => before.push(d),
            None => before,
        }
    }
}

/// No descriptor without media: every descriptor that the volumes give has a
/// capacity above zero.
pub proof fn lemma_drives_have_media(volumes: Seq<Volume>)
    ensures
        all_have_media(drives_of(volumes)),
        drives_of(volumes).len() <= volumes.len(),
    decreases volumes.len(),
{
    if volumes.len() > 0 {
        lemma_drives_have_media(volumes.drop_last());
    }
}

/// Where no volume is of the removable type, discovery finds no drive.
pub proof fn lemma_nothing_removable(volumes: Seq<Volume>)
    requires
        forall|i: int|
            0 <= i < volumes.len() ==> !is_removable_type((#[trigger] volumes[i]).drive_type),
    ensures
        drives_of(volumes) == Seq::<DriveView>::empty(),
    decreases volumes.len(),
{
    if volumes.len() > 0 {
        lemma_nothing_removable(volumes.drop_last());
        assert(!is_removable_type(volumes.last().drive_type));
    }
}

/// The volumes were read as a bitmask of slots tells: each stands in a slot that
/// the mask marks, and the slots rise strictly from one volume to the next.
pub open spec fn read_by_mask(volumes: Seq<Volume>, mask: u32) -> bool {
    &&& forall|i: int|
        0 <= i < volumes.len() ==> (#[trigger] volumes[i]).slot < SLOT_COUNT && slot_in_use(
            mask,
            volumes[i].slot,
        )
    &&& forall|i: int, j: int|
        0 <= i < j < volumes.len() ==> (#[trigger] volumes[i]).slot < (#[trigger] volumes[j]).slot
}

/// The slots of the volumes that give a descriptor, in the order of the
/// volumes: one for each descriptor of [`drives_of`].
pub open spec fn drive_slots(volumes: Seq<Volume>) -> Seq<u8>
    decreases volumes.len(),
{
    if volumes.len() == 0 {
        Seq::empty()
    } else {
        let before = drive_slots(volumes.drop_last());
        if drive_of(volumes.last()) is Some {
            before.push(volumes.last().slot)
        } else {
            before
        }
    }
}

/// The descriptor `d` is that of the volume in `slot`: named by its letter,
/// mounted at its root.
pub open spec fn stands_in(d: DriveView, slot: u8) -> bool {
    &&& slot < SLOT_COUNT
    &&& d.name == volume_name(slot)
    &&& d.device_path == volume_name(slot)
    &&& d.mount_path == Some(volume_root(slot))
}

/// The descriptors are those of the slots `slots`, one for one: each stands in
/// its slot, the mask marks that slot, the slots rise strictly, and there are
/// no more descriptors than slots to stand in.
pub open spec fn follows_mask(drives: Seq<DriveView>, slots: Seq<u8>, mask: u32) -> bool {
    &&& drives.len() == slots.len()
    &&& drives.len() <= SLOT_COUNT
    &&& forall|k: int|
        0 <= k < drives.len() ==> stands_in(#[trigger] drives[k], slots[k]) && slot_in_use(
            mask,
            slots[k],
        )
    &&& forall|k: int, l: int| 0 <= k < l < slots.len() ==> slots[k] < slots[l]
}

/// Two slots have one name only where they are one slot.
pub proof fn lemma_names_differ(a: u8, b: u8)
    requires
        a < SLOT_COUNT,
        b < SLOT_COUNT,
        a != b,
    ensures
        volume_name(a) != volume_name(b),
        volume_root(a) != volume_root(b),
{
    assert(letter_of(a) as int == a + 65);
    assert(letter_of(b) as int == b + 65);
    assert(volume_name(a)[0] != volume_name(b)[0]);
    assert(volume_root(a)[0] != volume_root(b)[0]);
}

proof fn lemma_rising_bound(s: Seq<u8>, k: int)
    requires
        forall|i: int, j: int| 0 <= i < j < s.len() ==> s[i] < s[j],
        0 <= k < s.len(),
    ensures
        s[k] >= k,
    decreases k,
{
    if k > 0 {
        lemma_rising_bound(s, k - 1);
    }
}

proof fn lemma_drive_slots(volumes: Seq<Volume>)
    requires
        forall|i: int, j: int|
            0 <= i < j < volumes.len() ==> (#[trigger] volumes[i]).slot < (#[trigger] volumes[j]).slot,
    ensures
        drive_slots(volumes).len() == drives_of(volumes).len(),
        forall|k: int|
            0 <= k < drive_slots(volumes).len() ==> stands_in(
                drives_of(volumes)[k],
                #[trigger] drive_slots(volumes)[k],
            ) && exists|i: int|
                0 <= i < volumes.len() && (#[trigger] volumes[i]).slot == drive_slots(volumes)[k]
                    && is_removable_type(volumes[i].drive_type) && volumes[i].total_bytes
                    == drives_of(volumes)[k].size_bytes,
        forall|k: int, l: int|
            0 <= k < l < drive_slots(volumes).len() ==> drive_slots(volumes)[k] < drive_slots(
                volumes,
            )[l],
    decreases volumes.len(),
{
    if volumes.len() > 0 {
        let front = volumes.drop_last();
        let v = volumes.last();
        lemma_drive_slots(front);
        let slots = drive_slots(volumes);
        let drives = drives_of(volumes);
        assert forall|k: int| 0 <= k < slots.len() implies stands_in(drives[k], #[trigger] slots[k])
            && exists|i: int|
            0 <= i < volumes.len() && (#[trigger] volumes[i]).slot == slots[k] && is_removable_type(
                volumes[i].drive_type,
            ) && volumes[i].total_bytes == drives[k].size_bytes by {
            if k < drive_slots(front).len() {
                let i = choose|i: int|
                    0 <= i < front.len() && (#[trigger] front[i]).slot == drive_slots(front)[k]
                        && is_removable_type(front[i].drive_type) && front[i].total_bytes
                        == drives_of(front)[k].size_bytes;
                assert(volumes[i] == front[i]);
            } else {
                assert(volumes[volumes.len() - 1] == v);
            }
        }
        assert forall|k: int, l: int| 0 <= k < l < slots.len() implies slots[k] < slots[l] by {
            if l == drive_slots(front).len() {
                let i = choose|i: int|
                    0 <= i < front.len() && (#[trigger] front[i]).slot == drive_slots(front)[k];
                assert(volumes[i] == front[i]);
                assert(volumes[volumes.len() - 1] == v);
            }
        }
    }
}

/// Where the volumes were read as the bitmask tells, the descriptors follow the
/// bitmask: each is that of a slot which the mask marks and whose volume is
/// removable, no slot gives two, their letters rise, so that no two have one
/// name and there are 26 at most, and no volume of another type is among them.
pub proof fn lemma_drives_follow_mask(volumes: Seq<Volume>, mask: u32)
    requires
        read_by_mask(volumes, mask),
    ensures
        follows_mask(drives_of(volumes), drive_slots(volumes), mask),
        drives_of(volumes).len() == drive_slots(volumes).len(),
        drives_of(volumes).len() <= SLOT_COUNT,
        forall|k: int|
            0 <= k < drives_of(volumes).len() ==> stands_in(
                #[trigger] drives_of(volumes)[k],
                drive_slots(volumes)[k],
            ) && slot_in_use(mask, drive_slots(volumes)[k]),
        forall|k: int|
            0 <= k < drives_of(volumes).len() ==> exists|i: int|
                0 <= i < volumes.len() && (#[trigger] volumes[i]).slot == drive_slots(volumes)[k]
                    && is_removable_type(volumes[i].drive_type) && volumes[i].total_bytes
                    == (#[trigger] drives_of(volumes)[k]).size_bytes,
        forall|k: int, l: int|
            0 <= k < l < drives_of(volumes).len() ==> drive_slots(volumes)[k] < drive_slots(
                volumes,
            )[l] && (#[trigger] drives_of(volumes)[k]).name != (#[trigger] drives_of(
                volumes,
            )[l]).name,
        forall|i: int, k: int|
            0 <= i < volumes.len() && 0 <= k < drives_of(volumes).len() && !is_removable_type(
                (#[trigger] volumes[i]).drive_type,
            ) ==> (#[trigger] drives_of(volumes)[k]).name != volume_name(volumes[i].slot),
{
    lemma_drive_slots(volumes);
    let slots = drive_slots(volumes);
    let drives = drives_of(volumes);
    assert forall|k: int| 0 <= k < drives.len() implies stands_in(#[trigger] drives[k], slots[k])
        && slot_in_use(mask, slots[k]) by {
        assert(stands_in(drives[k], slots[k]));
        let i = choose|i: int| 0 <= i < volumes.len() && (#[trigger] volumes[i]).slot == slots[k];
    }
    assert forall|k: int| 0 <= k < drives.len() implies exists|i: int|
        0 <= i < volumes.len() && (#[trigger] volumes[i]).slot == slots[k] && is_removable_type(
            volumes[i].drive_type,
        ) && volumes[i].total_bytes == (#[trigger] drives[k]).size_bytes by {
        assert(stands_in(drives[k], slots[k]));
    }
    assert forall|k: int, l: int| 0 <= k < l < drives.len() implies slots[k] < slots[l] && (
    #[trigger] drives[k]).name != (#[trigger] drives[l]).name by {
        assert(stands_in(drives[k], slots[k]));
        assert(stands_in(drives[l], slots[l]));
        lemma_names_differ(slots[k], slots[l]);
    }
    assert forall|i: int, k: int|
        0 <= i < volumes.len() && 0 <= k < drives.len() && !is_removable_type(
            (#[trigger] volumes[i]).drive_type,
        ) implies (#[trigger] drives[k]).name != volume_name(volumes[i].slot) by {
        assert(stands_in(drives[k], slots[k]));
        let j = choose|j: int|
            0 <= j < volumes.len() && (#[trigger] volumes[j]).slot == slots[k] && is_removable_type(
                volumes[j].drive_type,
            );
        assert(i != j);
        assert(volumes[i].slot != volumes[j].slot) by {
            if i < j {
                assert(volumes[i].slot < volumes[j].slot);
            } else {
                assert(volumes[j].slot < volumes[i].slot);
            }
        }
        lemma_names_differ(slots[k], volumes[i].slot);
    }
    if slots.len() > 0 {
        lemma_rising_bound(slots, slots.len() - 1);
        assert(stands_in(drives[slots.len() - 1], slots[slots.len() - 1]));
    }
}

/// The slots in use are slots, each named once, in rising order.
pub proof fn lemma_slots(mask: u32, n: u8)
    ensures
        forall|i: int| 0 <= i < slots_below(mask, n).len() ==> #[trigger] slots_below(mask, n)[i] < n,
        forall|i: int, j: int|
            0 <= i < j < slots_below(mask, n).len() ==> slots_below(mask, n)[i] < slots_below(
                mask,
                n,
            )[j],
        forall|slot: u8| slot < n ==> (slots_below(mask, n).contains(slot) <==> slot_in_use(mask, slot)),
    decreases n,
{
    if n > 0 {
        let m = (n - 1) as u8;
        lemma_slots(mask, m);
        let before = slots_below(mask, m);
        let now = slots_below(mask, n);
        assert forall|slot: u8| slot < n implies (now.contains(slot) <==> slot_in_use(mask, slot)) by {
            if slot_in_use(mask, m) {
                assert(now == before.push(m));
                assert(now[before.len() as int] == m);
                if slot < m && before.contains(slot) {
                    let i = choose|i: int| 0 <= i < before.len() && before[i] == slot;
                    assert(now[i] == slot);
                }
                if now.contains(slot) && slot < m {
                    let i = choose|i: int| 0 <= i < now.len() && now[i] == slot;
                    assert(before[i] == slot);
                }
            } else {
                if now.contains(slot) {
                    let i = choose|i: int| 0 <= i < now.len() && now[i] == slot;
                    assert(now[i] < m);
                }
            }
        }
    }
}

/// Computes [`slots_in_use`].
pub fn logical_slots(mask: u32) -> (r: Vec<u8>)
    ensures
        r@ == slots_in_use(mask),
        forall|i: int| 0 <= i < r.len() ==> #[trigger] r[i] < SLOT_COUNT,
{
    proof {
        lemma_slots(mask, SLOT_COUNT);
    }
    let mut out: Vec<u8> = Vec::new();
    let mut slot: u8 = 0;
    while slot < SLOT_COUNT
        invariant
            slot <= SLOT_COUNT,
            out@ == slots_below(mask, slot),
        decreases SLOT_COUNT - slot,
    {
        if (mask >> slot) & 1 == 1 {
            out.push(slot);
        }
        slot += 1;
    }
    out
}

/// Decides [`is_removable_type`].
pub fn holds_removable_media(drive_type: u32) -> (r: bool)
    ensures
        r == is_removable_type(drive_type),
{
    drive_type == DRIVE_REMOVABLE
}

/// The name of the volume in `slot`: see [`volume_name`].
pub fn name_of_slot(slot: u8) -> (r: String)
    requires
        slot < SLOT_COUNT,
    ensures
        r@ == volume_name(slot),
{
    let mut v: Vec<char> = Vec::new();
    v.push((slot + 65) as char);
    v.push(':');
    string_of(v.as_slice())
}

/// The root of the volume in `slot`: see [`volume_root`].
pub fn root_of_slot(slot: u8) -> (r: String)
    requires
        slot < SLOT_COUNT,
    ensures
        r@ == volume_root(slot),
{
    let mut v: Vec<char> = Vec::new();
    v.push((slot + 65) as char);
    v.push(':');
    v.push('\\');
    string_of(v.as_slice())
}

/// The number of units before the first zero of `buffer`.
pub fn label_length(buffer: &[u16]) -> (r: usize)
    ensures
        r == text_end(buffer@),
        r <= buffer.len(),
{
    let mut i: usize = 0;
    assert(buffer@.skip(0) == buffer@);
    while i < buffer.len() && buffer[i] != 0
        invariant
            i <= buffer.len(),
            text_end(buffer@) == i + text_end(buffer@.skip(i as int)),
        decreases buffer.len() - i,
    {
        assert(buffer@.skip(i as int).skip(1) == buffer@.skip(i + 1));
        i += 1;
    }
    i
}

/// Computes [`label_in`].
pub fn volume_label(buffer: &[u16]) -> (r: String)
    ensures
        r@ == label_in(buffer@),
{
    let end = label_length(buffer);
    let units = vstd::slice::slice_subrange(buffer, 0, end);
    assert(units@ == buffer@.take(end as int));
    decode_utf16_lossy(units)
}

/// Computes [`described`].
pub fn describe(slot: u8, drive_type: u32, label: String, total_bytes: u64) -> (r: Option<
    DriveInfo,
>)
    ensures
        r is Some <==> described(slot, drive_type, label@, total_bytes) is Some,
        r matches Some(d) ==> described(slot, drive_type, label@, total_bytes) == Some(d@),
{
    if slot < SLOT_COUNT && holds_removable_media(drive_type) && total_bytes > 0 {
        Some(
            DriveInfo {
                name: name_of_slot(slot),
                device_path: name_of_slot(slot),
                mount_path: Some(root_of_slot(slot)),
                label,
                size_bytes: total_bytes,
            },
        )
    } else {
        None
    }
}

/// Computes [`drive_of`].
pub fn drive_from_volume(volume: &Volume) -> (r: Option<DriveInfo>)
    ensures
        r is Some <==> drive_of(*volume) is Some,
        r matches Some(d) ==> drive_of(*volume) == Some(d@),
{
    let label = match &volume.label {
        Some(buffer) => volume_label(buffer.as_slice()),
        None => String::new(),
    };
    describe(volume.slot, volume.drive_type, label, volume.total_bytes)
}

/// The removable drives that hold media, among the volumes read and in their
/// order. Where the volumes were read as a bitmask tells, the drives follow
/// that bitmask.
pub fn removable_drives(volumes: &Vec<Volume>) -> (r: Vec<DriveInfo>)
    ensures
        drive_views(r@) == drives_of(volumes@),
        all_have_media(drive_views(r@)),
        forall|mask: u32| #[trigger]
            read_by_mask(volumes@, mask) ==> follows_mask(
                drive_views(r@),
                drive_slots(volumes@),
                mask,
            ),
{
    proof {
        assert forall|mask: u32| #[trigger] read_by_mask(volumes@, mask) implies follows_mask(
            drives_of(volumes@),
            drive_slots(volumes@),
            mask,
        ) by {
            lemma_drives_follow_mask(volumes@, mask);
        }
    }
    let mut out: Vec<DriveInfo> = Vec::new();
    let mut i: usize = 0;
    assert(volumes@.take(0) == Seq::<Volume>::empty());
    assert(drive_views(out@) == Seq::<DriveView>::empty());
    while i < volumes.len()
        invariant
            i <= volumes.len(),
            drive_views(out@) == drives_of(volumes@.take(i as int)),
            all_have_media(drive_views(out@)),
        decreases volumes.len() - i,
    {
        let ghost before = out@;
        assert(volumes@.take(i + 1).drop_last() == volumes@.take(i as int));
        assert(volumes@.take(i + 1).last() == volumes[i as int]);
        match drive_from_volume(&volumes[i]) {
            Some(d) => {
                out.push(d);
                assert(drive_views(out@) == drive_views(before).push(d@));
            },
            None => {},
        }
        i += 1;
    }
    assert(volumes@.take(volumes.len() as int) == volumes@);
    out
}

} // verus!
