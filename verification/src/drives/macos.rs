//! Discovery through a disk-management utility: the list of external disks that
//! it prints, and the description of one disk that it prints on request.

use vstd::prelude::*;
use vstd::utf8::{decode_utf8, valid_utf8};
use crate::drives::{all_have_media, drive_views, optional_text, DriveInfo, DriveView};
use crate::text::decode::{decode_utf8_lossy, utf8_lossy};
use crate::text::number::{parse_u64, read_u64};
use crate::text::replace::{replace, replaced};
use crate::text::search::{begins_with, contains, find, includes, index_of, starts_with};
use crate::text::split::{lines, split_lines, texts};
use crate::text::trim::{trim, trimmed};
use crate::text::{chars_of, copy_range, push_text, same_text, string_of, string_views};

verus! {

/// What the utility prints in place of a name or a mount point that a disk
/// without a file system lacks.
pub open spec fn not_applicable() -> Seq<char> {
    "Not applicable (no file system)"@
}

/// An identifier that names a partition and not a whole disk: an "s" follows
/// the number of the disk, as in "disk2s1".
pub open spec fn looks_like_partition(id: Seq<char>) -> bool {
    id.len() >= 4 && contains(id.skip(4), "s"@)
}

/// The identifier that `t` holds: from the first "disk" up to the next "<".
pub open spec fn identifier_in(t: Seq<char>) -> Option<Seq<char>> {
    match find(t, "disk"@) {
        Some(start) => match find(t.skip(start), "<"@) {
            Some(len) => Some(t.subrange(start, start + len)),
            None => None,
        },
        None => None,
    }
}

/// The disk that one line of the list names, if any: the line holds a string
/// element that begins with "disk", and the identifier found in it is that of a
/// whole disk.
pub open spec fn disk_id_of_line(line: Seq<char>) -> Option<Seq<char>> {
    let t = trim(line);
    if !contains(t, "<string>disk"@) {
        None
    } else {
        match identifier_in(t) {
            Some(id) => if looks_like_partition(id) {
                None
            } else {
                Some(id)
            },
            None => None,
        }
    }
}

/// The disks that the lines name, each once, in the order in which they first
/// appear.
pub open spec fn disk_ids_of(table: Seq<Seq<char>>) -> Seq<Seq<char>>
    decreases table.len(),
{
    if table.len() == 0 {
        Seq::empty()
    } else {
        let before = disk_ids_of(table.drop_last());
        match disk_id_of_line(table.last()) {
            Some(id) => if before.contains(id) {
                before
            } else {
                before.push(id)
            },
            None => before,
        }
    }
}

/// The whole disks that a printed list of external disks names.
pub open spec fn disk_ids(listing: Seq<char>) -> Seq<Seq<char>> {
    disk_ids_of(lines(listing))
}

/// What the description of a disk told so far.
#[derive(Debug, Clone)]
pub struct DiskFacts {
    /// Total size in bytes; zero until a size was read.
    pub size_bytes: u64,
    /// The name of the volume; empty until one was read.
    pub label: String,
    /// Where the volume is mounted, once that was read.
    pub mount_point: Option<String>,
    /// The removable-media line says that the media can be removed.
    pub marked_removable: bool,
    /// A protocol line names USB.
    pub usb: bool,
}

/// What a [`DiskFacts`] holds.
pub struct DiskFactsView {
    pub size_bytes: u64,
    pub label: Seq<char>,
    pub mount_point: Option<Seq<char>>,
    pub marked_removable: bool,
    pub usb: bool,
}

impl View for DiskFacts {
    type V = DiskFactsView;

    open spec fn view(&self) -> DiskFactsView {
        DiskFactsView {
            size_bytes: self.size_bytes,
            label: self.label@,
            mount_point: optional_text(self.mount_point),
            marked_removable: self.marked_removable,
            usb: self.usb,
        }
    }
}

/// What is known of a disk before any line of its description is read.
pub open spec fn nothing_known() -> DiskFactsView {
    DiskFactsView {
        size_bytes: 0,
        label: Seq::empty(),
        mount_point: None,
        marked_removable: false,
        usb: false,
    }
}

/// The number of bytes that a size line gives: what stands, trimmed, between
/// the first "(" and the first " Bytes", where both are there in that order and
/// a number stands between them.
pub open spec fn size_of_line(t: Seq<char>) -> Option<u64> {
    match (find(t, "("@), find(t, " Bytes"@)) {
        (Some(open), Some(end)) => if open + 1 <= end {
            parse_u64(trim(t.subrange(open + 1, end)))
        } else {
            None
        },
        _ => None,
    }
}

/// What a line says behind its label: the line without any occurrence of the
/// label, trimmed.
pub open spec fn value_behind(t: Seq<char>, label: Seq<char>) -> Seq<char> {
    trim(replace(t, label, Seq::empty()))
}

/// What is known after one more line of the description. The line is trimmed
/// and told by what it begins with; a line that says nothing usable changes
/// nothing.
pub open spec fn read_line(known: DiskFactsView, line: Seq<char>) -> DiskFactsView {
    let t = trim(line);
    if starts_with(t, "Disk Size:"@) {
        match size_of_line(t) {
            Some(bytes) => DiskFactsView { size_bytes: bytes, ..known },
            None => known,
        }
    } else if starts_with(t, "Volume Name:"@) {
        let v = value_behind(t, "Volume Name:"@);
        DiskFactsView {
            label: if v == not_applicable() {
                Seq::empty()
            } else {
                v
            },
            ..known
        }
    } else if starts_with(t, "Mount Point:"@) {
        let v = value_behind(t, "Mount Point:"@);
        if v.len() > 0 && v != not_applicable() {
            DiskFactsView { mount_point: Some(v), ..known }
        } else {
            known
        }
    } else if starts_with(t, "Removable Media:"@) {
        DiskFactsView {
            marked_removable: contains(t.skip("Removable Media:"@.len() as int), "Removable"@),
            ..known
        }
    } else if starts_with(t, "Protocol:"@) {
        if contains(t, "USB"@) {
            DiskFactsView { usb: true, ..known }
        } else {
            known
        }
    } else {
        known
    }
}

/// What is known after the lines of `table`, read in order.
pub open spec fn read_lines(known: DiskFactsView, table: Seq<Seq<char>>) -> DiskFactsView
    decreases table.len(),
{
    if table.len() == 0 {
        known
    } else {
        read_line(read_lines(known, table.drop_last()), table.last())
    }
}

/// What the printed description of a disk tells.
pub open spec fn facts_of(info: Seq<char>) -> DiskFactsView {
    read_lines(nothing_known(), lines(info))
}

/// Removability is established by the removable-media line or by USB as the
/// protocol, whatever the other says.
pub open spec fn removable(known: DiskFactsView) -> bool {
    known.marked_removable || known.usb
}

/// The descriptor of the disk that its description gives: none unless the disk
/// is removable and has a size above zero.
pub open spec fn drive_of_disk(disk_id: Seq<char>, info: Seq<char>) -> Option<DriveView> {
    let known = facts_of(info);
    if removable(known) && known.size_bytes > 0 {
        Some(
            DriveView {
                name: disk_id,
                device_path: "/dev/"@ + disk_id,
                mount_path: known.mount_point,
                label: known.label,
                size_bytes: known.size_bytes,
            },
        )
    } else {
        None
    }
}

/// Whether one of `list` holds the characters of `x`.
fn holds(list: &Vec<Vec<char>>, x: &[char]) -> (r: bool)
    ensures
        r == texts(list@).contains(x@),
{
    let mut i: usize = 0;
    while i < list.len()
        invariant
            i <= list.len(),
            forall|k: int| 0 <= k < i ==> texts(list@)[k] != x@,
        decreases list.len() - i,
    {
        if same_text(list[i].as_slice(), x) {
            assert(texts(list@)[i as int] == x@);
            return true;
        }
        i += 1;
    }
    false
}

/// Computes [`disk_id_of_line`].
fn disk_id_in_line(line: &[char]) -> (r: Option<Vec<char>>)
    ensures
        r is Some <==> disk_id_of_line(line@) is Some,
        r matches Some(id) ==> disk_id_of_line(line@) == Some(id@),
{
    let t = trimmed(line);
    if !includes(t.as_slice(), chars_of("<string>disk").as_slice()) {
        return None;
    }
    let start = match index_of(t.as_slice(), chars_of("disk").as_slice()) {
        Some(start) => start,
        None => { return None; },
    };
    let rest = copy_range(t.as_slice(), start, t.len());
    assert(rest@ == t@.skip(start as int));
    let len = match index_of(rest.as_slice(), chars_of("<").as_slice()) {
        Some(len) => len,
        None => { return None; },
    };
    let id = copy_range(t.as_slice(), start, start + len);
    if id.len() >= 4 && includes(copy_range(id.as_slice(), 4, id.len()).as_slice(), chars_of("s").as_slice()) {
        return None;
    }
    Some(id)
}

/// Computes [`disk_ids`].
pub fn list_disk_ids(listing: &str) -> (r: Vec<String>)
    ensures
        string_views(r@) == disk_ids(listing@),
{
    let table = split_lines(chars_of(listing).as_slice());
    let ghost all = lines(listing@);
    let mut ids: Vec<Vec<char>> = Vec::new();
    let mut out: Vec<String> = Vec::new();
    let mut i: usize = 0;
    assert(all.take(0) == Seq::<Seq<char>>::empty());
    assert(texts(ids@) == Seq::<Seq<char>>::empty());
    assert(string_views(out@) == Seq::<Seq<char>>::empty());
    while i < table.len()
        invariant
            i <= table.len(),
            texts(table@) == all,
            texts(ids@) == disk_ids_of(all.take(i as int)),
            string_views(out@) == texts(ids@),
        decreases table.len() - i,
    {
        assert(all.take(i + 1).drop_last() == all.take(i as int));
        assert(all.take(i + 1).last() == table[i as int]@) by {
            assert(texts(table@)[i as int] == table[i as int]@);
        }
        match disk_id_in_line(table[i].as_slice()) {
            Some(id) => {
                if !holds(&ids, id.as_slice()) {
                    let ghost ids_before = ids@;
                    let ghost out_before = out@;
                    let s = string_of(id.as_slice());
                    out.push(s);
                    ids.push(id);
                    assert(texts(ids@) == texts(ids_before).push(id@));
                    assert(string_views(out@) == string_views(out_before).push(id@));
                }
            },
            None => {},
        }
        i += 1;
    }
    assert(all.take(table.len() as int) == all);
    out
}

/// The whole disks that the utility's output names, the output read as lossy
/// UTF-8.
pub fn disk_ids_from_output(stdout: &[u8]) -> (r: Vec<String>)
    ensures
        string_views(r@) == disk_ids(utf8_lossy(stdout@)),
        valid_utf8(stdout@) ==> string_views(r@) == disk_ids(decode_utf8(stdout@)),
{
    let listing = decode_utf8_lossy(stdout);
    list_disk_ids(listing.as_str())
}

/// Computes [`size_of_line`].
fn size_in_line(t: &[char]) -> (r: Option<u64>)
    ensures
        r == size_of_line(t@),
{
    let open = index_of(t, chars_of("(").as_slice());
    let end = index_of(t, chars_of(" Bytes").as_slice());
    match (open, end) {
        (Some(open), Some(end)) => {
            if open < end {
                let inner = trimmed(copy_range(t, open + 1, end).as_slice());
                read_u64(inner.as_slice())
            } else {
                None
            }
        },
        _ => None,
    }
}

/// Computes [`value_behind`].
fn value_in_line(t: &[char], label: &str) -> (r: Vec<char>)
    ensures
        r@ == value_behind(t@, label@),
{
    let empty: Vec<char> = Vec::new();
    let bare = replaced(t, chars_of(label).as_slice(), empty.as_slice());
    trimmed(bare.as_slice())
}

impl DiskFacts {
    /// What is known of a disk before any line of its description is read.
    pub fn new() -> (r: DiskFacts)
        ensures
            r@ == nothing_known(),
    {
        DiskFacts {
            size_bytes: 0,
            label: String::new(),
            mount_point: None,
            marked_removable: false,
            usb: false,
        }
    }

    /// Takes in one more line of the description.
    pub fn read_line(&mut self, line: &str)
        ensures
            final(self)@ == read_line(old(self)@, line@),
    {
        self.read_chars(chars_of(line).as_slice());
    }

    fn read_chars(&mut self, line: &[char])
        ensures
            final(self)@ == read_line(old(self)@, line@),
    {
        let t = trimmed(line);
        if begins_with(t.as_slice(), chars_of("Disk Size:").as_slice()) {
            match size_in_line(t.as_slice()) {
                Some(bytes) => {
                    self.size_bytes = bytes;
                },
                None => {},
            }
        } else if begins_with(t.as_slice(), chars_of("Volume Name:").as_slice()) {
            let v = value_in_line(t.as_slice(), "Volume Name:");
            if same_text(v.as_slice(), chars_of("Not applicable (no file system)").as_slice()) {
                self.label = String::new();
            } else {
                self.label = string_of(v.as_slice());
            }
        } else if begins_with(t.as_slice(), chars_of("Mount Point:").as_slice()) {
            let v = value_in_line(t.as_slice(), "Mount Point:");
            if v.len() > 0 && !same_text(
                v.as_slice(),
                chars_of("Not applicable (no file system)").as_slice(),
            ) {
                self.mount_point = Some(string_of(v.as_slice()));
            }
        } else if begins_with(t.as_slice(), chars_of("Removable Media:").as_slice()) {
            let label = chars_of("Removable Media:");
            let value = copy_range(t.as_slice(), label.len(), t.len());
            assert(value@ == t@.skip("Removable Media:"@.len() as int));
            self.marked_removable = includes(value.as_slice(), chars_of("Removable").as_slice());
        } else if begins_with(t.as_slice(), chars_of("Protocol:").as_slice()) {
            if includes(t.as_slice(), chars_of("USB").as_slice()) {
                self.usb = true;
            }
        }
    }

    /// Decides [`removable`].
    pub fn is_removable(&self) -> (r: bool)
        ensures
            r == removable(self@),
    {
        self.marked_removable || self.usb
    }
}

/// Computes [`facts_of`].
pub fn read_disk_facts(info: &str) -> (r: DiskFacts)
    ensures
        r@ == facts_of(info@),
{
    let table = split_lines(chars_of(info).as_slice());
    let ghost all = lines(info@);
    let mut known = DiskFacts::new();
    let mut i: usize = 0;
    assert(all.take(0) == Seq::<Seq<char>>::empty());
    while i < table.len()
        invariant
            i <= table.len(),
            texts(table@) == all,
            known@ == read_lines(nothing_known(), all.take(i as int)),
        decreases table.len() - i,
    {
        assert(all.take(i + 1).drop_last() == all.take(i as int));
        assert(all.take(i + 1).last() == table[i as int]@) by {
            assert(texts(table@)[i as int] == table[i as int]@);
        }
        known.read_chars(table[i].as_slice());
        i += 1;
    }
    assert(all.take(table.len() as int) == all);
    known
}

/// The descriptor of the disk `disk_id`, from the description that the utility
/// printed of it.
pub fn get_macos_disk_info(disk_id: &str, info: &str) -> (r: Option<DriveInfo>)
    ensures
        r is Some <==> drive_of_disk(disk_id@, info@) is Some,
        r matches Some(d) ==> drive_of_disk(disk_id@, info@) == Some(d@),
{
    let known = read_disk_facts(info);
    if known.is_removable() && known.size_bytes > 0 {
        let mut path: Vec<char> = chars_of("/dev/");
        push_text(&mut path, disk_id);
        Some(
            DriveInfo {
                name: string_of(chars_of(disk_id).as_slice()),
                device_path: string_of(path.as_slice()),
                mount_path: known.mount_point,
                label: known.label,
                size_bytes: known.size_bytes,
            },
        )
    } else {
        None
    }
}

/// One disk of the list, with what the utility printed when asked to describe
/// it.
#[derive(Debug, Clone)]
pub struct DiskReport {
    /// The identifier of the disk.
    pub disk_id: String,
    /// The output of the utility; `None` where it could not be run or failed.
    pub output: Option<Vec<u8>>,
}

/// The descriptor that a report gives, if any.
pub open spec fn drive_of_report(report: DiskReport) -> Option<DriveView> {
    match report.output {
        Some(bytes) => drive_of_disk(report.disk_id@, utf8_lossy(bytes@)),
        None => None,
    }
}

/// The descriptors that the reports give, in the order of the reports.
pub open spec fn drives_of(reports: Seq<DiskReport>) -> Seq<DriveView>
    decreases reports.len(),
{
    if reports.len() == 0 {
        Seq::empty()
    } else {
        let before = drives_of(reports.drop_last());
        match drive_of_report(reports.last()) {
            Some(d) => before.push(d),
            None => before,
        }
    }
}

/// A report of a disk that its description shows to be removable.
pub open spec fn is_removable_disk(report: DiskReport) -> bool {
    report.output matches Some(bytes) && removable(facts_of(utf8_lossy(bytes@)))
}

/// No descriptor without media: every descriptor that the reports give has a
/// capacity above zero.
pub proof fn lemma_drives_have_media(reports: Seq<DiskReport>)
    ensures
        all_have_media(drives_of(reports)),
        drives_of(reports).len() <= reports.len(),
    decreases reports.len(),
{
    if reports.len() > 0 {
        lemma_drives_have_media(reports.drop_last());
    }
}

/// Where no disk is shown to be removable, discovery finds no drive.
pub proof fn lemma_nothing_removable(reports: Seq<DiskReport>)
    requires
        forall|i: int| 0 <= i < reports.len() ==> !is_removable_disk(#[trigger] reports[i]),
    ensures
        drives_of(reports) == Seq::<DriveView>::empty(),
    decreases reports.len(),
{
    if reports.len() > 0 {
        lemma_nothing_removable(reports.drop_last());
        assert(!is_removable_disk(reports.last()));
    }
}

/// The disks found in a list are whole disks, and each is there once.
pub proof fn lemma_disk_ids(table: Seq<Seq<char>>)
    ensures
        disk_ids_of(table).no_duplicates(),
        forall|i: int|
            0 <= i < disk_ids_of(table).len() ==> !looks_like_partition(
                #[trigger] disk_ids_of(table)[i],
            ),
        disk_ids_of(table).len() <= table.len(),
    decreases table.len(),
{
    if table.len() > 0 {
        lemma_disk_ids(table.drop_last());
    }
}

/// A list in which "disk" stands nowhere names no disk.
pub proof fn lemma_no_disk_named(table: Seq<Seq<char>>)
    requires
        forall|i: int| 0 <= i < table.len() ==> !contains(trim(#[trigger] table[i]), "disk"@),
    ensures
        disk_ids_of(table) == Seq::<Seq<char>>::empty(),
    decreases table.len(),
{
    if table.len() > 0 {
        lemma_no_disk_named(table.drop_last());
        let t = trim(table.last());
        assert(!contains(t, "disk"@));
        crate::text::search::lemma_find_contains(t, "disk"@);
    }
}

/// Computes [`drive_of_report`].
pub fn drive_from_report(report: &DiskReport) -> (r: Option<DriveInfo>)
    ensures
        r is Some <==> drive_of_report(*report) is Some,
        r matches Some(d) ==> drive_of_report(*report) == Some(d@),
        report.output is Some && valid_utf8(report.output->0@) ==> drive_of_report(*report)
            == drive_of_disk(report.disk_id@, decode_utf8(report.output->0@)),
{
    match &report.output {
        Some(bytes) => {
            let info = decode_utf8_lossy(bytes.as_slice());
            get_macos_disk_info(report.disk_id.as_str(), info.as_str())
        },
        None => None,
    }
}

/// The removable drives that hold media, among the disks reported and in their
/// order.
pub fn removable_drives(reports: &Vec<DiskReport>) -> (r: Vec<DriveInfo>)
    ensures
        drive_views(r@) == drives_of(reports@),
        all_have_media(drive_views(r@)),
{
    let mut out: Vec<DriveInfo> = Vec::new();
    let mut i: usize = 0;
    assert(reports@.take(0) == Seq::<DiskReport>::empty());
    assert(drive_views(out@) == Seq::<DriveView>::empty());
    while i < reports.len()
        invariant
            i <= reports.len(),
            drive_views(out@) == drives_of(reports@.take(i as int)),
            all_have_media(drive_views(out@)),
        decreases reports.len() - i,
    {
        let ghost before = out@;
        assert(reports@.take(i + 1).drop_last() == reports@.take(i as int));
        assert(reports@.take(i + 1).last() == reports[i as int]);
        match drive_from_report(&reports[i]) {
            Some(d) => {
                out.push(d);
                assert(drive_views(out@) == drive_views(before).push(d@));
            },
            None => {},
        }
        i += 1;
    }
    assert(reports@.take(reports.len() as int) == reports@);
    out
}

} // verus!
