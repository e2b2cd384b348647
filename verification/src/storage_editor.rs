//! What the partition editor shows for a disk and its staged plan: the disk
//! map's segments and the rows of the partition list. Drawing them is left
//! to the toolkit.

use vstd::prelude::*;
use crate::config_model::{
    mounts_view, operations_view, plan_error, MountAssignment, MountAssignmentView, PartitionOperation,
    PartitionOperationView, PartitionPlan, PartitionPlanView, PartitionRef, PartitionRefView,
};
use crate::draft::{remaining_region, remaining_region_of, PartitionDraft, PartitionSpec};
use crate::i18n::{tr, tr_text, Lang};
use crate::storage::{
    format_size, partitions_view, size_text, DiskSnapshot, DiskSnapshotView, FreeRegion,
    PartitionSnapshot, PartitionSnapshotView, GIB,
};
use crate::text::{
    ascii_upper, ascii_uppercase, contains_string, decimal, str_eq, to_owned_string, u64_to_string,
};

verus! {

/// The style class of a filesystem's colour in the editor.
pub open spec fn filesystem_class_of(fs: Seq<char>) -> Seq<char> {
    if fs == "vfat"@ || fs == "fat32"@ {
        "partition-efi"@
    } else if fs == "swap"@ {
        "partition-swap"@
    } else if fs == "ntfs"@ {
        "partition-ntfs"@
    } else if fs == "btrfs"@ || fs == "ext4"@ {
        "partition-linux"@
    } else {
        "partition-free"@
    }
}

/// The style class for a filesystem.
pub fn filesystem_class(filesystem: &str) -> (class: &'static str)
    ensures
        class@ == filesystem_class_of(filesystem@),
{
    if str_eq(filesystem, "vfat") || str_eq(filesystem, "fat32") {
        "partition-efi"
    } else if str_eq(filesystem, "swap") {
        "partition-swap"
    } else if str_eq(filesystem, "ntfs") {
        "partition-ntfs"
    } else if str_eq(filesystem, "btrfs") || str_eq(filesystem, "ext4") {
        "partition-linux"
    } else {
        "partition-free"
    }
}

/// How a partition is described: its role (EFI, root, swap) when it has one,
/// else its label, else its filesystem in capitals, else unknown.
pub open spec fn partition_description_of(p: PartitionSnapshotView, lang: Lang) -> Seq<char> {
    if p.mountpoints.contains("/boot/efi"@) || p.filesystem == "vfat"@ || p.filesystem == "fat32"@ {
        tr_text(lang, "storage.efi_partition"@)
    } else if p.mountpoints.contains("/"@) {
        tr_text(lang, "storage.root_partition"@)
    } else if p.filesystem == "swap"@ {
        tr_text(lang, "storage.swap_partition"@)
    } else if p.label.len() != 0 {
        p.label
    } else if p.filesystem.len() != 0 {
        p.filesystem.map_values(|c: char| ascii_upper(c))
    } else {
        tr_text(lang, "storage.unknown"@)
    }
}

fn mounted_at(p: &PartitionSnapshot, mount: &str) -> (r: bool)
    ensures
        r == p@.mountpoints.contains(mount@),
{
    let r = contains_string(p.mountpoints.as_slice(), mount);
    proof {
        let v = p@.mountpoints;
        if r {
            let i = choose|i: int| 0 <= i < p.mountpoints@.len() && (#[trigger] p.mountpoints@[i])@ == mount@;
            assert(v[i] == p.mountpoints@[i]@);
        } else {
            assert forall|i: int| 0 <= i < v.len() implies v[i] != mount@ by {
                assert(v[i] == p.mountpoints@[i]@);
            }
        }
    }
    r
}

/// A short description of an existing partition.
pub fn partition_description(partition: &PartitionSnapshot, lang: Lang) -> (s: String)
    ensures
        s@ == partition_description_of(partition@, lang),
{
    let fs = partition.filesystem.as_str();
    if mounted_at(partition, "/boot/efi") || str_eq(fs, "vfat") || str_eq(fs, "fat32") {
        tr(lang, "storage.efi_partition")
    } else if mounted_at(partition, "/") {
        tr(lang, "storage.root_partition")
    } else if str_eq(fs, "swap") {
        tr(lang, "storage.swap_partition")
    } else if partition.label.as_str().unicode_len() != 0 {
        to_owned_string(partition.label.as_str())
    } else if fs.unicode_len() != 0 {
        ascii_uppercase(fs)
    } else {
        tr(lang, "storage.unknown")
    }
}

/// The plan deletes the existing partition at `path`.
pub open spec fn deletes_existing(ops: Seq<PartitionOperationView>, path: Seq<char>) -> bool {
    exists|j: int| 0 <= j < ops.len()
        && (#[trigger] ops[j] matches PartitionOperationView::Delete { target: PartitionRefView::Existing { path: p, .. } } && p == path)
}

/// An optional plan's operations.
pub open spec fn plan_ops(plan: Option<PartitionPlanView>) -> Seq<PartitionOperationView> {
    match plan {
        Some(p) => p.operations,
        None => Seq::empty(),
    }
}

fn pending_delete(plan: Option<&PartitionPlan>, path: &str) -> (r: bool)
    ensures
        r == deletes_existing(plan_ops(opt_ref_view(plan)), path@),
{
    match plan {
        None => false,
        Some(p) => {
            let ghost ov = operations_view(p.operations@);
            assert(plan_ops(opt_ref_view(plan)) == ov);
            let mut j: usize = 0;
            while j < p.operations.len()
                invariant
                    ov == operations_view(p.operations@),
                    ov == plan_ops(opt_ref_view(plan)),
                    ov.len() == p.operations@.len(),
                    j <= p.operations@.len(),
                    forall|m: int| 0 <= m < j ==> !(#[trigger] ov[m] matches PartitionOperationView::Delete {
                        target: PartitionRefView::Existing { path: q, .. } } && q == path@),
                decreases p.operations@.len() - j,
            {
                assert(ov[j as int] == p.operations@[j as int]@);
                if let PartitionOperation::Delete { target: PartitionRef::Existing { path: q, .. } } = &p.operations[j] {
                    if str_eq(q.as_str(), path) {
                        assert(plan_ops(opt_ref_view(plan)) == ov);
                        assert(plan_ops(opt_ref_view(plan))[j as int] matches PartitionOperationView::Delete {
                            target: PartitionRefView::Existing { path: qq, .. } } && qq == path@);
                        return true;
                    }
                }
                j = j + 1;
            }
            false
        },
    }
}

/// The model of an optional plan reference.
pub open spec fn opt_ref_view(plan: Option<&PartitionPlan>) -> Option<PartitionPlanView> {
    match plan {
        Some(p) => Some(p@),
        None => None,
    }
}

/// One block of the disk map.
#[derive(Debug, Clone, PartialEq, Eq)]
pub struct DiskSegment {
    pub offset_bytes: u64,
    pub size_bytes: u64,
    pub label: String,
    pub class: String,
    pub tooltip: String,
    pub pending_delete: bool,
}

/// Mathematical model of a [`DiskSegment`].
pub struct DiskSegmentView {
    pub offset_bytes: u64,
    pub size_bytes: u64,
    pub label: Seq<char>,
    pub class: Seq<char>,
    pub tooltip: Seq<char>,
    pub pending_delete: bool,
}

impl View for DiskSegment {
    type V = DiskSegmentView;

    open spec fn view(&self) -> DiskSegmentView {
        DiskSegmentView {
            offset_bytes: self.offset_bytes,
            size_bytes: self.size_bytes,
            label: self.label@,
            class: self.class@,
            tooltip: self.tooltip@,
            pending_delete: self.pending_delete,
        }
    }
}

/// The models of a list of segments.
pub open spec fn segments_view(v: Seq<DiskSegment>) -> Seq<DiskSegmentView> {
    v.map_values(|s: DiskSegment| s@)
}

/// The separator used inside tooltips and subtitles.
pub open spec fn bullet() -> Seq<char> {
    " \u{2022} "@
}

/// The segment of existing partition `i`: named by its label (or path),
/// marked when the plan deletes it.
pub open spec fn existing_segment(p: PartitionSnapshotView, i: int, ops: Seq<PartitionOperationView>) -> DiskSegmentView {
    DiskSegmentView {
        offset_bytes: p.start_bytes,
        size_bytes: p.size_bytes,
        label: if p.label.len() == 0 { p.path } else { p.label },
        class: filesystem_class_of(p.filesystem),
        tooltip: p.path + bullet() + size_text(p.size_bytes) + bullet() + "#"@ + decimal((i + 1) as nat),
        pending_delete: deletes_existing(ops, p.path),
    }
}

/// The segment of a planned partition.
pub open spec fn planned_segment(op: PartitionOperationView, lang: Lang) -> Option<DiskSegmentView> {
    match op {
        PartitionOperationView::Create { offset_bytes, size_bytes, filesystem, label, .. } => Some(DiskSegmentView {
            offset_bytes: offset_bytes,
            size_bytes: size_bytes,
            label: if label.len() == 0 { "Sirius"@ } else { label },
            class: filesystem_class_of(filesystem),
            tooltip: tr_text(lang, "storage.pending"@) + bullet() + size_text(size_bytes),
            pending_delete: false,
        }),
        _ => None,
    }
}

/// The segment of what is left of a free region.
pub open spec fn free_segment(free: FreeRegion, lang: Lang) -> DiskSegmentView {
    DiskSegmentView {
        offset_bytes: free.offset_bytes,
        size_bytes: free.size_bytes,
        label: tr_text(lang, "storage.free"@),
        class: "partition-free"@,
        tooltip: tr_text(lang, "storage.free"@) + bullet() + size_text(free.size_bytes),
        pending_delete: false,
    }
}

/// The segments of the first `k` existing partitions.
pub open spec fn existing_segments(parts: Seq<PartitionSnapshotView>, ops: Seq<PartitionOperationView>, k: int) -> Seq<DiskSegmentView>
    decreases k,
{
    if k <= 0 {
        Seq::empty()
    } else {
        existing_segments(parts, ops, k - 1).push(existing_segment(parts[k - 1], k - 1, ops))
    }
}

/// The segments of the planned partitions among the first `k` operations.
pub open spec fn planned_segments(ops: Seq<PartitionOperationView>, lang: Lang, k: int) -> Seq<DiskSegmentView>
    decreases k,
{
    if k <= 0 {
        Seq::empty()
    } else {
        match planned_segment(ops[k - 1], lang) {
            Some(s) => planned_segments(ops, lang, k - 1).push(s),
            None => planned_segments(ops, lang, k - 1),
        }
    }
}

/// The segments of the free space left in the first `k` free regions.
pub open spec fn free_segments(disk: DiskSnapshotView, plan: Option<PartitionPlanView>, lang: Lang, k: int) -> Seq<DiskSegmentView>
    decreases k,
{
    if k <= 0 {
        Seq::empty()
    } else {
        match remaining_region_of(disk, plan, k - 1) {
            Some(f) => free_segments(disk, plan, lang, k - 1).push(free_segment(f, lang)),
            None => free_segments(disk, plan, lang, k - 1),
        }
    }
}

/// `s` with `x` placed after the last segment starting no later than it.
pub open spec fn insert_segment(s: Seq<DiskSegmentView>, x: DiskSegmentView) -> Seq<DiskSegmentView>
    decreases s.len(),
{
    if s.len() == 0 {
        seq![x]
    } else if s.last().offset_bytes <= x.offset_bytes {
        s.push(x)
    } else {
        insert_segment(s.drop_last(), x).push(s.last())
    }
}

/// `s` stably sorted by offset.
pub open spec fn sort_segments(s: Seq<DiskSegmentView>) -> Seq<DiskSegmentView>
    decreases s.len(),
{
    if s.len() == 0 {
        s
    } else {
        insert_segment(sort_segments(s.drop_last()), s.last())
    }
}

/// The disk map: existing partitions, planned ones, and the free space left,
/// ordered by offset (ties in that order).
pub open spec fn disk_map_of(disk: DiskSnapshotView, plan: Option<PartitionPlanView>, lang: Lang) -> Seq<DiskSegmentView> {
    let ops = plan_ops(plan);
    sort_segments(
        existing_segments(disk.partitions, ops, disk.partitions.len() as int)
            + planned_segments(ops, lang, ops.len() as int)
            + free_segments(disk, plan, lang, disk.free_regions.len() as int),
    )
}

proof fn lemma_insert_segment_split(s: Seq<DiskSegmentView>, x: DiskSegmentView, p: int)
    requires
        0 <= p <= s.len(),
        forall|k: int| p <= k < s.len() ==> (#[trigger] s[k]).offset_bytes > x.offset_bytes,
        p == 0 || s[p - 1].offset_bytes <= x.offset_bytes,
    ensures
        insert_segment(s, x) == s.subrange(0, p).push(x) + s.subrange(p, s.len() as int),
    decreases s.len(),
{
    if s.len() == 0 {
        assert(s.subrange(0, p).push(x) + s.subrange(p, s.len() as int) =~= seq![x]);
    } else if p == s.len() {
        assert(s.subrange(0, p) =~= s);
        assert(s.subrange(0, p).push(x) + s.subrange(p, s.len() as int) =~= s.push(x));
    } else {
        let t = s.drop_last();
        lemma_insert_segment_split(t, x, p);
        assert(t.subrange(0, p) =~= s.subrange(0, p));
        assert(s.subrange(0, p).push(x) + s.subrange(p, s.len() as int) =~= (t.subrange(0, p).push(x)
            + t.subrange(p, t.len() as int)).push(s.last()));
    }
}

fn insert_segment_exec(v: &mut Vec<DiskSegment>, x: DiskSegment)
    ensures
        segments_view(final(v)@) == insert_segment(segments_view(old(v)@), x@),
{
    let ghost s = segments_view(v@);
    let mut p: usize = v.len();
    while p > 0 && v[p - 1].offset_bytes > x.offset_bytes
        invariant
            s == segments_view(v@),
            s.len() == v@.len(),
            p <= v@.len(),
            forall|k: int| p <= k < s.len() ==> (#[trigger] s[k]).offset_bytes > x.offset_bytes,
        decreases p,
    {
        assert(s[p - 1] == v@[p - 1]@);
        p = p - 1;
    }
    proof {
        if p > 0 {
            assert(s[p - 1] == v@[p - 1]@);
        }
        lemma_insert_segment_split(s, x@, p as int);
    }
    v.insert(p, x);
    assert(segments_view(v@) =~= s.subrange(0, p as int).push(x@) + s.subrange(p as int, s.len() as int));
}

fn join3(a: &str, b: &str, c: &str) -> (s: String)
    ensures
        s@ == a@ + b@ + c@,
{
    let mut s = to_owned_string(a);
    s.append(b);
    s.append(c);
    s
}

/// The disk map's segments for `disk` and its staged `plan`, ordered by offset.
pub fn disk_segments(disk: &DiskSnapshot, plan: Option<&PartitionPlan>, lang: Lang) -> (r: Vec<DiskSegment>)
    ensures
        segments_view(r@) == disk_map_of(disk@, opt_ref_view(plan), lang),
{
    let ghost ops = plan_ops(opt_ref_view(plan));
    let ghost parts = disk@.partitions;
    let mut all: Vec<DiskSegment> = Vec::new();
    let mut i: usize = 0;
    assert(parts.len() == disk.partitions@.len());
    while i < disk.partitions.len()
        invariant
            ops == plan_ops(opt_ref_view(plan)),
            parts == disk@.partitions,
            parts.len() == disk.partitions@.len(),
            i <= disk.partitions@.len(),
            segments_view(all@) == existing_segments(parts, ops, i as int),
        decreases disk.partitions@.len() - i,
    {
        let p = &disk.partitions[i];
        assert(parts[i as int] == p@);
        let label = if p.label.as_str().unicode_len() == 0 {
            to_owned_string(p.path.as_str())
        } else {
            to_owned_string(p.label.as_str())
        };
        let size = format_size(p.size_bytes);
        let number = u64_to_string(i as u64 + 1);
        let mut tooltip = join3(p.path.as_str(), " \u{2022} ", size.as_str());
        tooltip.append(" \u{2022} ");
        tooltip.append("#");
        tooltip.append(number.as_str());
        let seg = DiskSegment {
            offset_bytes: p.start_bytes,
            size_bytes: p.size_bytes,
            label,
            class: to_owned_string(filesystem_class(p.filesystem.as_str())),
            tooltip,
            pending_delete: pending_delete(plan, p.path.as_str()),
        };
        let ghost before = segments_view(all@);
        all.push(seg);
        assert(segments_view(all@) =~= before.push(existing_segment(parts[i as int], i as int, ops)));
        i = i + 1;
    }
    let ghost after_existing = segments_view(all@);
    match plan {
        Some(pl) => {
            let ghost ov = operations_view(pl.operations@);
            assert(ov == ops);
            let mut k: usize = 0;
            assert(after_existing + planned_segments(ops, lang, 0) =~= after_existing);
            while k < pl.operations.len()
                invariant
                    ov == operations_view(pl.operations@),
                    ov == ops,
                    ov.len() == pl.operations@.len(),
                    k <= pl.operations@.len(),
                    segments_view(all@) == after_existing + planned_segments(ops, lang, k as int),
                decreases pl.operations@.len() - k,
            {
                assert(ov[k as int] == pl.operations@[k as int]@);
                if let PartitionOperation::Create { offset_bytes, size_bytes, filesystem, label, .. } = &pl.operations[k] {
                    let name = if label.as_str().unicode_len() == 0 {
                        to_owned_string("Sirius")
                    } else {
                        to_owned_string(label.as_str())
                    };
                    let pending = tr(lang, "storage.pending");
                    let size = format_size(*size_bytes);
                    let seg = DiskSegment {
                        offset_bytes: *offset_bytes,
                        size_bytes: *size_bytes,
                        label: name,
                        class: to_owned_string(filesystem_class(filesystem.as_str())),
                        tooltip: join3(pending.as_str(), " \u{2022} ", size.as_str()),
                        pending_delete: false,
                    };
                    let ghost before = segments_view(all@);
                    all.push(seg);
                    assert(segments_view(all@) =~= before.push(planned_segment(ov[k as int], lang).unwrap()));
                }
                k = k + 1;
            }
        },
        None => {
            assert(after_existing + planned_segments(ops, lang, 0) =~= after_existing);
        },
    }
    let ghost after_planned = segments_view(all@);
    assert(after_planned == after_existing + planned_segments(ops, lang, ops.len() as int));
    let mut f: usize = 0;
    assert(after_planned + free_segments(disk@, opt_ref_view(plan), lang, 0) =~= after_planned);
    while f < disk.free_regions.len()
        invariant
            f <= disk.free_regions@.len(),
            disk@.free_regions.len() == disk.free_regions@.len(),
            segments_view(all@) == after_planned + free_segments(disk@, opt_ref_view(plan), lang, f as int),
        decreases disk.free_regions@.len() - f,
    {
        match remaining_region(disk, plan, f) {
            Some(free) => {
                let label = tr(lang, "storage.free");
                let size = format_size(free.size_bytes);
                let seg = DiskSegment {
                    offset_bytes: free.offset_bytes,
                    size_bytes: free.size_bytes,
                    tooltip: join3(label.as_str(), " \u{2022} ", size.as_str()),
                    label,
                    class: to_owned_string("partition-free"),
                    pending_delete: false,
                };
                let ghost before = segments_view(all@);
                all.push(seg);
                assert(segments_view(all@) =~= before.push(free_segment(free, lang)));
            },
            None => {},
        }
        f = f + 1;
    }
    let ghost unsorted = segments_view(all@);
    let n = all.len();
    let mut sorted: Vec<DiskSegment> = Vec::new();
    let mut j: usize = 0;
    assert(unsorted.subrange(0, 0) =~= Seq::<DiskSegmentView>::empty());
    while j < n
        invariant
            unsorted == segments_view(all@),
            unsorted.len() == all@.len(),
            n == all@.len(),
            j <= n,
            segments_view(sorted@) == sort_segments(unsorted.subrange(0, j as int)),
        decreases n - j,
    {
        assert(unsorted.subrange(0, j + 1).drop_last() =~= unsorted.subrange(0, j as int));
        assert(unsorted.subrange(0, j + 1).last() == all@[j as int]@);
        let seg = DiskSegment {
            offset_bytes: all[j].offset_bytes,
            size_bytes: all[j].size_bytes,
            label: to_owned_string(all[j].label.as_str()),
            class: to_owned_string(all[j].class.as_str()),
            tooltip: to_owned_string(all[j].tooltip.as_str()),
            pending_delete: all[j].pending_delete,
        };
        insert_segment_exec(&mut sorted, seg);
        j = j + 1;
    }
    assert(unsorted.subrange(0, n as int) =~= unsorted);
    sorted
}

/// A row of the partition list for an existing partition.
#[derive(Debug, Clone, PartialEq, Eq)]
pub struct ExistingRow {
    pub index: usize,
    pub title: String,
    pub class: String,
    pub subtitle: String,
    pub size_bytes: u64,
    pub pending_delete: bool,
    pub edit_enabled: bool,
    pub delete_enabled: bool,
}

/// Mathematical model of an [`ExistingRow`].
pub struct ExistingRowView {
    pub index: usize,
    pub title: Seq<char>,
    pub class: Seq<char>,
    pub subtitle: Seq<char>,
    pub size_bytes: u64,
    pub pending_delete: bool,
    pub edit_enabled: bool,
    pub delete_enabled: bool,
}

impl View for ExistingRow {
    type V = ExistingRowView;

    open spec fn view(&self) -> ExistingRowView {
        ExistingRowView {
            index: self.index,
            title: self.title@,
            class: self.class@,
            subtitle: self.subtitle@,
            size_bytes: self.size_bytes,
            pending_delete: self.pending_delete,
            edit_enabled: self.edit_enabled,
            delete_enabled: self.delete_enabled,
        }
    }
}

/// The row of existing partition `i`: path and description, filesystem and
/// first mount point, size; a partition the plan deletes cannot be edited or
/// deleted again, and a mounted one cannot be deleted.
pub open spec fn existing_row(p: PartitionSnapshotView, i: usize, ops: Seq<PartitionOperationView>, lang: Lang) -> ExistingRowView {
    let pending = deletes_existing(ops, p.path);
    ExistingRowView {
        index: i,
        title: p.path + " ("@ + partition_description_of(p, lang) + ")"@,
        class: filesystem_class_of(p.filesystem),
        subtitle: (if p.filesystem.len() == 0 { tr_text(lang, "storage.unknown"@) } else { p.filesystem }) + bullet()
            + (if p.mountpoints.len() > 0 { p.mountpoints[0] } else { tr_text(lang, "storage.not_mounted"@) }),
        size_bytes: p.size_bytes,
        pending_delete: pending,
        edit_enabled: !pending,
        delete_enabled: p.mountpoints.len() == 0 && !pending,
    }
}

/// The rows of all existing partitions, in disk order.
pub fn existing_rows(disk: &DiskSnapshot, plan: Option<&PartitionPlan>, lang: Lang) -> (r: Vec<ExistingRow>)
    ensures
        r@.len() == disk@.partitions.len(),
        forall|i: int| 0 <= i < r@.len() ==> (#[trigger] r@[i])@ == existing_row(disk@.partitions[i], i as usize, plan_ops(opt_ref_view(plan)), lang),
{
    let ghost ops = plan_ops(opt_ref_view(plan));
    let mut r: Vec<ExistingRow> = Vec::new();
    let mut i: usize = 0;
    while i < disk.partitions.len()
        invariant
            ops == plan_ops(opt_ref_view(plan)),
            i <= disk.partitions@.len(),
            disk@.partitions.len() == disk.partitions@.len(),
            r@.len() == i,
            forall|k: int| 0 <= k < i ==> (#[trigger] r@[k])@ == existing_row(disk@.partitions[k], k as usize, ops, lang),
        decreases disk.partitions@.len() - i,
    {
        let p = &disk.partitions[i];
        assert(disk@.partitions[i as int] == p@);
        let pending = pending_delete(plan, p.path.as_str());
        let desc = partition_description(p, lang);
        let title = join3(p.path.as_str(), " (", desc.as_str());
        let mut title = title;
        title.append(")");
        let fs = if p.filesystem.as_str().unicode_len() == 0 {
            tr(lang, "storage.unknown")
        } else {
            to_owned_string(p.filesystem.as_str())
        };
        let mount = if p.mountpoints.len() > 0 {
            assert(p@.mountpoints[0] == p.mountpoints@[0]@);
            to_owned_string(p.mountpoints[0].as_str())
        } else {
            tr(lang, "storage.not_mounted")
        };
        assert(p@.mountpoints.len() == p.mountpoints@.len());
        let subtitle = join3(fs.as_str(), " \u{2022} ", mount.as_str());
        r.push(ExistingRow {
            index: i,
            title,
            class: to_owned_string(filesystem_class(p.filesystem.as_str())),
            subtitle,
            size_bytes: p.size_bytes,
            pending_delete: pending,
            edit_enabled: !pending,
            delete_enabled: p.mountpoints.len() == 0 && !pending,
        });
        i = i + 1;
    }
    r
}

/// A row of the partition list for a free region.
#[derive(Debug, Clone, PartialEq, Eq)]
pub struct FreeRow {
    pub index: usize,
    pub title: String,
    pub subtitle: String,
    pub size_bytes: u64,
    pub add_enabled: bool,
}

/// The row of free region `i`: "pending" once planned partitions took part
/// of it, its remaining size (0 when nothing usable is left), and whether a
/// partition can still be created there.
pub open spec fn free_row_ok(row: FreeRow, disk: DiskSnapshotView, plan: Option<PartitionPlanView>, i: int, lang: Lang) -> bool {
    let remaining = remaining_region_of(disk, plan, i);
    let used = remaining matches Some(f) && f.size_bytes < disk.free_regions[i].size_bytes;
    &&& row.index == i
    &&& row.title@ == tr_text(lang, if used { "storage.pending"@ } else { "storage.free"@ })
    &&& row.subtitle@ == tr_text(lang, "storage.unformatted"@)
    &&& row.size_bytes == match remaining {
        Some(f) => f.size_bytes,
        None => 0,
    }
    &&& row.add_enabled == remaining is Some
}

/// The rows of all free regions, in disk order.
pub fn free_rows(disk: &DiskSnapshot, plan: Option<&PartitionPlan>, lang: Lang) -> (r: Vec<FreeRow>)
    ensures
        r@.len() == disk@.free_regions.len(),
        forall|i: int| 0 <= i < r@.len() ==> free_row_ok(#[trigger] r@[i], disk@, opt_ref_view(plan), i, lang),
{
    let mut r: Vec<FreeRow> = Vec::new();
    let mut i: usize = 0;
    while i < disk.free_regions.len()
        invariant
            i <= disk.free_regions@.len(),
            disk@.free_regions.len() == disk.free_regions@.len(),
            r@.len() == i,
            forall|k: int| 0 <= k < i ==> free_row_ok(#[trigger] r@[k], disk@, opt_ref_view(plan), k, lang),
        decreases disk.free_regions@.len() - i,
    {
        let remaining = remaining_region(disk, plan, i);
        let used = match remaining {
            Some(f) => f.size_bytes < disk.free_regions[i].size_bytes,
            None => false,
        };
        let title = if used { tr(lang, "storage.pending") } else { tr(lang, "storage.free") };
        let size = match remaining {
            Some(f) => f.size_bytes,
            None => 0,
        };
        r.push(FreeRow {
            index: i,
            title,
            subtitle: tr(lang, "storage.unformatted"),
            size_bytes: size,
            add_enabled: remaining.is_some(),
        });
        i = i + 1;
    }
    r
}

/// A row of the partition list for a planned partition.
#[derive(Debug, Clone, PartialEq, Eq)]
pub struct PlannedRow {
    pub id: String,
    pub class: String,
    pub title: String,
    pub subtitle: String,
    pub size_bytes: u64,
}

/// Mathematical model of a [`PlannedRow`].
pub struct PlannedRowView {
    pub id: Seq<char>,
    pub class: Seq<char>,
    pub title: Seq<char>,
    pub subtitle: Seq<char>,
    pub size_bytes: u64,
}

impl View for PlannedRow {
    type V = PlannedRowView;

    open spec fn view(&self) -> PlannedRowView {
        PlannedRowView {
            id: self.id@,
            class: self.class@,
            title: self.title@,
            subtitle: self.subtitle@,
            size_bytes: self.size_bytes,
        }
    }
}

/// The mount point of the first assignment among `ms[0..k]` for planned partition `id`.
pub open spec fn planned_mount_upto(ms: Seq<MountAssignmentView>, id: Seq<char>, k: int) -> Option<Seq<char>>
    decreases k,
{
    if k <= 0 {
        None
    } else {
        match planned_mount_upto(ms, id, k - 1) {
            Some(m) => Some(m),
            None => if ms[k - 1].target == (PartitionRefView::Planned { id: id }) {
                Some(ms[k - 1].mount_point)
            } else {
                None
            },
        }
    }
}

/// The row of a planned partition: its label (or "new partition"), its
/// filesystem and mount point, its size.
pub open spec fn planned_row(op: PartitionOperationView, ms: Seq<MountAssignmentView>, lang: Lang) -> Option<PlannedRowView> {
    match op {
        PartitionOperationView::Create { id, size_bytes, filesystem, label, .. } => Some(PlannedRowView {
            id: id,
            class: filesystem_class_of(filesystem),
            title: if label.len() == 0 { tr_text(lang, "storage.new_partition"@) } else { label },
            subtitle: filesystem + bullet() + match planned_mount_upto(ms, id, ms.len() as int) {
                Some(m) => m,
                None => tr_text(lang, "storage.not_mounted"@),
            },
            size_bytes: size_bytes,
        }),
        _ => None,
    }
}

/// The rows of the planned partitions among the first `k` operations.
pub open spec fn planned_rows_upto(ops: Seq<PartitionOperationView>, ms: Seq<MountAssignmentView>, lang: Lang, k: int) -> Seq<PlannedRowView>
    decreases k,
{
    if k <= 0 {
        Seq::empty()
    } else {
        match planned_row(ops[k - 1], ms, lang) {
            Some(row) => planned_rows_upto(ops, ms, lang, k - 1).push(row),
            None => planned_rows_upto(ops, ms, lang, k - 1),
        }
    }
}

fn planned_mount(mounts: &Vec<MountAssignment>, id: &str) -> (r: Option<String>)
    ensures
        r.deep_view() == planned_mount_upto(mounts_view(mounts@), id@, mounts@.len() as int),
{
    let ghost mv = mounts_view(mounts@);
    let mut k: usize = 0;
    while k < mounts.len()
        invariant
            mv == mounts_view(mounts@),
            mv.len() == mounts@.len(),
            k <= mounts@.len(),
            planned_mount_upto(mv, id@, k as int) is None,
        decreases mounts@.len() - k,
    {
        assert(mv[k as int] == mounts@[k as int]@);
        if let PartitionRef::Planned { id: other } = &mounts[k].target {
            if str_eq(other.as_str(), id) {
                proof {
                    lemma_planned_mount_stable(mv, id@, k + 1, mv.len() as int);
                }
                return Some(to_owned_string(mounts[k].mount_point.as_str()));
            }
        }
        k = k + 1;
    }
    None
}

proof fn lemma_planned_mount_stable(ms: Seq<MountAssignmentView>, id: Seq<char>, k: int, n: int)
    requires
        0 <= k <= n,
        planned_mount_upto(ms, id, k) is Some,
    ensures
        planned_mount_upto(ms, id, n) == planned_mount_upto(ms, id, k),
    decreases n - k,
{
    if n > k {
        lemma_planned_mount_stable(ms, id, k, n - 1);
    }
}

/// The rows of the partitions `plan` creates, in plan order.
pub fn planned_rows(plan: &PartitionPlan, lang: Lang) -> (r: Vec<PlannedRow>)
    ensures
        r@.map_values(|x: PlannedRow| x@) == planned_rows_upto(plan@.operations, plan@.mounts, lang, plan@.operations.len() as int),
{
    let ghost ov = plan@.operations;
    let mut r: Vec<PlannedRow> = Vec::new();
    let mut k: usize = 0;
    assert(r@.map_values(|x: PlannedRow| x@) =~= Seq::<PlannedRowView>::empty());
    while k < plan.operations.len()
        invariant
            ov == plan@.operations,
            ov.len() == plan.operations@.len(),
            k <= plan.operations@.len(),
            r@.map_values(|x: PlannedRow| x@) == planned_rows_upto(ov, plan@.mounts, lang, k as int),
        decreases plan.operations@.len() - k,
    {
        assert(ov[k as int] == plan.operations@[k as int]@);
        if let PartitionOperation::Create { id, size_bytes, filesystem, label, .. } = &plan.operations[k] {
            let title = if label.as_str().unicode_len() == 0 {
                tr(lang, "storage.new_partition")
            } else {
                to_owned_string(label.as_str())
            };
            let mount = match planned_mount(&plan.mounts, id.as_str()) {
                Some(m) => m,
                None => tr(lang, "storage.not_mounted"),
            };
            let row = PlannedRow {
                id: to_owned_string(id.as_str()),
                class: to_owned_string(filesystem_class(filesystem.as_str())),
                title,
                subtitle: join3(filesystem.as_str(), " \u{2022} ", mount.as_str()),
                size_bytes: *size_bytes,
            };
            let ghost before = r@.map_values(|x: PlannedRow| x@);
            r.push(row);
            assert(r@.map_values(|x: PlannedRow| x@) =~= before.push(planned_row(ov[k as int], plan@.mounts, lang).unwrap()));
        }
        k = k + 1;
    }
    r
}

/// The editor's heading for a disk: its path, model and size.
pub fn disk_title(disk: &DiskSnapshot) -> (s: String)
    ensures
        s@ == disk@.path + " ("@ + disk@.model + " \u{2014} "@ + size_text(disk@.size_bytes) + ")"@,
{
    let size = format_size(disk.size_bytes);
    let mut s = join3(disk.path.as_str(), " (", disk.model.as_str());
    s.append(" \u{2014} ");
    s.append(size.as_str());
    s.append(")");
    s
}

/// The partition-table badge: "Partition table: GPT" and the like.
pub fn table_badge(disk: &DiskSnapshot, lang: Lang) -> (s: String)
    ensures
        s@ == tr_text(lang, "storage.table"@) + ": "@ + disk@.table_type.map_values(|c: char| ascii_upper(c)),
{
    let label = tr(lang, "storage.table");
    let kind = ascii_uppercase(disk.table_type.as_str());
    join3(label.as_str(), ": ", kind.as_str())
}

/// The editor's error line: the last edit's error, else the draft's validation error.
pub fn editor_error(edit_error: Option<&str>, draft: Option<&PartitionDraft>, uefi: bool) -> (r: Option<String>)
    ensures
        edit_error matches Some(e) ==> r matches Some(m) && m@ == e@,
        edit_error is None && draft is None ==> r is None,
        edit_error is None ==> (draft matches Some(d) ==> match plan_error(d@.plan, uefi) {
            Some(e) => r matches Some(m) && m@ == e,
            None => r is None,
        }),
{
    match edit_error {
        Some(e) => Some(to_owned_string(e)),
        None => match draft {
            Some(d) => match d.validate(uefi) {
                Ok(()) => None,
                Err(e) => Some(e),
            },
            None => None,
        },
    }
}

/// Whether the draft stages any change (the editor then offers to discard it).
pub fn draft_is_dirty(draft: Option<&PartitionDraft>) -> (r: bool)
    ensures
        r == (draft matches Some(d) && d@.plan.operations.len() > 0),
{
    match draft {
        Some(d) => d.plan().operations.len() > 0,
        None => false,
    }
}

/// The map's segments account for every existing partition, every planned
/// one, and every free region with space left, and they come ordered by offset.
pub proof fn law_disk_map_is_ordered(s: Seq<DiskSegmentView>)
    ensures
        sort_segments(s).len() == s.len(),
        forall|i: int, j: int| 0 <= i < j < sort_segments(s).len()
            ==> (#[trigger] sort_segments(s)[i]).offset_bytes <= (#[trigger] sort_segments(s)[j]).offset_bytes,
    decreases s.len(),
{
    if s.len() > 0 {
        law_disk_map_is_ordered(s.drop_last());
        lemma_insert_keeps_order(sort_segments(s.drop_last()), s.last());
    }
}

proof fn lemma_insert_keeps_order(s: Seq<DiskSegmentView>, x: DiskSegmentView)
    requires
        forall|i: int, j: int| 0 <= i < j < s.len() ==> (#[trigger] s[i]).offset_bytes <= (#[trigger] s[j]).offset_bytes,
    ensures
        insert_segment(s, x).len() == s.len() + 1,
        forall|i: int, j: int| 0 <= i < j < insert_segment(s, x).len()
            ==> (#[trigger] insert_segment(s, x)[i]).offset_bytes <= (#[trigger] insert_segment(s, x)[j]).offset_bytes,
    decreases s.len(),
{
    if s.len() == 0 {
    } else if s.last().offset_bytes <= x.offset_bytes {
        let r = s.push(x);
        assert forall|i: int, j: int| 0 <= i < j < r.len() implies (#[trigger] r[i]).offset_bytes <= (#[trigger] r[j]).offset_bytes by {
            if j == s.len() {
                if i < s.len() - 1 {
                    assert(s[i].offset_bytes <= s[s.len() - 1].offset_bytes);
                }
            }
        }
    } else {
        let t = s.drop_last();
        assert forall|i: int, j: int| 0 <= i < j < t.len() implies (#[trigger] t[i]).offset_bytes <= (#[trigger] t[j]).offset_bytes by {
            assert(t[i] == s[i] && t[j] == s[j]);
        }
        lemma_insert_keeps_order(t, x);
        let u = insert_segment(t, x);
        let r = u.push(s.last());
        lemma_insert_members(t, x);
        assert forall|i: int, j: int| 0 <= i < j < r.len() implies (#[trigger] r[i]).offset_bytes <= (#[trigger] r[j]).offset_bytes by {
            if j == u.len() {
                let e = u[i];
                if e == x {
                } else {
                    let m = choose|m: int| 0 <= m < t.len() && t[m] == e;
                    assert(s[m].offset_bytes <= s[s.len() - 1].offset_bytes);
                }
            }
        }
    }
}

proof fn lemma_insert_members(s: Seq<DiskSegmentView>, x: DiskSegmentView)
    ensures
        forall|i: int| 0 <= i < insert_segment(s, x).len() ==> (#[trigger] insert_segment(s, x)[i]) == x
            || exists|m: int| 0 <= m < s.len() && s[m] == insert_segment(s, x)[i],
    decreases s.len(),
{
    if s.len() > 0 && s.last().offset_bytes > x.offset_bytes {
        let t = s.drop_last();
        lemma_insert_members(t, x);
        let u = insert_segment(t, x);
        let r = u.push(s.last());
        assert forall|i: int| 0 <= i < r.len() implies (#[trigger] r[i]) == x
            || exists|m: int| 0 <= m < s.len() && s[m] == r[i] by {
            if i == u.len() {
                assert(s[s.len() - 1] == r[i]);
            } else {
                if u[i] != x {
                    let m = choose|m: int| 0 <= m < t.len() && t[m] == u[i];
                    assert(s[m] == r[i]);
                }
            }
        }
    } else if s.len() > 0 {
        let r = s.push(x);
        assert forall|i: int| 0 <= i < r.len() implies (#[trigger] r[i]) == x
            || exists|m: int| 0 <= m < s.len() && s[m] == r[i] by {
            if i < s.len() {
                assert(s[i] == r[i]);
            }
        }
    }
}

// ---------------------------------------------------------------------------
// The create / edit partition form
// ---------------------------------------------------------------------------

/// What the partition form creates or edits.
pub enum DialogTarget {
    /// A new partition in free region `0`, which has the space `1` left.
    Create(usize, FreeRegion),
    /// Existing partition `0` of the disk.
    Edit(usize),
    /// The planned partition with this id.
    EditPlanned(String),
}

/// What the form is prefilled from when it edits something.
pub enum EditSource {
    /// A partition on the disk.
    Existing(PartitionSnapshot),
    /// A planned partition: what was chosen for it, and how far it may grow.
    Planned { filesystem: String, size_bytes: u64, max_size_bytes: u64, mount_point: String, label: String },
}

/// The form's starting values: the spec it shows, the position of its
/// filesystem in the offered list, the largest size it offers, and whether
/// the size may be changed.
pub struct DialogPrefill {
    pub spec: PartitionSpec,
    pub filesystem_index: usize,
    pub max_size_bytes: u64,
    pub size_editable: bool,
}

/// The filesystem offered at position `i` of the form's list: btrfs, ext4, vfat, swap.
pub open spec fn offered_filesystem(i: int) -> Seq<char> {
    if i == 0 {
        "btrfs"@
    } else if i == 1 {
        "ext4"@
    } else if i == 2 {
        "vfat"@
    } else {
        "swap"@
    }
}

/// The position of `fs` in the offered list; a filesystem not offered gets the first.
pub open spec fn offered_position(fs: Seq<char>) -> usize {
    if fs == "ext4"@ {
        1
    } else if fs == "vfat"@ {
        2
    } else if fs == "swap"@ {
        3
    } else {
        0
    }
}

/// The filesystem the source has (btrfs for a new partition).
pub open spec fn source_filesystem(source: Option<EditSource>) -> Seq<char> {
    match source {
        Some(EditSource::Existing(p)) => p.filesystem@,
        Some(EditSource::Planned { filesystem, .. }) => filesystem@,
        None => "btrfs"@,
    }
}

/// The mount point the form starts with: an existing partition's first mount
/// point, a planned one's chosen mount point, or nothing.
pub open spec fn source_mount_point(source: Option<EditSource>) -> Seq<char> {
    match source {
        Some(EditSource::Existing(p)) => if p.mountpoints@.len() > 0 { p.mountpoints@[0]@ } else { Seq::empty() },
        Some(EditSource::Planned { mount_point, .. }) => mount_point@,
        None => Seq::empty(),
    }
}

/// The label the form starts with.
pub open spec fn source_label(source: Option<EditSource>) -> Seq<char> {
    match source {
        Some(EditSource::Existing(p)) => p.label@,
        Some(EditSource::Planned { label, .. }) => label@,
        None => Seq::empty(),
    }
}

/// The largest size the form offers and the size it starts with: the whole
/// free region for a new partition; an existing partition's own size (both);
/// a planned partition's size, up to how far it may grow; 1 GiB otherwise.
pub open spec fn form_sizes(target: DialogTarget, source: Option<EditSource>) -> (u64, u64) {
    match target {
        DialogTarget::Create(_, free) => (free.size_bytes, free.size_bytes),
        DialogTarget::Edit(_) => match source {
            Some(EditSource::Existing(p)) => (p.size_bytes, p.size_bytes),
            _ => (GIB, GIB),
        },
        DialogTarget::EditPlanned(_) => match source {
            Some(EditSource::Planned { size_bytes, max_size_bytes, .. }) => (max_size_bytes, size_bytes),
            _ => (GIB, GIB),
        },
    }
}

fn offered_index(fs: &str) -> (i: usize)
    ensures
        i == offered_position(fs@),
{
    if str_eq(fs, "ext4") {
        1
    } else if str_eq(fs, "vfat") {
        2
    } else if str_eq(fs, "swap") {
        3
    } else {
        0
    }
}

fn offered_name(i: usize) -> (s: String)
    ensures
        s@ == offered_filesystem(i as int),
{
    if i == 0 {
        to_owned_string("btrfs")
    } else if i == 1 {
        to_owned_string("ext4")
    } else if i == 2 {
        to_owned_string("vfat")
    } else {
        to_owned_string("swap")
    }
}

/// The partition form's starting values for `target`, prefilled from
/// `source` when it edits something: the source's filesystem when the form
/// offers it (btrfs otherwise, and for a new partition), its mount point and
/// label, and the sizes of `form_sizes`. The size is fixed only when an
/// existing partition is edited.
pub fn dialog_prefill(target: &DialogTarget, source: &Option<EditSource>) -> (r: DialogPrefill)
    ensures
        r.filesystem_index == offered_position(source_filesystem(*source)),
        r.spec.filesystem@ == offered_filesystem(r.filesystem_index as int),
        r.spec.mount_point@ == source_mount_point(*source),
        r.spec.label@ == source_label(*source),
        (r.max_size_bytes, r.spec.size_bytes) == form_sizes(*target, *source),
        r.size_editable == !(target is Edit),
{
    let index = match source {
        Some(EditSource::Existing(p)) => offered_index(p.filesystem.as_str()),
        Some(EditSource::Planned { filesystem, .. }) => offered_index(filesystem.as_str()),
        None => 0,
    };
    proof {
        reveal_strlit("btrfs");
        reveal_strlit("ext4");
        reveal_strlit("vfat");
        reveal_strlit("swap");
        assert("btrfs"@.len() == 5 && "ext4"@.len() == 4 && "vfat"@.len() == 4 && "swap"@.len() == 4);
        assert(offered_position("btrfs"@) == 0);
    }
    let mount_point = match source {
        Some(EditSource::Existing(p)) => if p.mountpoints.len() > 0 {
            to_owned_string(p.mountpoints[0].as_str())
        } else {
            String::new()
        },
        Some(EditSource::Planned { mount_point, .. }) => to_owned_string(mount_point.as_str()),
        None => String::new(),
    };
    let label = match source {
        Some(EditSource::Existing(p)) => to_owned_string(p.label.as_str()),
        Some(EditSource::Planned { label, .. }) => to_owned_string(label.as_str()),
        None => String::new(),
    };
    let (max_size_bytes, size_bytes) = match target {
        DialogTarget::Create(_, free) => (free.size_bytes, free.size_bytes),
        DialogTarget::Edit(_) => match source {
            Some(EditSource::Existing(p)) => (p.size_bytes, p.size_bytes),
            _ => (GIB, GIB),
        },
        DialogTarget::EditPlanned(_) => match source {
            Some(EditSource::Planned { size_bytes, max_size_bytes, .. }) => (*max_size_bytes, *size_bytes),
            _ => (GIB, GIB),
        },
    };
    let size_editable = match target {
        DialogTarget::Edit(_) => false,
        _ => true,
    };
    DialogPrefill {
        spec: PartitionSpec { size_bytes, filesystem: offered_name(index), mount_point, label },
        filesystem_index: index,
        max_size_bytes,
        size_editable,
    }
}

} // verus!
