//! Disk topology as the installer sees it, and the checks that tie a staged
//! partition plan to the live disk before anything is written.
//!
//! Discovery itself (running `lsblk`, talking to UDisks2) happens outside this
//! library; here the block devices it reports are filtered into install
//! targets, their free space is computed, and a plan is checked against them.

use vstd::prelude::*;
use crate::config_model::{
    MountAssignment, MountAssignmentView, PartitionOperation, PartitionOperationView, PartitionPlan, PartitionPlanView,
    PartitionRef, PartitionRefView, mounts_view, operations_view, unit_result_view,
    validation_result,
};
use crate::text::{
    ascii_upper, ascii_uppercase, format_no_decimals, format_one_decimal, has_prefix, no_decimals,
    is_blank, one_decimal, starts_with, str_eq, to_owned_string, trim, trimmed,
};

verus! {

/// One mebibyte.
pub const MIB: u64 = 1048576;

/// One gibibyte.
pub const GIB: u64 = 1073741824;

/// A contiguous stretch of unallocated space on a disk.
#[derive(Debug, Clone, Copy, PartialEq, Eq, Structural)]
pub struct FreeRegion {
    pub offset_bytes: u64,
    pub size_bytes: u64,
}

/// A partition as currently found on a disk.
#[derive(Debug, Clone, PartialEq, Eq)]
pub struct PartitionSnapshot {
    pub path: String,
    pub start_bytes: u64,
    pub size_bytes: u64,
    pub filesystem: String,
    pub label: String,
    pub mountpoints: Vec<String>,
    pub gpt_type: String,
    pub part_uuid: String,
}

/// A whole disk as currently found, with its partitions and free space.
#[derive(Debug, Clone, PartialEq, Eq)]
pub struct DiskSnapshot {
    pub path: String,
    pub model: String,
    pub size_bytes: u64,
    pub table_type: String,
    pub read_only: bool,
    pub in_use: bool,
    pub partitions: Vec<PartitionSnapshot>,
    pub free_regions: Vec<FreeRegion>,
}

/// Mathematical model of a [`PartitionSnapshot`].
pub struct PartitionSnapshotView {
    pub path: Seq<char>,
    pub start_bytes: u64,
    pub size_bytes: u64,
    pub filesystem: Seq<char>,
    pub label: Seq<char>,
    pub mountpoints: Seq<Seq<char>>,
    pub gpt_type: Seq<char>,
    pub part_uuid: Seq<char>,
}

/// Mathematical model of a [`DiskSnapshot`].
pub struct DiskSnapshotView {
    pub path: Seq<char>,
    pub model: Seq<char>,
    pub size_bytes: u64,
    pub table_type: Seq<char>,
    pub read_only: bool,
    pub in_use: bool,
    pub partitions: Seq<PartitionSnapshotView>,
    pub free_regions: Seq<FreeRegion>,
}

impl View for PartitionSnapshot {
    type V = PartitionSnapshotView;

    open spec fn view(&self) -> PartitionSnapshotView {
        PartitionSnapshotView {
            path: self.path@,
            start_bytes: self.start_bytes,
            size_bytes: self.size_bytes,
            filesystem: self.filesystem@,
            label: self.label@,
            mountpoints: self.mountpoints.deep_view(),
            gpt_type: self.gpt_type@,
            part_uuid: self.part_uuid@,
        }
    }
}

/// The models of a list of partitions.
pub open spec fn partitions_view(ps: Seq<PartitionSnapshot>) -> Seq<PartitionSnapshotView> {
    ps.map_values(|p: PartitionSnapshot| p@)
}

impl View for DiskSnapshot {
    type V = DiskSnapshotView;

    open spec fn view(&self) -> DiskSnapshotView {
        DiskSnapshotView {
            path: self.path@,
            model: self.model@,
            size_bytes: self.size_bytes,
            table_type: self.table_type@,
            read_only: self.read_only,
            in_use: self.in_use,
            partitions: partitions_view(self.partitions@),
            free_regions: self.free_regions@,
        }
    }
}

/// A copy of a list of strings.
pub fn copy_strings(v: &Vec<String>) -> (r: Vec<String>)
    ensures
        r.deep_view() == v.deep_view(),
{
    let mut r: Vec<String> = Vec::new();
    let mut i: usize = 0;
    while i < v.len()
        invariant
            i <= v@.len(),
            r@.len() == i,
            forall|k: int| 0 <= k < i ==> (#[trigger] r@[k])@ == v@[k]@,
        decreases v@.len() - i,
    {
        r.push(to_owned_string(v[i].as_str()));
        i = i + 1;
    }
    assert(r.deep_view() =~= v.deep_view());
    r
}

impl PartitionSnapshot {
    /// A copy of this partition.
    pub fn duplicate(&self) -> (r: PartitionSnapshot)
        ensures
            r@ == self@,
    {
        PartitionSnapshot {
            path: to_owned_string(self.path.as_str()),
            start_bytes: self.start_bytes,
            size_bytes: self.size_bytes,
            filesystem: to_owned_string(self.filesystem.as_str()),
            label: to_owned_string(self.label.as_str()),
            mountpoints: copy_strings(&self.mountpoints),
            gpt_type: to_owned_string(self.gpt_type.as_str()),
            part_uuid: to_owned_string(self.part_uuid.as_str()),
        }
    }
}

/// A copy of a list of partitions.
pub fn copy_partitions(v: &Vec<PartitionSnapshot>) -> (r: Vec<PartitionSnapshot>)
    ensures
        partitions_view(r@) == partitions_view(v@),
{
    let mut r: Vec<PartitionSnapshot> = Vec::new();
    let mut i: usize = 0;
    while i < v.len()
        invariant
            i <= v@.len(),
            r@.len() == i,
            forall|k: int| 0 <= k < i ==> (#[trigger] r@[k])@ == v@[k]@,
        decreases v@.len() - i,
    {
        r.push(v[i].duplicate());
        i = i + 1;
    }
    assert(partitions_view(r@) =~= partitions_view(v@));
    r
}

impl DiskSnapshot {
    /// A copy of this disk.
    pub fn duplicate(&self) -> (r: DiskSnapshot)
        ensures
            r@ == self@,
    {
        DiskSnapshot {
            path: to_owned_string(self.path.as_str()),
            model: to_owned_string(self.model.as_str()),
            size_bytes: self.size_bytes,
            table_type: to_owned_string(self.table_type.as_str()),
            read_only: self.read_only,
            in_use: self.in_use,
            partitions: copy_partitions(&self.partitions),
            free_regions: self.free_regions.clone(),
        }
    }
}

// ---------------------------------------------------------------------------
// Sizes for display
// ---------------------------------------------------------------------------

/// How a size is shown: GiB with one decimal from 1 GiB up, whole MiB below.
pub open spec fn size_text(bytes: u64) -> Seq<char> {
    if bytes >= GIB {
        one_decimal(bytes as nat, GIB as nat) + " GiB"@
    } else {
        no_decimals(bytes as nat, MIB as nat) + " MiB"@
    }
}

/// A human-readable size, e.g. "29.5 GiB" or "512 MiB".
pub fn format_size(bytes: u64) -> (s: String)
    ensures
        s@ == size_text(bytes),
{
    if bytes >= GIB {
        let mut s = format_one_decimal(bytes, GIB);
        s.append(" GiB");
        s
    } else {
        let mut s = format_no_decimals(bytes, MIB);
        s.append(" MiB");
        s
    }
}

// ---------------------------------------------------------------------------
// Free space
// ---------------------------------------------------------------------------

/// The larger of two sizes.
pub open spec fn larger(a: u64, b: u64) -> u64 {
    if a >= b { a } else { b }
}

/// The smaller of two sizes.
pub open spec fn smaller(a: u64, b: u64) -> u64 {
    if a <= b { a } else { b }
}

/// The cursor (end of the allocated space seen so far) and the gaps found,
/// after walking `parts[0..k]` in order from the 1 MiB alignment boundary.
/// A gap counts only when it is more than 1 MiB past the cursor.
pub open spec fn free_scan(total: u64, parts: Seq<PartitionSnapshotView>, k: int) -> (u64, Seq<FreeRegion>)
    decreases k,
{
    if k <= 0 {
        (smaller(MIB, total), Seq::empty())
    } else {
        let (cursor, found) = free_scan(total, parts, k - 1);
        let p = parts[k - 1];
        let found2 = if p.start_bytes > cursor.saturating_add(MIB) {
            found.push(FreeRegion { offset_bytes: cursor, size_bytes: (p.start_bytes - cursor) as u64 })
        } else {
            found
        };
        (larger(cursor, p.start_bytes.saturating_add(p.size_bytes)), found2)
    }
}

/// The free regions of a disk of `total` bytes holding `parts` (in start order):
/// the gaps between partitions, and the space after the last one, each only
/// when larger than 1 MiB.
pub open spec fn free_regions_of(total: u64, parts: Seq<PartitionSnapshotView>) -> Seq<FreeRegion> {
    let (cursor, found) = free_scan(total, parts, parts.len() as int);
    if total > cursor.saturating_add(MIB) {
        found.push(FreeRegion { offset_bytes: cursor, size_bytes: (total - cursor) as u64 })
    } else {
        found
    }
}

/// Compute the free regions of a disk of `total` bytes whose partitions, sorted
/// by start, are `partitions`.
pub fn calculate_free_regions(total: u64, partitions: &Vec<PartitionSnapshot>) -> (free: Vec<FreeRegion>)
    ensures
        free@ == free_regions_of(total, partitions_view(partitions@)),
{
    let ghost v = partitions_view(partitions@);
    let mut free: Vec<FreeRegion> = Vec::new();
    let mut cursor: u64 = if MIB <= total { MIB } else { total };
    let mut i: usize = 0;
    while i < partitions.len()
        invariant
            v == partitions_view(partitions@),
            v.len() == partitions@.len(),
            i <= partitions@.len(),
            (cursor, free@) == free_scan(total, v, i as int),
        decreases partitions@.len() - i,
    {
        let p = &partitions[i];
        assert(v[i as int] == p@);
        if p.start_bytes > cursor.saturating_add(MIB) {
            free.push(FreeRegion { offset_bytes: cursor, size_bytes: p.start_bytes - cursor });
        }
        let end = p.start_bytes.saturating_add(p.size_bytes);
        if end > cursor {
            cursor = end;
        }
        i = i + 1;
    }
    if total > cursor.saturating_add(MIB) {
        free.push(FreeRegion { offset_bytes: cursor, size_bytes: total - cursor });
    }
    free
}

// ---------------------------------------------------------------------------
// From block devices to install targets
// ---------------------------------------------------------------------------

/// One block device as `lsblk` reports it, with the fields the installer
/// reads. Sizes are in bytes; `start_sectors` counts logical sectors.
/// `mountpoints` lists every mount point string reported, empty ones included.
pub struct BlockDevice {
    pub path: String,
    pub device_type: String,
    pub size_bytes: u64,
    pub start_sectors: u64,
    pub fstype: String,
    pub label: String,
    pub mountpoints: Vec<String>,
    pub parttype: String,
    pub partuuid: String,
    pub model: String,
    pub pttype: String,
    pub read_only: bool,
    pub logical_sector_size: u64,
    pub children: Vec<BlockDevice>,
}

/// The model of a block device: its fields as plain values, its children as models.
pub struct BlockDeviceView {
    pub path: Seq<char>,
    pub device_type: Seq<char>,
    pub size_bytes: u64,
    pub start_sectors: u64,
    pub fstype: Seq<char>,
    pub label: Seq<char>,
    pub mountpoints: Seq<Seq<char>>,
    pub parttype: Seq<char>,
    pub partuuid: Seq<char>,
    pub model: Seq<char>,
    pub pttype: Seq<char>,
    pub read_only: bool,
    pub logical_sector_size: u64,
    pub children: Seq<BlockDeviceView>,
}

impl View for BlockDevice {
    type V = BlockDeviceView;

    open spec fn view(&self) -> BlockDeviceView
        decreases self,
    {
        BlockDeviceView {
            path: self.path@,
            device_type: self.device_type@,
            size_bytes: self.size_bytes,
            start_sectors: self.start_sectors,
            fstype: self.fstype@,
            label: self.label@,
            mountpoints: self.mountpoints.deep_view(),
            parttype: self.parttype@,
            partuuid: self.partuuid@,
            model: self.model@,
            pttype: self.pttype@,
            read_only: self.read_only,
            logical_sector_size: self.logical_sector_size,
            children: Seq::new(self.children@.len(), |i: int| if 0 <= i < self.children@.len() {
                proof {
                    assert(decreases_to!(self.children => self.children@));
                }
                self.children@[i].view()
            } else {
                empty_device_view()
            }),
        }
    }
}

/// The model of a device that reports nothing: every field empty or zero.
pub open spec fn empty_device_view() -> BlockDeviceView {
    BlockDeviceView {
        path: Seq::empty(),
        device_type: Seq::empty(),
        size_bytes: 0,
        start_sectors: 0,
        fstype: Seq::empty(),
        label: Seq::empty(),
        mountpoints: Seq::empty(),
        parttype: Seq::empty(),
        partuuid: Seq::empty(),
        model: Seq::empty(),
        pttype: Seq::empty(),
        read_only: false,
        logical_sector_size: 0,
        children: Seq::empty(),
    }
}

/// A device's model lists its children's models, in order.
pub proof fn lemma_children_view(d: BlockDevice)
    ensures
        d@.children.len() == d.children@.len(),
        forall|i: int| 0 <= i < d.children@.len() ==> #[trigger] d@.children[i] == d.children@[i]@,
{
    reveal_with_fuel(<BlockDevice as View>::view, 2);
}

/// The models of a list of block devices.
pub open spec fn devices_view(ds: Seq<BlockDevice>) -> Seq<BlockDeviceView> {
    ds.map_values(|d: BlockDevice| d@)
}

/// The non-empty strings of `s[0..k]`, in order.
pub open spec fn non_empty_upto(s: Seq<Seq<char>>, k: int) -> Seq<Seq<char>>
    decreases k,
{
    if k <= 0 {
        Seq::empty()
    } else if s[k - 1].len() != 0 {
        non_empty_upto(s, k - 1).push(s[k - 1])
    } else {
        non_empty_upto(s, k - 1)
    }
}

/// The non-empty strings of `s`, in order.
pub open spec fn non_empty(s: Seq<Seq<char>>) -> Seq<Seq<char>> {
    non_empty_upto(s, s.len() as int)
}

/// The non-empty strings of `v`, in order.
pub fn non_empty_strings(v: &Vec<String>) -> (r: Vec<String>)
    ensures
        r.deep_view() == non_empty(v.deep_view()),
{
    let ghost dv = v.deep_view();
    let mut r: Vec<String> = Vec::new();
    let mut i: usize = 0;
    while i < v.len()
        invariant
            dv == v.deep_view(),
            dv.len() == v@.len(),
            i <= v@.len(),
            r.deep_view() == non_empty_upto(dv, i as int),
        decreases v@.len() - i,
    {
        assert(dv[i as int] == v@[i as int]@);
        if v[i].as_str().unicode_len() != 0 {
            let ghost before = r.deep_view();
            r.push(to_owned_string(v[i].as_str()));
            assert(r.deep_view() =~= before.push(dv[i as int]));
        }
        i = i + 1;
    }
    r
}

/// `a * b`, or `u64::MAX` when that overflows.
pub open spec fn saturating_product(a: u64, b: u64) -> u64 {
    if a * b > u64::MAX { u64::MAX } else { (a * b) as u64 }
}

/// The logical sector size used to place partitions (at least 512 bytes).
pub open spec fn sector_size(d: BlockDeviceView) -> u64 {
    larger(d.logical_sector_size, 512)
}

/// The partition snapshot for a `part` child of a disk with `sector` bytes per sector.
pub open spec fn partition_of(c: BlockDeviceView, sector: u64) -> PartitionSnapshotView {
    PartitionSnapshotView {
        path: c.path,
        start_bytes: saturating_product(c.start_sectors, sector),
        size_bytes: c.size_bytes,
        filesystem: c.fstype,
        label: c.label,
        mountpoints: non_empty(c.mountpoints),
        gpt_type: c.parttype,
        part_uuid: c.partuuid,
    }
}

/// The partitions among `cs[0..k]` (children of type `part`), in lsblk order.
pub open spec fn partitions_upto(cs: Seq<BlockDeviceView>, sector: u64, k: int) -> Seq<PartitionSnapshotView>
    decreases k,
{
    if k <= 0 {
        Seq::empty()
    } else if cs[k - 1].device_type == "part"@ {
        partitions_upto(cs, sector, k - 1).push(partition_of(cs[k - 1], sector))
    } else {
        partitions_upto(cs, sector, k - 1)
    }
}

/// `s` with `x` placed after the last element starting no later than it
/// (one step of a stable insertion sort by start).
pub open spec fn insert_by_start(s: Seq<PartitionSnapshotView>, x: PartitionSnapshotView) -> Seq<PartitionSnapshotView>
    decreases s.len(),
{
    if s.len() == 0 {
        seq![x]
    } else if s.last().start_bytes <= x.start_bytes {
        s.push(x)
    } else {
        insert_by_start(s.drop_last(), x).push(s.last())
    }
}

/// `s` stably sorted by start (std's stable `sort_by_key` on `start_bytes`).
pub open spec fn sort_by_start(s: Seq<PartitionSnapshotView>) -> Seq<PartitionSnapshotView>
    decreases s.len(),
{
    if s.len() == 0 {
        s
    } else {
        insert_by_start(sort_by_start(s.drop_last()), s.last())
    }
}

/// Some mount point is set on `d` itself.
pub open spec fn has_mountpoint(d: BlockDeviceView) -> bool {
    non_empty(d.mountpoints).len() != 0
}

/// `d`, or anything nested below it, is mounted.
pub open spec fn device_in_use(d: BlockDeviceView) -> bool
    decreases d, 1int,
{
    has_mountpoint(d) || children_in_use(d.children, d.children.len() as int)
}

/// Some device among `cs[0..k]`, or below one, is mounted.
pub open spec fn children_in_use(cs: Seq<BlockDeviceView>, k: int) -> bool
    decreases cs, k,
{
    if k <= 0 || k > cs.len() {
        false
    } else {
        children_in_use(cs, k - 1) || device_in_use(cs[k - 1])
    }
}

proof fn lemma_children_in_use_grows(cs: Seq<BlockDeviceView>, k: int, n: int)
    requires
        0 <= k <= n <= cs.len(),
        children_in_use(cs, k),
    ensures
        children_in_use(cs, n),
    decreases n - k,
{
    if n > k {
        lemma_children_in_use_grows(cs, k, n - 1);
    }
}

/// Whether `d` is a whole disk Sirius may install to: a writable disk that
/// is neither a zram nor a loop device.
pub open spec fn is_install_target(d: BlockDeviceView) -> bool {
    &&& d.device_type == "disk"@
    &&& !d.read_only
    &&& !has_prefix(d.path, "/dev/zram"@)
    &&& !has_prefix(d.path, "/dev/loop"@)
}

/// The snapshot of an install-target disk.
pub open spec fn snapshot_of(d: BlockDeviceView) -> DiskSnapshotView {
    let parts = sort_by_start(partitions_upto(d.children, sector_size(d), d.children.len() as int));
    let model = trimmed(d.model);
    DiskSnapshotView {
        path: d.path,
        model: if model.len() == 0 { d.path } else { model },
        size_bytes: d.size_bytes,
        table_type: d.pttype.map_values(|c: char| ascii_upper(c)),
        read_only: d.read_only,
        in_use: device_in_use(d),
        partitions: parts,
        free_regions: free_regions_of(d.size_bytes, parts),
    }
}

/// The snapshots of the install targets among `ds[0..k]`, in order.
pub open spec fn disks_upto(ds: Seq<BlockDeviceView>, k: int) -> Seq<DiskSnapshotView>
    decreases k,
{
    if k <= 0 {
        Seq::empty()
    } else if is_install_target(ds[k - 1]) {
        disks_upto(ds, k - 1).push(snapshot_of(ds[k - 1]))
    } else {
        disks_upto(ds, k - 1)
    }
}

/// Whether `d`, or any device below it, is mounted.
pub fn node_in_use(d: &BlockDevice) -> (r: bool)
    ensures
        r == device_in_use(d@),
    decreases *d,
{
    proof {
        lemma_children_view(*d);
    }
    let mounted = non_empty_strings(&d.mountpoints);
    if mounted.len() != 0 {
        return true;
    }
    let mut i: usize = 0;
    while i < d.children.len()
        invariant
            i <= d.children@.len(),
            !children_in_use(d@.children, i as int),
        decreases d.children@.len() - i,
    {
        proof {
            assert(decreases_to!(*d => d.children@[i as int]));
            lemma_children_view(*d);
        }
        if node_in_use(&d.children[i]) {
            proof {
                assert(children_in_use(d@.children, i + 1));
                lemma_children_in_use_grows(d@.children, i + 1, d@.children.len() as int);
            }
            return true;
        }
        i = i + 1;
    }
    false
}

fn partition_from(c: &BlockDevice, sector: u64) -> (p: PartitionSnapshot)
    ensures
        p@ == partition_of(c@, sector),
{
    let start = match c.start_sectors.checked_mul(sector) {
        Some(v) => v,
        None => u64::MAX,
    };
    PartitionSnapshot {
        path: to_owned_string(c.path.as_str()),
        start_bytes: start,
        size_bytes: c.size_bytes,
        filesystem: to_owned_string(c.fstype.as_str()),
        label: to_owned_string(c.label.as_str()),
        mountpoints: non_empty_strings(&c.mountpoints),
        gpt_type: to_owned_string(c.parttype.as_str()),
        part_uuid: to_owned_string(c.partuuid.as_str()),
    }
}

proof fn lemma_insert_by_start_split(s: Seq<PartitionSnapshotView>, x: PartitionSnapshotView, p: int)
    requires
        0 <= p <= s.len(),
        forall|k: int| p <= k < s.len() ==> (#[trigger] s[k]).start_bytes > x.start_bytes,
        p == 0 || s[p - 1].start_bytes <= x.start_bytes,
    ensures
        insert_by_start(s, x) == s.subrange(0, p).push(x) + s.subrange(p, s.len() as int),
    decreases s.len(),
{
    if s.len() == 0 {
        assert(s.subrange(0, p).push(x) + s.subrange(p, s.len() as int) =~= seq![x]);
    } else if p == s.len() {
        assert(s.subrange(0, p) =~= s);
        assert(s.subrange(0, p).push(x) + s.subrange(p, s.len() as int) =~= s.push(x));
    } else {
        let t = s.drop_last();
        lemma_insert_by_start_split(t, x, p);
        assert(t.subrange(0, p) =~= s.subrange(0, p));
        assert(s.subrange(0, p).push(x) + s.subrange(p, s.len() as int) =~= (t.subrange(0, p).push(x)
            + t.subrange(p, t.len() as int)).push(s.last()));
    }
}

/// Insert `x` into `v` after the last element starting no later than it.
fn insert_partition(v: &mut Vec<PartitionSnapshot>, x: PartitionSnapshot)
    ensures
        partitions_view(final(v)@) == insert_by_start(partitions_view(old(v)@), x@),
{
    let ghost s = partitions_view(v@);
    let mut p: usize = v.len();
    while p > 0 && v[p - 1].start_bytes > x.start_bytes
        invariant
            s == partitions_view(v@),
            s.len() == v@.len(),
            p <= v@.len(),
            forall|k: int| p <= k < s.len() ==> (#[trigger] s[k]).start_bytes > x.start_bytes,
        decreases p,
    {
        assert(s[p - 1] == v@[p - 1]@);
        p = p - 1;
    }
    proof {
        if p > 0 {
            assert(s[p - 1] == v@[p - 1]@);
        }
        lemma_insert_by_start_split(s, x@, p as int);
    }
    v.insert(p, x);
    assert(partitions_view(v@) =~= s.subrange(0, p as int).push(x@) + s.subrange(p as int, s.len() as int));
}

/// Stably sort partitions by start.
pub fn sort_partitions(v: Vec<PartitionSnapshot>) -> (r: Vec<PartitionSnapshot>)
    ensures
        partitions_view(r@) == sort_by_start(partitions_view(v@)),
{
    let ghost s = partitions_view(v@);
    let mut r: Vec<PartitionSnapshot> = Vec::new();
    let mut i: usize = 0;
    let n = v.len();
    assert(s.subrange(0, 0) =~= Seq::<PartitionSnapshotView>::empty());
    while i < n
        invariant
            s == partitions_view(v@),
            s.len() == v@.len(),
            n == v@.len(),
            i <= n,
            partitions_view(r@) == sort_by_start(s.subrange(0, i as int)),
        decreases n - i,
    {
        assert(s.subrange(0, i + 1).drop_last() =~= s.subrange(0, i as int));
        assert(s.subrange(0, i + 1).last() == v@[i as int]@);
        insert_partition(&mut r, v[i].duplicate());
        i = i + 1;
    }
    assert(s.subrange(0, n as int) =~= s);
    r
}

/// The install-target snapshot of a disk device.
pub fn disk_from_device(d: &BlockDevice) -> (disk: DiskSnapshot)
    ensures
        disk@ == snapshot_of(d@),
{
    let sector: u64 = if d.logical_sector_size >= 512 { d.logical_sector_size } else { 512 };
    let mut parts: Vec<PartitionSnapshot> = Vec::new();
    let mut i: usize = 0;
    while i < d.children.len()
        invariant
            i <= d.children@.len(),
            sector == sector_size(d@),
            partitions_view(parts@) == partitions_upto(d@.children, sector, i as int),
        decreases d.children@.len() - i,
    {
        let c = &d.children[i];
        proof {
            lemma_children_view(*d);
        }
        if str_eq(c.device_type.as_str(), "part") {
            let ghost before = partitions_view(parts@);
            parts.push(partition_from(c, sector));
            assert(partitions_view(parts@) =~= before.push(partition_of(c@, sector)));
        }
        i = i + 1;
    }
    proof {
        lemma_children_view(*d);
    }
    let parts = sort_partitions(parts);
    let free_regions = calculate_free_regions(d.size_bytes, &parts);
    let in_use = node_in_use(d);
    let model = trim(d.model.as_str());
    let model = if model.as_str().unicode_len() == 0 {
        to_owned_string(d.path.as_str())
    } else {
        model
    };
    DiskSnapshot {
        path: to_owned_string(d.path.as_str()),
        model,
        size_bytes: d.size_bytes,
        table_type: ascii_uppercase(d.pttype.as_str()),
        read_only: d.read_only,
        in_use,
        partitions: parts,
        free_regions,
    }
}

/// Whether `d` is a whole disk Sirius may install to.
pub fn is_install_target_exec(d: &BlockDevice) -> (r: bool)
    ensures
        r == is_install_target(d@),
{
    str_eq(d.device_type.as_str(), "disk") && !d.read_only && !starts_with(
        d.path.as_str(),
        "/dev/zram",
    ) && !starts_with(d.path.as_str(), "/dev/loop")
}

/// The models of a list of disks.
pub open spec fn disks_view(ds: Seq<DiskSnapshot>) -> Seq<DiskSnapshotView> {
    ds.map_values(|d: DiskSnapshot| d@)
}

/// The install targets among the top-level block devices `lsblk` reported,
/// in order, each with its partitions sorted by start and its free space.
pub fn disks_from_lsblk(devices: &Vec<BlockDevice>) -> (disks: Vec<DiskSnapshot>)
    ensures
        disks_view(disks@) == disks_upto(devices_view(devices@), devices@.len() as int),
{
    let mut disks: Vec<DiskSnapshot> = Vec::new();
    let mut i: usize = 0;
    while i < devices.len()
        invariant
            i <= devices@.len(),
            disks_view(disks@) == disks_upto(devices_view(devices@), i as int),
        decreases devices@.len() - i,
    {
        let d = &devices[i];
        if is_install_target_exec(d) {
            let ghost before = disks_view(disks@);
            disks.push(disk_from_device(d));
            assert(disks_view(disks@) =~= before.push(snapshot_of(d@)));
        }
        i = i + 1;
    }
    disks
}

// ---------------------------------------------------------------------------
// Checking a plan against the live disk
// ---------------------------------------------------------------------------

/// The first partition among `parts[0..k]` at `path`.
pub open spec fn find_partition_upto(parts: Seq<PartitionSnapshotView>, path: Seq<char>, k: int) -> Option<PartitionSnapshotView>
    decreases k,
{
    if k <= 0 {
        None
    } else {
        match find_partition_upto(parts, path, k - 1) {
            Some(p) => Some(p),
            None => if parts[k - 1].path == path {
                Some(parts[k - 1])
            } else {
                None
            },
        }
    }
}

/// The first partition of `disk` at `path`.
pub open spec fn find_partition(disk: DiskSnapshotView, path: Seq<char>) -> Option<PartitionSnapshotView> {
    find_partition_upto(disk.partitions, path, disk.partitions.len() as int)
}

/// Why a reference no longer matches the disk: the partition is gone, moved,
/// resized, replaced, or mounted.
pub open spec fn reference_topology_error(t: PartitionRefView, disk: DiskSnapshotView) -> Option<Seq<char>> {
    match t {
        PartitionRefView::Existing { path, start_bytes, size_bytes, part_uuid } => match find_partition(disk, path) {
            None => Some("partition disappeared: "@ + path),
            Some(current) => if current.start_bytes != start_bytes || current.size_bytes != size_bytes
                || (part_uuid matches Some(u) && current.part_uuid != u) {
                Some("partition topology changed: "@ + path)
            } else if current.mountpoints.len() != 0 {
                Some("partition is mounted and cannot be modified: "@ + path)
            } else {
                None
            },
        },
        PartitionRefView::Planned { .. } => None,
    }
}

/// The partition references an operation makes.
pub open spec fn operation_references(op: PartitionOperationView) -> Seq<PartitionRefView> {
    match op {
        PartitionOperationView::Delete { target } => seq![target],
        PartitionOperationView::Format { target, .. } => seq![target],
        PartitionOperationView::Create { .. } => Seq::empty(),
    }
}

/// The topology problem of an operation's reference.
pub open spec fn operation_topology_error(op: PartitionOperationView, disk: DiskSnapshotView) -> Option<Seq<char>> {
    match op {
        PartitionOperationView::Delete { target } => reference_topology_error(target, disk),
        PartitionOperationView::Format { target, .. } => reference_topology_error(target, disk),
        PartitionOperationView::Create { .. } => None,
    }
}

/// The first topology problem among the references of `ops[0..k]`.
pub open spec fn first_operation_topology_error(ops: Seq<PartitionOperationView>, disk: DiskSnapshotView, k: int) -> Option<Seq<char>>
    decreases k,
{
    if k <= 0 {
        None
    } else {
        match first_operation_topology_error(ops, disk, k - 1) {
            Some(e) => Some(e),
            None => operation_topology_error(ops[k - 1], disk),
        }
    }
}

/// The first topology problem among the targets of `ms[0..k]`.
pub open spec fn first_mount_topology_error(ms: Seq<MountAssignmentView>, disk: DiskSnapshotView, k: int) -> Option<Seq<char>>
    decreases k,
{
    if k <= 0 {
        None
    } else {
        match first_mount_topology_error(ms, disk, k - 1) {
            Some(e) => Some(e),
            None => reference_topology_error(ms[k - 1].target, disk),
        }
    }
}

/// Some operation reformats the mount's target with the mount's filesystem.
pub open spec fn reformatted_for(m: MountAssignmentView, ops: Seq<PartitionOperationView>) -> bool {
    exists|k: int| 0 <= k < ops.len() && (#[trigger] ops[k] matches PartitionOperationView::Format { target, filesystem, .. } && target == m.target && filesystem == m.filesystem)
}

/// Why an existing partition mounted as-is does not hold the filesystem the mount expects.
pub open spec fn mount_filesystem_error(m: MountAssignmentView, ops: Seq<PartitionOperationView>, disk: DiskSnapshotView) -> Option<Seq<char>> {
    match m.target {
        PartitionRefView::Existing { path, .. } => match find_partition(disk, path) {
            None => Some("partition disappeared: "@ + path),
            Some(current) => if !reformatted_for(m, ops) && current.filesystem != m.filesystem {
                Some("filesystem changed for "@ + path + ": expected "@ + m.filesystem)
            } else {
                None
            },
        },
        PartitionRefView::Planned { .. } => None,
    }
}

/// The first filesystem problem among `ms[0..k]`.
pub open spec fn first_mount_filesystem_error(ms: Seq<MountAssignmentView>, ops: Seq<PartitionOperationView>, disk: DiskSnapshotView, k: int) -> Option<Seq<char>>
    decreases k,
{
    if k <= 0 {
        None
    } else {
        match first_mount_filesystem_error(ms, ops, disk, k - 1) {
            Some(e) => Some(e),
            None => mount_filesystem_error(ms[k - 1], ops, disk),
        }
    }
}

/// The first reason a plan no longer fits the live disk: its size changed, a
/// referenced partition (by an operation, then by a mount) changed, or an
/// existing partition mounted without reformatting holds another filesystem.
pub open spec fn topology_error(p: PartitionPlanView, disk: DiskSnapshotView) -> Option<Seq<char>> {
    if p.disk_size_bytes != disk.size_bytes {
        Some("disk size changed since the partition plan was created"@)
    } else if first_operation_topology_error(p.operations, disk, p.operations.len() as int) is Some {
        first_operation_topology_error(p.operations, disk, p.operations.len() as int)
    } else if first_mount_topology_error(p.mounts, disk, p.mounts.len() as int) is Some {
        first_mount_topology_error(p.mounts, disk, p.mounts.len() as int)
    } else {
        first_mount_filesystem_error(p.mounts, p.operations, disk, p.mounts.len() as int)
    }
}

/// The outcome owed for an optional error message.
pub open spec fn error_result(e: Option<Seq<char>>, r: Result<(), String>) -> bool {
    match e {
        Some(m) => r matches Err(x) && x@ == m,
        None => r is Ok,
    }
}

fn find_partition_exec<'a>(disk: &'a DiskSnapshot, path: &str) -> (r: Option<&'a PartitionSnapshot>)
    ensures
        match find_partition(disk@, path@) {
            Some(p) => r matches Some(q) && q@ == p,
            None => r is None,
        },
{
    let ghost v = disk@.partitions;
    let mut k: usize = 0;
    while k < disk.partitions.len()
        invariant
            v == disk@.partitions,
            v.len() == disk.partitions@.len(),
            k <= disk.partitions@.len(),
            find_partition_upto(v, path@, k as int) is None,
        decreases disk.partitions@.len() - k,
    {
        assert(v[k as int] == disk.partitions@[k as int]@);
        if str_eq(disk.partitions[k].path.as_str(), path) {
            proof {
                lemma_find_partition_stable(v, path@, k + 1, v.len() as int);
            }
            return Some(&disk.partitions[k]);
        }
        k = k + 1;
    }
    None
}

proof fn lemma_find_partition_stable(parts: Seq<PartitionSnapshotView>, path: Seq<char>, k: int, n: int)
    requires
        0 <= k <= n,
        find_partition_upto(parts, path, k) is Some,
    ensures
        find_partition_upto(parts, path, n) == find_partition_upto(parts, path, k),
    decreases n - k,
{
    if n > k {
        lemma_find_partition_stable(parts, path, k, n - 1);
    }
}

fn message_with(prefix: &str, subject: &str) -> (r: String)
    ensures
        r@ == prefix@ + subject@,
{
    let mut r = to_owned_string(prefix);
    r.append(subject);
    r
}

fn reference_topology_error_exec(t: &PartitionRef, disk: &DiskSnapshot) -> (r: Result<(), String>)
    ensures
        error_result(reference_topology_error(t@, disk@), r),
{
    match t {
        PartitionRef::Existing { path, start_bytes, size_bytes, part_uuid } => {
            match find_partition_exec(disk, path.as_str()) {
                None => Err(message_with("partition disappeared: ", path.as_str())),
                Some(current) => {
                    let uuid_changed = match part_uuid {
                        Some(u) => !str_eq(current.part_uuid.as_str(), u.as_str()),
                        None => false,
                    };
                    if current.start_bytes != *start_bytes || current.size_bytes != *size_bytes
                        || uuid_changed {
                        Err(message_with("partition topology changed: ", path.as_str()))
                    } else if current.mountpoints.len() != 0 {
                        Err(message_with("partition is mounted and cannot be modified: ", path.as_str()))
                    } else {
                        Ok(())
                    }
                },
            }
        },
        PartitionRef::Planned { .. } => Ok(()),
    }
}

fn reformatted_for_exec(m: &MountAssignment, ops: &Vec<PartitionOperation>) -> (r: bool)
    ensures
        r == reformatted_for(m@, operations_view(ops@)),
{
    let ghost v = operations_view(ops@);
    let mut k: usize = 0;
    while k < ops.len()
        invariant
            v == operations_view(ops@),
            v.len() == ops@.len(),
            k <= ops@.len(),
            forall|j: int| 0 <= j < k ==> !(#[trigger] v[j] matches PartitionOperationView::Format { target, filesystem, .. } && target == m@.target && filesystem == m@.filesystem),
        decreases ops@.len() - k,
    {
        assert(v[k as int] == ops@[k as int]@);
        if let PartitionOperation::Format { target, filesystem, .. } = &ops[k] {
            if target.same_as(&m.target) && str_eq(filesystem.as_str(), m.filesystem.as_str()) {
                return true;
            }
        }
        k = k + 1;
    }
    false
}

fn mount_filesystem_error_exec(m: &MountAssignment, ops: &Vec<PartitionOperation>, disk: &DiskSnapshot) -> (r: Result<(), String>)
    ensures
        error_result(mount_filesystem_error(m@, operations_view(ops@), disk@), r),
{
    match &m.target {
        PartitionRef::Existing { path, .. } => match find_partition_exec(disk, path.as_str()) {
            None => Err(message_with("partition disappeared: ", path.as_str())),
            Some(current) => {
                if !reformatted_for_exec(m, ops) && !str_eq(current.filesystem.as_str(), m.filesystem.as_str()) {
                    let mut e = message_with("filesystem changed for ", path.as_str());
                    e.append(": expected ");
                    e.append(m.filesystem.as_str());
                    assert(e@ =~= "filesystem changed for "@ + path@ + ": expected "@ + m@.filesystem);
                    Err(e)
                } else {
                    Ok(())
                }
            },
        },
        PartitionRef::Planned { .. } => Ok(()),
    }
}

proof fn lemma_first_operation_topology_error_stable(ops: Seq<PartitionOperationView>, disk: DiskSnapshotView, k: int, n: int)
    requires
        0 <= k <= n,
        first_operation_topology_error(ops, disk, k) is Some,
    ensures
        first_operation_topology_error(ops, disk, n) == first_operation_topology_error(ops, disk, k),
    decreases n - k,
{
    if n > k {
        lemma_first_operation_topology_error_stable(ops, disk, k, n - 1);
    }
}

proof fn lemma_first_mount_topology_error_stable(ms: Seq<MountAssignmentView>, disk: DiskSnapshotView, k: int, n: int)
    requires
        0 <= k <= n,
        first_mount_topology_error(ms, disk, k) is Some,
    ensures
        first_mount_topology_error(ms, disk, n) == first_mount_topology_error(ms, disk, k),
    decreases n - k,
{
    if n > k {
        lemma_first_mount_topology_error_stable(ms, disk, k, n - 1);
    }
}

proof fn lemma_first_mount_filesystem_error_stable(ms: Seq<MountAssignmentView>, ops: Seq<PartitionOperationView>, disk: DiskSnapshotView, k: int, n: int)
    requires
        0 <= k <= n,
        first_mount_filesystem_error(ms, ops, disk, k) is Some,
    ensures
        first_mount_filesystem_error(ms, ops, disk, n) == first_mount_filesystem_error(ms, ops, disk, k),
    decreases n - k,
{
    if n > k {
        lemma_first_mount_filesystem_error_stable(ms, ops, disk, k, n - 1);
    }
}

/// Check a staged plan against the live disk it will be applied to. The
/// error is the first one [`topology_error`] gives.
pub fn validate_topology(plan: &PartitionPlan, disk: &DiskSnapshot) -> (r: Result<(), String>)
    ensures
        error_result(topology_error(plan@, disk@), r),
{
    if plan.disk_size_bytes != disk.size_bytes {
        return Err(to_owned_string("disk size changed since the partition plan was created"));
    }
    let ghost ops = plan@.operations;
    let ghost ms = plan@.mounts;
    let mut i: usize = 0;
    while i < plan.operations.len()
        invariant
            ops == plan@.operations,
            ops.len() == plan.operations@.len(),
            i <= plan.operations@.len(),
            plan@.disk_size_bytes == disk@.size_bytes,
            first_operation_topology_error(ops, disk@, i as int) is None,
        decreases plan.operations@.len() - i,
    {
        assert(ops[i as int] == plan.operations@[i as int]@);
        let r = match &plan.operations[i] {
            PartitionOperation::Delete { target } => reference_topology_error_exec(target, disk),
            PartitionOperation::Format { target, .. } => reference_topology_error_exec(target, disk),
            PartitionOperation::Create { .. } => Ok(()),
        };
        if r.is_err() {
            proof {
                lemma_first_operation_topology_error_stable(ops, disk@, i + 1, ops.len() as int);
            }
            return r;
        }
        i = i + 1;
    }
    let mut j: usize = 0;
    while j < plan.mounts.len()
        invariant
            ms == plan@.mounts,
            ms.len() == plan.mounts@.len(),
            j <= plan.mounts@.len(),
            plan@.disk_size_bytes == disk@.size_bytes,
            first_operation_topology_error(plan@.operations, disk@, plan@.operations.len() as int) is None,
            first_mount_topology_error(ms, disk@, j as int) is None,
        decreases plan.mounts@.len() - j,
    {
        assert(ms[j as int] == plan.mounts@[j as int]@);
        let r = reference_topology_error_exec(&plan.mounts[j].target, disk);
        if r.is_err() {
            proof {
                lemma_first_mount_topology_error_stable(ms, disk@, j + 1, ms.len() as int);
            }
            return r;
        }
        j = j + 1;
    }
    let mut k: usize = 0;
    while k < plan.mounts.len()
        invariant
            ms == plan@.mounts,
            ops == plan@.operations,
            ms.len() == plan.mounts@.len(),
            k <= plan.mounts@.len(),
            plan@.disk_size_bytes == disk@.size_bytes,
            first_operation_topology_error(plan@.operations, disk@, plan@.operations.len() as int) is None,
            first_mount_topology_error(ms, disk@, ms.len() as int) is None,
            first_mount_filesystem_error(ms, ops, disk@, k as int) is None,
        decreases plan.mounts@.len() - k,
    {
        assert(ms[k as int] == plan.mounts@[k as int]@);
        let r = mount_filesystem_error_exec(&plan.mounts[k], &plan.operations, disk);
        if r.is_err() {
            proof {
                lemma_first_mount_filesystem_error_stable(ms, ops, disk@, k + 1, ms.len() as int);
            }
            return r;
        }
        k = k + 1;
    }
    Ok(())
}

/// The partition references an operation makes (its target, for Delete and Format).
pub fn operation_refs(operation: &PartitionOperation) -> (refs: Vec<PartitionRef>)
    ensures
        refs@.map_values(|r: PartitionRef| r@) == operation_references(operation@),
{
    let mut refs: Vec<PartitionRef> = Vec::new();
    match operation {
        PartitionOperation::Delete { target } => refs.push(target.duplicate()),
        PartitionOperation::Format { target, .. } => refs.push(target.duplicate()),
        PartitionOperation::Create { .. } => {},
    }
    assert(refs@.map_values(|r: PartitionRef| r@) =~= operation_references(operation@));
    refs
}

/// The device path of an existing partition; a planned one has none yet.
pub fn existing_path(reference: &PartitionRef) -> (r: Result<&str, String>)
    ensures
        match reference@ {
            PartitionRefView::Existing { path, .. } => r matches Ok(p) && p@ == path,
            PartitionRefView::Planned { .. } => r matches Err(e) && e@ == "cannot delete a partition that has not been created"@,
        },
{
    match reference {
        PartitionRef::Existing { path, .. } => Ok(path.as_str()),
        PartitionRef::Planned { .. } => Err(to_owned_string("cannot delete a partition that has not been created")),
    }
}

/// The device most recently recorded for `id` among `pairs[0..k]` (id, device).
pub open spec fn device_for_id_upto(pairs: Seq<(Seq<char>, Seq<char>)>, id: Seq<char>, k: int) -> Option<Seq<char>>
    decreases k,
{
    if k <= 0 {
        None
    } else if pairs[k - 1].0 == id {
        Some(pairs[k - 1].1)
    } else {
        device_for_id_upto(pairs, id, k - 1)
    }
}

/// The device path a reference resolves to once planned partitions exist:
/// an existing partition's own path, or the device created for a planned id
/// (the latest entry for it in `planned`, a list of (id, device) pairs).
pub fn resolve_ref(reference: &PartitionRef, planned: &Vec<(String, String)>) -> (r: Result<String, String>)
    ensures
        match reference@ {
            PartitionRefView::Existing { path, .. } => r matches Ok(p) && p@ == path,
            PartitionRefView::Planned { id } => match device_for_id_upto(planned.deep_view(), id, planned@.len() as int) {
                Some(dev) => r matches Ok(p) && p@ == dev,
                None => r matches Err(e) && e@ == "planned partition has no device yet: "@ + id,
            },
        },
{
    match reference {
        PartitionRef::Existing { path, .. } => Ok(to_owned_string(path.as_str())),
        PartitionRef::Planned { id } => {
            let ghost pv = planned.deep_view();
            let mut k: usize = planned.len();
            while k > 0
                invariant
                    pv == planned.deep_view(),
                    reference@ == (PartitionRefView::Planned { id: id@ }),
                    pv.len() == planned@.len(),
                    k <= planned@.len(),
                    device_for_id_upto(pv, id@, k as int) == device_for_id_upto(pv, id@, planned@.len() as int),
                decreases k,
            {
                assert(pv[k - 1] == (planned@[k - 1].0@, planned@[k - 1].1@));
                if str_eq(planned[k - 1].0.as_str(), id.as_str()) {
                    return Ok(to_owned_string(planned[k - 1].1.as_str()));
                }
                k = k - 1;
            }
            Err(message_with("planned partition has no device yet: ", id.as_str()))
        },
    }
}

/// The first reason a staged plan may not be applied to `target_disk`: it
/// names another disk, it is not a valid plan, the disk is no longer among
/// `disks`, or it no longer matches the live disk.
pub open spec fn preflight_error(p: PartitionPlanView, target_disk: Seq<char>, uefi: bool, disks: Seq<DiskSnapshotView>) -> Option<Seq<char>> {
    if p.disk_path != target_disk {
        Some("partition plan does not match the selected disk"@)
    } else if crate::config_model::plan_error(p, uefi) is Some {
        crate::config_model::plan_error(p, uefi)
    } else {
        match find_disk_upto(disks, target_disk, disks.len() as int) {
            None => Some("selected disk disappeared: "@ + target_disk),
            Some(d) => topology_error(p, d),
        }
    }
}

/// The first disk among `ds[0..k]` at `path`.
pub open spec fn find_disk_upto(ds: Seq<DiskSnapshotView>, path: Seq<char>, k: int) -> Option<DiskSnapshotView>
    decreases k,
{
    if k <= 0 {
        None
    } else {
        match find_disk_upto(ds, path, k - 1) {
            Some(d) => Some(d),
            None => if ds[k - 1].path == path {
                Some(ds[k - 1])
            } else {
                None
            },
        }
    }
}

proof fn lemma_find_disk_stable(ds: Seq<DiskSnapshotView>, path: Seq<char>, k: int, n: int)
    requires
        0 <= k <= n,
        find_disk_upto(ds, path, k) is Some,
    ensures
        find_disk_upto(ds, path, n) == find_disk_upto(ds, path, k),
    decreases n - k,
{
    if n > k {
        lemma_find_disk_stable(ds, path, k, n - 1);
    }
}

/// The first disk at `path`, if any.
pub fn find_disk<'a>(disks: &'a Vec<DiskSnapshot>, path: &str) -> (r: Option<&'a DiskSnapshot>)
    ensures
        match find_disk_upto(disks_view(disks@), path@, disks@.len() as int) {
            Some(d) => r matches Some(x) && x@ == d,
            None => r is None,
        },
{
    let ghost v = disks_view(disks@);
    let mut k: usize = 0;
    while k < disks.len()
        invariant
            v == disks_view(disks@),
            v.len() == disks@.len(),
            k <= disks@.len(),
            find_disk_upto(v, path@, k as int) is None,
        decreases disks@.len() - k,
    {
        assert(v[k as int] == disks@[k as int]@);
        if str_eq(disks[k].path.as_str(), path) {
            proof {
                lemma_find_disk_stable(v, path@, k + 1, v.len() as int);
            }
            return Some(&disks[k]);
        }
        k = k + 1;
    }
    None
}

/// The checks the privileged side repeats before applying a staged plan to
/// `target_disk`, given the disks currently present. The error is the first
/// one [`preflight_error`] gives.
pub fn check_plan_for_disk(plan: &PartitionPlan, target_disk: &str, uefi: bool, disks: &Vec<DiskSnapshot>) -> (r: Result<(), String>)
    ensures
        error_result(preflight_error(plan@, target_disk@, uefi, disks_view(disks@)), r),
{
    if !str_eq(plan.disk_path.as_str(), target_disk) {
        return Err(to_owned_string("partition plan does not match the selected disk"));
    }
    let v = plan.validate(uefi);
    if v.is_err() {
        return v;
    }
    match find_disk(disks, target_disk) {
        None => Err(message_with("selected disk disappeared: ", target_disk)),
        Some(disk) => validate_topology(plan, disk),
    }
}

// ---------------------------------------------------------------------------
// Executing a staged plan
// ---------------------------------------------------------------------------

/// One UDisks2 call of a staged plan. A label is only passed when it is not blank.
#[derive(Debug, Clone, PartialEq, Eq)]
pub enum DiskStep {
    Delete { target: PartitionRef },
    Create {
        id: String,
        offset_bytes: u64,
        size_bytes: u64,
        gpt_type: String,
        name: String,
        filesystem: String,
        label: Option<String>,
    },
    Format { target: PartitionRef, filesystem: String, label: Option<String> },
}

/// Mathematical model of a [`DiskStep`].
pub enum DiskStepView {
    Delete { target: PartitionRefView },
    Create {
        id: Seq<char>,
        offset_bytes: u64,
        size_bytes: u64,
        gpt_type: Seq<char>,
        name: Seq<char>,
        filesystem: Seq<char>,
        label: Option<Seq<char>>,
    },
    Format { target: PartitionRefView, filesystem: Seq<char>, label: Option<Seq<char>> },
}

impl View for DiskStep {
    type V = DiskStepView;

    open spec fn view(&self) -> DiskStepView {
        match self {
            DiskStep::Delete { target } => DiskStepView::Delete { target: target@ },
            DiskStep::Create { id, offset_bytes, size_bytes, gpt_type, name, filesystem, label } => DiskStepView::Create {
                id: id@,
                offset_bytes: *offset_bytes,
                size_bytes: *size_bytes,
                gpt_type: gpt_type@,
                name: name@,
                filesystem: filesystem@,
                label: label.deep_view(),
            },
            DiskStep::Format { target, filesystem, label } => DiskStepView::Format {
                target: target@,
                filesystem: filesystem@,
                label: label.deep_view(),
            },
        }
    }
}

/// A label worth passing: `None` when it is blank.
pub open spec fn optional_label(label: Seq<char>) -> Option<Seq<char>> {
    if trimmed(label).len() == 0 { None } else { Some(label) }
}

/// The step for `op` in pass `pass` (0: deletes, 1: creates, 2: formats), if it belongs there.
pub open spec fn step_in_pass(op: PartitionOperationView, pass: int) -> Option<DiskStepView> {
    match op {
        PartitionOperationView::Delete { target } => if pass == 0 {
            Some(DiskStepView::Delete { target })
        } else {
            None
        },
        PartitionOperationView::Create { id, offset_bytes, size_bytes, gpt_type, name, filesystem, label } => if pass == 1 {
            Some(DiskStepView::Create { id, offset_bytes, size_bytes, gpt_type, name, filesystem, label: optional_label(label) })
        } else {
            None
        },
        PartitionOperationView::Format { target, filesystem, label } => if pass == 2 {
            Some(DiskStepView::Format { target, filesystem, label: optional_label(label) })
        } else {
            None
        },
    }
}

/// The steps of pass `pass` among `ops[0..k]`, in plan order.
pub open spec fn pass_steps(ops: Seq<PartitionOperationView>, pass: int, k: int) -> Seq<DiskStepView>
    decreases k,
{
    if k <= 0 {
        Seq::empty()
    } else {
        match step_in_pass(ops[k - 1], pass) {
            Some(st) => pass_steps(ops, pass, k - 1).push(st),
            None => pass_steps(ops, pass, k - 1),
        }
    }
}

/// The calls that carry out a plan: every delete first, then every create,
/// then every format, each group in plan order.
pub open spec fn plan_steps(ops: Seq<PartitionOperationView>) -> Seq<DiskStepView> {
    pass_steps(ops, 0, ops.len() as int) + pass_steps(ops, 1, ops.len() as int) + pass_steps(ops, 2, ops.len() as int)
}

fn label_option(label: &String) -> (r: Option<String>)
    ensures
        r.deep_view() == optional_label(label@),
{
    if is_blank(label.as_str()) {
        None
    } else {
        Some(to_owned_string(label.as_str()))
    }
}

fn push_pass(steps: &mut Vec<DiskStep>, ops: &Vec<PartitionOperation>, pass: usize)
    requires
        pass <= 2,
    ensures
        final(steps)@.map_values(|s: DiskStep| s@) == old(steps)@.map_values(|s: DiskStep| s@)
            + pass_steps(operations_view(ops@), pass as int, ops@.len() as int),
{
    let ghost base = steps@.map_values(|s: DiskStep| s@);
    let ghost ov = operations_view(ops@);
    let mut i: usize = 0;
    assert(base + pass_steps(ov, pass as int, 0) =~= base);
    while i < ops.len()
        invariant
            ov == operations_view(ops@),
            ov.len() == ops@.len(),
            pass <= 2,
            i <= ops@.len(),
            steps@.map_values(|s: DiskStep| s@) == base + pass_steps(ov, pass as int, i as int),
        decreases ops@.len() - i,
    {
        assert(ov[i as int] == ops@[i as int]@);
        let ghost before = steps@.map_values(|s: DiskStep| s@);
        let step: Option<DiskStep> = match &ops[i] {
            PartitionOperation::Delete { target } => if pass == 0 {
                Some(DiskStep::Delete { target: target.duplicate() })
            } else {
                None
            },
            PartitionOperation::Create { id, offset_bytes, size_bytes, gpt_type, name, filesystem, label } => if pass == 1 {
                Some(DiskStep::Create {
                    id: to_owned_string(id.as_str()),
                    offset_bytes: *offset_bytes,
                    size_bytes: *size_bytes,
                    gpt_type: to_owned_string(gpt_type.as_str()),
                    name: to_owned_string(name.as_str()),
                    filesystem: to_owned_string(filesystem.as_str()),
                    label: label_option(label),
                })
            } else {
                None
            },
            PartitionOperation::Format { target, filesystem, label } => if pass == 2 {
                Some(DiskStep::Format {
                    target: target.duplicate(),
                    filesystem: to_owned_string(filesystem.as_str()),
                    label: label_option(label),
                })
            } else {
                None
            },
        };
        match step {
            Some(st) => {
                steps.push(st);
                assert(steps@.map_values(|s: DiskStep| s@) =~= before.push(st@));
            },
            None => {},
        }
        i = i + 1;
    }
}

/// The UDisks2 calls that carry out `plan`, in the order they must run:
/// deletes free space first, creates fill it, and formats run once every
/// planned partition has a device.
pub fn disk_steps(plan: &PartitionPlan) -> (steps: Vec<DiskStep>)
    ensures
        steps@.map_values(|s: DiskStep| s@) == plan_steps(operations_view(plan.operations@)),
{
    let mut steps: Vec<DiskStep> = Vec::new();
    assert(steps@.map_values(|s: DiskStep| s@) =~= Seq::<DiskStepView>::empty());
    push_pass(&mut steps, &plan.operations, 0);
    push_pass(&mut steps, &plan.operations, 1);
    push_pass(&mut steps, &plan.operations, 2);
    steps
}

/// A mount of the installed system, with its device resolved.
#[derive(Debug, Clone, PartialEq, Eq)]
pub struct ResolvedMount {
    pub device: String,
    pub mount_point: String,
    pub filesystem: String,
    /// The filesystem label, when one was given.
    pub label: Option<String>,
}

/// Mathematical model of a [`ResolvedMount`].
pub struct ResolvedMountView {
    pub device: Seq<char>,
    pub mount_point: Seq<char>,
    pub filesystem: Seq<char>,
    pub label: Option<Seq<char>>,
}

impl View for ResolvedMount {
    type V = ResolvedMountView;

    open spec fn view(&self) -> ResolvedMountView {
        ResolvedMountView {
            device: self.device@,
            mount_point: self.mount_point@,
            filesystem: self.filesystem@,
            label: self.label.deep_view(),
        }
    }
}

/// The device a reference resolves to, given the devices created for planned ids.
pub open spec fn resolved_device(t: PartitionRefView, planned: Seq<(Seq<char>, Seq<char>)>) -> Option<Seq<char>> {
    match t {
        PartitionRefView::Existing { path, .. } => Some(path),
        PartitionRefView::Planned { id } => device_for_id_upto(planned, id, planned.len() as int),
    }
}

/// The first `k` mounts resolved, or the index of the first that cannot be.
pub open spec fn resolve_mounts_upto(ms: Seq<MountAssignmentView>, planned: Seq<(Seq<char>, Seq<char>)>, k: int) -> Result<Seq<ResolvedMountView>, int>
    decreases k,
{
    if k <= 0 {
        Ok(Seq::empty())
    } else {
        match resolve_mounts_upto(ms, planned, k - 1) {
            Err(i) => Err(i),
            Ok(prev) => match resolved_device(ms[k - 1].target, planned) {
                None => Err(k - 1),
                Some(dev) => Ok(prev.push(ResolvedMountView {
                    device: dev,
                    mount_point: ms[k - 1].mount_point,
                    filesystem: ms[k - 1].filesystem,
                    label: if ms[k - 1].label.len() == 0 { None } else { Some(ms[k - 1].label) },
                })),
            },
        }
    }
}

/// The installed system's mounts, each with its device: an existing
/// partition's path or the device created for a planned one. Fails on the
/// first mount whose planned partition has no device.
pub fn resolve_mounts(mounts: &Vec<MountAssignment>, planned: &Vec<(String, String)>) -> (r: Result<Vec<ResolvedMount>, String>)
    ensures
        match resolve_mounts_upto(mounts_view(mounts@), planned.deep_view(), mounts@.len() as int) {
            Ok(ms) => r matches Ok(v) && v@.map_values(|m: ResolvedMount| m@) == ms,
            Err(i) => r matches Err(e) && mounts_view(mounts@)[i].target matches PartitionRefView::Planned { id }
                && e@ == "planned partition has no device yet: "@ + id,
        },
{
    let ghost mv = mounts_view(mounts@);
    let ghost pv = planned.deep_view();
    let mut out: Vec<ResolvedMount> = Vec::new();
    let mut i: usize = 0;
    assert(out@.map_values(|m: ResolvedMount| m@) =~= Seq::<ResolvedMountView>::empty());
    while i < mounts.len()
        invariant
            mv == mounts_view(mounts@),
            mv.len() == mounts@.len(),
            pv == planned.deep_view(),
            i <= mounts@.len(),
            out@.len() == i,
            resolve_mounts_upto(mv, pv, i as int) == Ok::<Seq<ResolvedMountView>, int>(out@.map_values(|m: ResolvedMount| m@)),
        decreases mounts@.len() - i,
    {
        assert(mv[i as int] == mounts@[i as int]@);
        let m = &mounts[i];
        match resolve_ref(&m.target, planned) {
            Err(e) => {
                proof {
                    lemma_resolve_mounts_fails_from(mv, pv, i as int + 1, mv.len() as int);
                }
                return Err(e);
            },
            Ok(device) => {
                let label = if m.label.as_str().unicode_len() == 0 {
                    None
                } else {
                    Some(to_owned_string(m.label.as_str()))
                };
                let ghost before = out@.map_values(|m: ResolvedMount| m@);
                out.push(ResolvedMount {
                    device,
                    mount_point: to_owned_string(m.mount_point.as_str()),
                    filesystem: to_owned_string(m.filesystem.as_str()),
                    label,
                });
                assert(out@.map_values(|m: ResolvedMount| m@) =~= before.push(out@[i as int]@));
            },
        }
        i = i + 1;
    }
    Ok(out)
}

proof fn lemma_resolve_mounts_fails_from(ms: Seq<MountAssignmentView>, planned: Seq<(Seq<char>, Seq<char>)>, k: int, n: int)
    requires
        1 <= k <= n,
        resolve_mounts_upto(ms, planned, k) == Err::<Seq<ResolvedMountView>, int>(k - 1),
    ensures
        resolve_mounts_upto(ms, planned, n) == Err::<Seq<ResolvedMountView>, int>(k - 1),
    decreases n - k,
{
    if n > k {
        lemma_resolve_mounts_fails_from(ms, planned, k, n - 1);
    }
}

/// Every step of a plan is one of its operations, and every operation
/// becomes exactly one step: the passes only reorder.
pub proof fn law_steps_cover_plan(ops: Seq<PartitionOperationView>, k: int)
    requires
        0 <= k <= ops.len(),
    ensures
        pass_steps(ops, 0, k).len() + pass_steps(ops, 1, k).len() + pass_steps(ops, 2, k).len() == k,
    decreases k,
{
    if k > 0 {
        law_steps_cover_plan(ops, k - 1);
    }
}

/// Regions each larger than 1 MiB, in increasing order, not overlapping, all
/// ending by `bound`.
pub open spec fn regions_ordered(found: Seq<FreeRegion>, bound: int) -> bool {
    &&& forall|i: int| 0 <= i < found.len() ==> (#[trigger] found[i]).size_bytes > MIB
    &&& forall|i: int, j: int| 0 <= i < j < found.len()
        ==> (#[trigger] found[i]).offset_bytes + found[i].size_bytes <= (#[trigger] found[j]).offset_bytes
    &&& forall|i: int| 0 <= i < found.len() ==> (#[trigger] found[i]).offset_bytes + found[i].size_bytes <= bound
}

proof fn lemma_free_scan_ordered(total: u64, parts: Seq<PartitionSnapshotView>, k: int)
    requires
        0 <= k <= parts.len(),
    ensures
        regions_ordered(free_scan(total, parts, k).1, free_scan(total, parts, k).0 as int),
    decreases k,
{
    if k > 0 {
        lemma_free_scan_ordered(total, parts, k - 1);
        let (cursor, found) = free_scan(total, parts, k - 1);
        let p = parts[k - 1];
        let new_cursor = larger(cursor, p.start_bytes.saturating_add(p.size_bytes));
        assert(p.start_bytes.saturating_add(p.size_bytes) >= p.start_bytes);
        if p.start_bytes > cursor.saturating_add(MIB) {
            let r = FreeRegion { offset_bytes: cursor, size_bytes: (p.start_bytes - cursor) as u64 };
            let f2 = found.push(r);
            assert forall|i: int, j: int| 0 <= i < j < f2.len()
                implies (#[trigger] f2[i]).offset_bytes + f2[i].size_bytes <= (#[trigger] f2[j]).offset_bytes by {
                if j == found.len() {
                    assert(f2[i] == found[i]);
                } else {
                    assert(f2[i] == found[i] && f2[j] == found[j]);
                }
            }
            assert forall|i: int| 0 <= i < f2.len() implies (#[trigger] f2[i]).size_bytes > MIB by {
                if i < found.len() {
                    assert(f2[i] == found[i]);
                }
            }
            assert forall|i: int| 0 <= i < f2.len() implies (#[trigger] f2[i]).offset_bytes + f2[i].size_bytes <= new_cursor by {
                if i < found.len() {
                    assert(f2[i] == found[i]);
                }
            }
        }
    }
}

/// The free regions of a disk are each larger than 1 MiB, come in increasing
/// order of offset and never overlap.
pub proof fn law_free_regions_are_ordered(total: u64, parts: Seq<PartitionSnapshotView>)
    ensures
        forall|i: int| 0 <= i < free_regions_of(total, parts).len() ==> (#[trigger] free_regions_of(total, parts)[i]).size_bytes > MIB,
        forall|i: int, j: int| 0 <= i < j < free_regions_of(total, parts).len()
            ==> (#[trigger] free_regions_of(total, parts)[i]).offset_bytes + free_regions_of(total, parts)[i].size_bytes
                <= (#[trigger] free_regions_of(total, parts)[j]).offset_bytes,
{
    lemma_free_scan_ordered(total, parts, parts.len() as int);
    let (cursor, found) = free_scan(total, parts, parts.len() as int);
    if total > cursor.saturating_add(MIB) {
        let r = FreeRegion { offset_bytes: cursor, size_bytes: (total - cursor) as u64 };
        let f2 = found.push(r);
        assert(f2 == free_regions_of(total, parts));
        assert forall|i: int, j: int| 0 <= i < j < f2.len()
            implies (#[trigger] f2[i]).offset_bytes + f2[i].size_bytes <= (#[trigger] f2[j]).offset_bytes by {
            if j == found.len() {
                assert(f2[i] == found[i]);
            } else {
                assert(f2[i] == found[i] && f2[j] == found[j]);
            }
        }
        assert forall|i: int| 0 <= i < f2.len() implies (#[trigger] f2[i]).size_bytes > MIB by {
            if i < found.len() {
                assert(f2[i] == found[i]);
            }
        }
    }
}

} // verus!
