//! Pure editing model for custom partitioning.
//!
//! The UI owns a `PartitionDraft` while the modal is open. Mutations are
//! staged here and become an installer `PartitionPlan` only when the user
//! applies the modal. A rejected edit leaves the draft exactly as it was.

use vstd::prelude::*;
use crate::config_model::{
    MountAssignment, MountAssignmentView, PartitionOperation, PartitionOperationView, PartitionPlan,
    PartitionPlanView, PartitionRef, PartitionRefView, copy_mounts, copy_operations, mounts_view,
    operations_view, random_uuid_text, unit_result_view, validation_result,
};
use crate::storage::{DiskSnapshot, DiskSnapshotView, FreeRegion};
use crate::text::{ascii_lower, ascii_lowercase, has_prefix, starts_with, str_eq, to_owned_string};

verus! {

/// Free space smaller than this (512 MiB) is not offered for a new partition.
pub const MIN_FREE_BYTES: u64 = 536870912;

/// What the partition dialog asks for. The size is in bytes; the dialog's
/// GiB figure is converted before it reaches the draft.
#[derive(Debug, Clone, PartialEq, Eq)]
pub struct PartitionSpec {
    pub size_bytes: u64,
    pub filesystem: String,
    pub mount_point: String,
    pub label: String,
}

/// Mathematical model of a [`PartitionSpec`].
pub struct PartitionSpecView {
    pub size_bytes: u64,
    pub filesystem: Seq<char>,
    pub mount_point: Seq<char>,
    pub label: Seq<char>,
}

impl View for PartitionSpec {
    type V = PartitionSpecView;

    open spec fn view(&self) -> PartitionSpecView {
        PartitionSpecView {
            size_bytes: self.size_bytes,
            filesystem: self.filesystem@,
            mount_point: self.mount_point@,
            label: self.label@,
        }
    }
}

/// Why the dialog's choices are rejected; `sized` when the size is being chosen.
pub open spec fn spec_error(s: PartitionSpecView, sized: bool) -> Option<Seq<char>> {
    if sized && s.size_bytes < MIN_FREE_BYTES {
        Some("partition size must be at least 0.5 GiB"@)
    } else if !crate::config_model::supported_filesystem(s.filesystem) {
        Some(crate::config_model::unsupported_filesystem_message(s.filesystem))
    } else if s.mount_point.len() != 0 && !has_prefix(s.mount_point, "/"@) {
        Some("mount point must be empty or an absolute path"@)
    } else if s.filesystem == "swap"@ && s.mount_point.len() != 0 {
        Some("swap partitions cannot have a mount point"@)
    } else {
        None
    }
}

impl PartitionSpec {
    /// Check the dialog's choices; `allow_resize` when a size is being chosen.
    pub fn validate(&self, allow_resize: bool) -> (r: Result<(), String>)
        ensures
            crate::storage::error_result(spec_error(self@, allow_resize), r),
    {
        if allow_resize && self.size_bytes < MIN_FREE_BYTES {
            return Err(to_owned_string("partition size must be at least 0.5 GiB"));
        }
        crate::config_model::validate_filesystem(self.filesystem.as_str())?;
        let has_mount = self.mount_point.as_str().unicode_len() != 0;
        if has_mount && !starts_with(self.mount_point.as_str(), "/") {
            return Err(to_owned_string("mount point must be empty or an absolute path"));
        }
        if str_eq(self.filesystem.as_str(), "swap") && has_mount {
            return Err(to_owned_string("swap partitions cannot have a mount point"));
        }
        Ok(())
    }
}

/// The GPT type GUID for a new partition: EFI system, Linux swap, or Linux data.
pub open spec fn gpt_type_for(s: PartitionSpecView) -> Seq<char> {
    if s.mount_point == "/boot/efi"@ {
        "c12a7328-f81f-11d2-ba4b-00a0c93ec93b"@
    } else if s.filesystem == "swap"@ {
        "0657fd6d-a4ab-43c4-84e5-0933c84b4f4f"@
    } else {
        "0fc63daf-8483-4772-8e79-3d69d8477de4"@
    }
}

fn gpt_type(spec: &PartitionSpec) -> (r: String)
    ensures
        r@ == gpt_type_for(spec@),
{
    if str_eq(spec.mount_point.as_str(), "/boot/efi") {
        to_owned_string("c12a7328-f81f-11d2-ba4b-00a0c93ec93b")
    } else if str_eq(spec.filesystem.as_str(), "swap") {
        to_owned_string("0657fd6d-a4ab-43c4-84e5-0933c84b4f4f")
    } else {
        to_owned_string("0fc63daf-8483-4772-8e79-3d69d8477de4")
    }
}

/// The space left in a free region once the planned partitions that start in
/// it are accounted for: it begins after the furthest end of those partitions
/// and counts only when more than 512 MiB remain.
pub open spec fn remaining_in(base: FreeRegion, ops: Seq<PartitionOperationView>) -> Option<FreeRegion> {
    let end = base.offset_bytes.saturating_add(base.size_bytes);
    let cursor = planned_cursor(base, ops, ops.len() as int);
    if end > cursor.saturating_add(MIN_FREE_BYTES) {
        Some(FreeRegion { offset_bytes: cursor, size_bytes: (end - cursor) as u64 })
    } else {
        None
    }
}

/// The furthest end of the planned partitions among `ops[0..k]` that start
/// inside `base` (at least `base`'s start).
pub open spec fn planned_cursor(base: FreeRegion, ops: Seq<PartitionOperationView>, k: int) -> u64
    decreases k,
{
    if k <= 0 {
        base.offset_bytes
    } else {
        let c = planned_cursor(base, ops, k - 1);
        let end = base.offset_bytes.saturating_add(base.size_bytes);
        match ops[k - 1] {
            PartitionOperationView::Create { offset_bytes, size_bytes, .. } => if offset_bytes
                >= base.offset_bytes && offset_bytes < end {
                crate::storage::larger(c, offset_bytes.saturating_add(size_bytes))
            } else {
                c
            },
            _ => c,
        }
    }
}

/// The free region `index` of `disk` with the partitions planned in it removed.
pub open spec fn remaining_region_of(disk: DiskSnapshotView, plan: Option<PartitionPlanView>, index: int) -> Option<FreeRegion> {
    if 0 <= index < disk.free_regions.len() {
        match plan {
            Some(p) => remaining_in(disk.free_regions[index], p.operations),
            None => remaining_in(disk.free_regions[index], Seq::empty()),
        }
    } else {
        None
    }
}

/// The space left in free region `index` of `disk` once `plan`'s partitions are placed.
pub fn remaining_region(disk: &DiskSnapshot, plan: Option<&PartitionPlan>, index: usize) -> (r: Option<FreeRegion>)
    ensures
        r == remaining_region_of(
            disk@,
            match plan {
                Some(p) => Some(p@),
                None => None,
            },
            index as int,
        ),
{
    if index >= disk.free_regions.len() {
        return None;
    }
    let base = disk.free_regions[index];
    let end = base.offset_bytes.saturating_add(base.size_bytes);
    let mut cursor = base.offset_bytes;
    let empty: Vec<PartitionOperation> = Vec::new();
    let ops: &Vec<PartitionOperation> = match plan {
        Some(p) => &p.operations,
        None => &empty,
    };
    let ghost v = operations_view(ops@);
    assert(match plan {
        Some(p) => v == p@.operations,
        None => v =~= Seq::<PartitionOperationView>::empty(),
    });
    let mut i: usize = 0;
    while i < ops.len()
        invariant
            v == operations_view(ops@),
            v.len() == ops@.len(),
            i <= ops@.len(),
            end == base.offset_bytes.saturating_add(base.size_bytes),
            cursor == planned_cursor(base, v, i as int),
        decreases ops@.len() - i,
    {
        assert(v[i as int] == ops@[i as int]@);
        if let PartitionOperation::Create { offset_bytes, size_bytes, .. } = &ops[i] {
            if *offset_bytes >= base.offset_bytes && *offset_bytes < end {
                let e = offset_bytes.saturating_add(*size_bytes);
                if e > cursor {
                    cursor = e;
                }
            }
        }
        i = i + 1;
    }
    if end > cursor.saturating_add(MIN_FREE_BYTES) {
        Some(FreeRegion { offset_bytes: cursor, size_bytes: end - cursor })
    } else {
        None
    }
}

/// `op` deletes or formats the partition `t` denotes.
pub open spec fn operation_targets(op: PartitionOperationView, t: PartitionRefView) -> bool {
    match op {
        PartitionOperationView::Delete { target } => target == t,
        PartitionOperationView::Format { target, .. } => target == t,
        PartitionOperationView::Create { .. } => false,
    }
}

/// `ops[0..k]` without the operations that delete or format `t`.
pub open spec fn ops_not_targeting(ops: Seq<PartitionOperationView>, t: PartitionRefView, k: int) -> Seq<PartitionOperationView>
    decreases k,
{
    if k <= 0 {
        Seq::empty()
    } else if operation_targets(ops[k - 1], t) {
        ops_not_targeting(ops, t, k - 1)
    } else {
        ops_not_targeting(ops, t, k - 1).push(ops[k - 1])
    }
}

/// `op` creates the planned partition `id`.
pub open spec fn creates_id(op: PartitionOperationView, id: Seq<char>) -> bool {
    op matches PartitionOperationView::Create { id: other, .. } && other == id
}

/// `ops[0..k]` without the Create of `id`.
pub open spec fn ops_not_creating(ops: Seq<PartitionOperationView>, id: Seq<char>, k: int) -> Seq<PartitionOperationView>
    decreases k,
{
    if k <= 0 {
        Seq::empty()
    } else if creates_id(ops[k - 1], id) {
        ops_not_creating(ops, id, k - 1)
    } else {
        ops_not_creating(ops, id, k - 1).push(ops[k - 1])
    }
}

/// Which mounts survive an edit of `t` that assigns `mount_point`.
pub open spec fn mount_survives_edit(m: MountAssignmentView, t: PartitionRefView, mount_point: Seq<char>) -> bool {
    m.target != t && m.mount_point != mount_point
}

/// Which mounts survive the deletion of `t`.
pub open spec fn mount_survives_delete(m: MountAssignmentView, t: PartitionRefView) -> bool {
    m.target != t
}

/// `ms[0..k]` filtered by `keep`.
pub open spec fn mounts_kept(ms: Seq<MountAssignmentView>, keep: spec_fn(MountAssignmentView) -> bool, k: int) -> Seq<MountAssignmentView>
    decreases k,
{
    if k <= 0 {
        Seq::empty()
    } else if keep(ms[k - 1]) {
        mounts_kept(ms, keep, k - 1).push(ms[k - 1])
    } else {
        mounts_kept(ms, keep, k - 1)
    }
}

/// The mount a spec adds for `t` (none when its mount point is empty).
pub open spec fn added_mounts(t: PartitionRefView, s: PartitionSpecView) -> Seq<MountAssignmentView> {
    if s.mount_point.len() != 0 {
        seq![MountAssignmentView { target: t, mount_point: s.mount_point, filesystem: s.filesystem, label: s.label }]
    } else {
        Seq::empty()
    }
}

/// The reference to existing partition `index` of `disk`.
pub open spec fn existing_ref_of(disk: DiskSnapshotView, index: int) -> PartitionRefView {
    let p = disk.partitions[index];
    PartitionRefView::Existing {
        path: p.path,
        start_bytes: p.start_bytes,
        size_bytes: p.size_bytes,
        part_uuid: if p.part_uuid.len() != 0 { Some(p.part_uuid) } else { None },
    }
}

/// The draft's model: the disk being edited and the plan staged for it.
pub struct PartitionDraftView {
    pub disk: DiskSnapshotView,
    pub plan: PartitionPlanView,
}

/// A plan for `disk` with nothing staged.
pub open spec fn empty_plan_for(disk: DiskSnapshotView) -> PartitionPlanView {
    PartitionPlanView {
        disk_path: disk.path,
        disk_size_bytes: disk.size_bytes,
        table_type: disk.table_type.map_values(|c: char| ascii_lower(c)),
        operations: Seq::empty(),
        mounts: Seq::empty(),
    }
}

/// `plan` with its operations and mounts replaced.
pub open spec fn with_changes(plan: PartitionPlanView, ops: Seq<PartitionOperationView>, ms: Seq<MountAssignmentView>) -> PartitionPlanView {
    PartitionPlanView { operations: ops, mounts: ms, ..plan }
}

/// Why creating in region `region` is refused.
pub open spec fn create_error(d: PartitionDraftView, region: int, s: PartitionSpecView) -> Option<Seq<char>> {
    if spec_error(s, true) is Some {
        spec_error(s, true)
    } else {
        match remaining_region_of(d.disk, Some(d.plan), region) {
            None => Some("the selected free region is no longer available"@),
            Some(free) => if s.size_bytes > free.size_bytes {
                Some("partition size exceeds the available space"@)
            } else {
                None
            },
        }
    }
}

/// The plan after creating a partition with id `id` at the start of the
/// remaining space of `region`.
pub open spec fn created_plan(d: PartitionDraftView, region: int, s: PartitionSpecView, id: Seq<char>) -> PartitionPlanView {
    let free = remaining_region_of(d.disk, Some(d.plan), region)->0;
    let op = PartitionOperationView::Create {
        id: id,
        offset_bytes: free.offset_bytes,
        size_bytes: s.size_bytes,
        gpt_type: gpt_type_for(s),
        name: if s.label.len() == 0 { "Sirius"@ } else { s.label },
        filesystem: s.filesystem,
        label: s.label,
    };
    with_changes(d.plan, d.plan.operations.push(op), d.plan.mounts + added_mounts(PartitionRefView::Planned { id: id }, s))
}

/// Why editing existing partition `index` is refused.
pub open spec fn edit_error(d: PartitionDraftView, index: int, s: PartitionSpecView) -> Option<Seq<char>> {
    if spec_error(s, false) is Some {
        spec_error(s, false)
    } else if !(0 <= index < d.disk.partitions.len()) {
        Some("partition no longer exists"@)
    } else {
        None
    }
}

/// The plan after staging a format of existing partition `index`: earlier
/// deletes and formats of it, and mounts of it or at the same mount point,
/// are dropped first.
pub open spec fn edited_plan(d: PartitionDraftView, index: int, s: PartitionSpecView) -> PartitionPlanView {
    let t = existing_ref_of(d.disk, index);
    let ops = ops_not_targeting(d.plan.operations, t, d.plan.operations.len() as int);
    let ms = mounts_kept(d.plan.mounts, |m: MountAssignmentView| mount_survives_edit(m, t, s.mount_point), d.plan.mounts.len() as int);
    with_changes(
        d.plan,
        ops.push(PartitionOperationView::Format { target: t, filesystem: s.filesystem, label: s.label }),
        ms + added_mounts(t, s),
    )
}

/// Why deleting existing partition `index` is refused.
pub open spec fn delete_existing_error(d: PartitionDraftView, index: int) -> Option<Seq<char>> {
    if !(0 <= index < d.disk.partitions.len()) {
        Some("partition no longer exists"@)
    } else if d.disk.partitions[index].mountpoints.len() != 0 {
        Some("mounted partitions cannot be deleted"@)
    } else {
        None
    }
}

/// The plan after staging the deletion of existing partition `index`.
pub open spec fn deleted_existing_plan(d: PartitionDraftView, index: int) -> PartitionPlanView {
    let t = existing_ref_of(d.disk, index);
    let ops = ops_not_targeting(d.plan.operations, t, d.plan.operations.len() as int);
    let ms = mounts_kept(d.plan.mounts, |m: MountAssignmentView| mount_survives_delete(m, t), d.plan.mounts.len() as int);
    with_changes(d.plan, ops.push(PartitionOperationView::Delete { target: t }), ms)
}

/// Whether the plan creates `id`.
pub open spec fn plans_id(p: PartitionPlanView, id: Seq<char>) -> bool {
    exists|k: int| 0 <= k < p.operations.len() && creates_id(#[trigger] p.operations[k], id)
}

/// The plan after dropping planned partition `id` and its mounts.
pub open spec fn deleted_planned_plan(p: PartitionPlanView, id: Seq<char>) -> PartitionPlanView {
    let t = PartitionRefView::Planned { id: id };
    with_changes(
        p,
        ops_not_creating(p.operations, id, p.operations.len() as int),
        mounts_kept(p.mounts, |m: MountAssignmentView| mount_survives_delete(m, t), p.mounts.len() as int),
    )
}

/// The staged partitioning of one disk.
#[derive(Debug, Clone)]
pub struct PartitionDraft {
    disk: DiskSnapshot,
    plan: PartitionPlan,
}

impl View for PartitionDraft {
    type V = PartitionDraftView;

    closed spec fn view(&self) -> PartitionDraftView {
        PartitionDraftView { disk: self.disk@, plan: self.plan@ }
    }
}

/// The plan targets the draft's disk (by path and size).
pub open spec fn plan_targets_disk(d: PartitionDraftView) -> bool {
    d.plan.disk_path == d.disk.path && d.plan.disk_size_bytes == d.disk.size_bytes
}

/// The outcome of a draft edit: the new state on success, no change on refusal.
pub open spec fn edit_outcome(before: PartitionDraftView, after: PartitionDraftView, error: Option<Seq<char>>, new_plan: PartitionPlanView, r: Result<(), String>) -> bool {
    match error {
        Some(e) => r matches Err(m) && m@ == e && after == before,
        None => r is Ok && after == (PartitionDraftView { disk: before.disk, plan: new_plan }),
    }
}

/// `uuid::Uuid::new_v4().to_string()`: a fresh random (version 4) UUID. Its
/// value is random; what holds of every outcome is its form: the uuid crate
/// masks in version 4 and the RFC 4122 variant and formats it hyphenated in
/// lower case (`Display` goes through `LowerHex`).
#[verifier::external_body]
pub(crate) fn new_uuid_v4() -> (id: String)
    ensures
        random_uuid_text(id@),
{
    uuid::Uuid::new_v4().to_string()
}

fn ops_not_targeting_exec(ops: &Vec<PartitionOperation>, t: &PartitionRef) -> (r: Vec<PartitionOperation>)
    ensures
        operations_view(r@) == ops_not_targeting(operations_view(ops@), t@, ops@.len() as int),
{
    let ghost v = operations_view(ops@);
    let mut r: Vec<PartitionOperation> = Vec::new();
    let mut i: usize = 0;
    while i < ops.len()
        invariant
            v == operations_view(ops@),
            v.len() == ops@.len(),
            i <= ops@.len(),
            operations_view(r@) == ops_not_targeting(v, t@, i as int),
        decreases ops@.len() - i,
    {
        assert(v[i as int] == ops@[i as int]@);
        let hit = match &ops[i] {
            PartitionOperation::Delete { target } => target.same_as(t),
            PartitionOperation::Format { target, .. } => target.same_as(t),
            PartitionOperation::Create { .. } => false,
        };
        if !hit {
            let ghost before = operations_view(r@);
            r.push(ops[i].duplicate());
            assert(operations_view(r@) =~= before.push(v[i as int]));
        }
        i = i + 1;
    }
    r
}

fn ops_not_creating_exec(ops: &Vec<PartitionOperation>, id: &str) -> (r: Vec<PartitionOperation>)
    ensures
        operations_view(r@) == ops_not_creating(operations_view(ops@), id@, ops@.len() as int),
{
    let ghost v = operations_view(ops@);
    let mut r: Vec<PartitionOperation> = Vec::new();
    let mut i: usize = 0;
    while i < ops.len()
        invariant
            v == operations_view(ops@),
            v.len() == ops@.len(),
            i <= ops@.len(),
            operations_view(r@) == ops_not_creating(v, id@, i as int),
        decreases ops@.len() - i,
    {
        assert(v[i as int] == ops@[i as int]@);
        let hit = match &ops[i] {
            PartitionOperation::Create { id: current, .. } => str_eq(current.as_str(), id),
            _ => false,
        };
        if !hit {
            let ghost before = operations_view(r@);
            r.push(ops[i].duplicate());
            assert(operations_view(r@) =~= before.push(v[i as int]));
        }
        i = i + 1;
    }
    r
}

/// Mounts of `ms` kept after an edit (mount point `mp`) or delete (`mp` is None) of `t`.
fn mounts_kept_exec(ms: &Vec<MountAssignment>, t: &PartitionRef, mp: Option<&str>) -> (r: Vec<MountAssignment>)
    ensures
        mounts_view(r@) == (match mp {
            Some(p) => mounts_kept(mounts_view(ms@), |m: MountAssignmentView| mount_survives_edit(m, t@, p@), ms@.len() as int),
            None => mounts_kept(mounts_view(ms@), |m: MountAssignmentView| mount_survives_delete(m, t@), ms@.len() as int),
        }),
{
    let ghost v = mounts_view(ms@);
    let ghost keep: spec_fn(MountAssignmentView) -> bool = match mp {
        Some(p) => |m: MountAssignmentView| mount_survives_edit(m, t@, p@),
        None => |m: MountAssignmentView| mount_survives_delete(m, t@),
    };
    let mut r: Vec<MountAssignment> = Vec::new();
    let mut i: usize = 0;
    while i < ms.len()
        invariant
            v == mounts_view(ms@),
            v.len() == ms@.len(),
            keep == (match mp {
                Some(p) => |m: MountAssignmentView| mount_survives_edit(m, t@, p@),
                None => |m: MountAssignmentView| mount_survives_delete(m, t@),
            }),
            i <= ms@.len(),
            mounts_view(r@) == mounts_kept(v, keep, i as int),
        decreases ms@.len() - i,
    {
        assert(v[i as int] == ms@[i as int]@);
        let m = &ms[i];
        let kept = !m.target.same_as(t) && match mp {
            Some(p) => !str_eq(m.mount_point.as_str(), p),
            None => true,
        };
        assert(kept == keep(v[i as int]));
        if kept {
            let ghost before = mounts_view(r@);
            r.push(m.duplicate());
            assert(mounts_view(r@) =~= before.push(v[i as int]));
        }
        i = i + 1;
    }
    r
}

impl PartitionDraft {
    /// Open a draft for `disk`, starting from `plan` or from an empty plan.
    /// A plan made for another disk, or for this disk at another size, is refused.
    pub fn new(disk: &DiskSnapshot, plan: Option<&PartitionPlan>) -> (r: Result<PartitionDraft, String>)
        ensures
            match plan {
                Some(p) => if p@.disk_path == disk@.path && p@.disk_size_bytes == disk@.size_bytes {
                    r matches Ok(d) && d@ == (PartitionDraftView { disk: disk@, plan: p@ })
                } else {
                    r matches Err(e) && e@ == "partition plan no longer matches the selected disk"@
                },
                None => r matches Ok(d) && d@ == (PartitionDraftView { disk: disk@, plan: empty_plan_for(disk@) }),
            },
            r matches Ok(d) ==> plan_targets_disk(d@),
    {
        let plan = match plan {
            Some(p) => p.duplicate(),
            None => Self::empty_plan(disk),
        };
        if !str_eq(plan.disk_path.as_str(), disk.path.as_str()) || plan.disk_size_bytes != disk.size_bytes {
            return Err(to_owned_string("partition plan no longer matches the selected disk"));
        }
        Ok(PartitionDraft { disk: disk.duplicate(), plan })
    }

    /// A plan for `disk` with nothing staged.
    pub fn empty_plan(disk: &DiskSnapshot) -> (p: PartitionPlan)
        ensures
            p@ == empty_plan_for(disk@),
    {
        let p = PartitionPlan {
            disk_path: to_owned_string(disk.path.as_str()),
            disk_size_bytes: disk.size_bytes,
            table_type: ascii_lowercase(disk.table_type.as_str()),
            operations: Vec::new(),
            mounts: Vec::new(),
        };
        assert(p@.operations =~= Seq::<PartitionOperationView>::empty());
        assert(p@.mounts =~= Seq::<MountAssignmentView>::empty());
        p
    }

    /// The staged plan.
    pub fn plan(&self) -> (p: &PartitionPlan)
        ensures
            p@ == self@.plan,
    {
        &self.plan
    }

    /// Give up the draft, keeping its plan.
    pub fn into_plan(self) -> (p: PartitionPlan)
        ensures
            p@ == self@.plan,
    {
        self.plan
    }

    /// Validate the staged plan (see [`PartitionPlan::validate`]).
    pub fn validate(&self, uefi: bool) -> (r: Result<(), String>)
        ensures
            validation_result(self@.plan, uefi, unit_result_view(r)),
    {
        self.plan.validate(uefi)
    }

    /// The space left in free region `index` of the disk.
    pub fn remaining_region(&self, index: usize) -> (r: Option<FreeRegion>)
        ensures
            r == remaining_region_of(self@.disk, Some(self@.plan), index as int),
    {
        remaining_region(&self.disk, Some(&self.plan), index)
    }

    /// Stage a new partition in free region `region`, with a fresh random id.
    pub fn create(&mut self, region: usize, spec: PartitionSpec) -> (r: Result<(), String>)
        ensures
            create_error(old(self)@, region as int, spec@) is Some ==> edit_outcome(old(self)@, final(self)@, create_error(old(self)@, region as int, spec@), old(self)@.plan, r),
            create_error(old(self)@, region as int, spec@) is None ==> r is Ok && exists|id: Seq<char>| random_uuid_text(id)
                && final(self)@ == (PartitionDraftView { disk: old(self)@.disk, plan: #[trigger] created_plan(old(self)@, region as int, spec@, id) }),
    {
        let id = new_uuid_v4();
        self.create_with_id(region, spec, id)
    }

    /// Stage a new partition with id `id` in free region `region`: it starts at
    /// the beginning of the region's remaining space and gets the spec's mount.
    pub fn create_with_id(&mut self, region: usize, spec: PartitionSpec, id: String) -> (r: Result<(), String>)
        ensures
            edit_outcome(old(self)@, final(self)@, create_error(old(self)@, region as int, spec@), created_plan(old(self)@, region as int, spec@, id@), r),
    {
        let v = spec.validate(true);
        if v.is_err() {
            return v;
        }
        let free = match self.remaining_region(region) {
            Some(f) => f,
            None => return Err(to_owned_string("the selected free region is no longer available")),
        };
        if spec.size_bytes > free.size_bytes {
            return Err(to_owned_string("partition size exceeds the available space"));
        }
        let name = if spec.label.as_str().unicode_len() == 0 {
            to_owned_string("Sirius")
        } else {
            to_owned_string(spec.label.as_str())
        };
        let op = PartitionOperation::Create {
            id: to_owned_string(id.as_str()),
            offset_bytes: free.offset_bytes,
            size_bytes: spec.size_bytes,
            gpt_type: gpt_type(&spec),
            name,
            filesystem: to_owned_string(spec.filesystem.as_str()),
            label: to_owned_string(spec.label.as_str()),
        };
        let ghost old_plan = self.plan@;
        self.plan.operations.push(op);
        self.add_mount(PartitionRef::Planned { id }, &spec);
        assert(self.plan@.operations =~= old_plan.operations.push(op@));
        Ok(())
    }

    /// Stage a format (and mount) of existing partition `index`, replacing
    /// earlier staged deletes or formats of it and mounts of it or at the same
    /// mount point.
    pub fn edit_existing(&mut self, index: usize, spec: PartitionSpec) -> (r: Result<(), String>)
        ensures
            edit_outcome(old(self)@, final(self)@, edit_error(old(self)@, index as int, spec@), edited_plan(old(self)@, index as int, spec@), r),
    {
        let v = spec.validate(false);
        if v.is_err() {
            return v;
        }
        let target = match self.existing_ref(index) {
            Ok(t) => t,
            Err(e) => return Err(e),
        };
        let ops = ops_not_targeting_exec(&self.plan.operations, &target);
        let ms = mounts_kept_exec(&self.plan.mounts, &target, Some(spec.mount_point.as_str()));
        let ghost old_plan = self.plan@;
        self.plan.operations = ops;
        self.plan.mounts = ms;
        let ghost ops_v = self.plan@.operations;
        let op = PartitionOperation::Format {
            target: target.duplicate(),
            filesystem: to_owned_string(spec.filesystem.as_str()),
            label: to_owned_string(spec.label.as_str()),
        };
        self.plan.operations.push(op);
        assert(self.plan@.operations =~= ops_v.push(op@));
        self.add_mount(target, &spec);
        Ok(())
    }

    /// Stage the deletion of existing partition `index`, replacing earlier
    /// staged deletes or formats of it and dropping its mounts. Mounted
    /// partitions cannot be deleted.
    pub fn delete_existing(&mut self, index: usize) -> (r: Result<(), String>)
        ensures
            edit_outcome(old(self)@, final(self)@, delete_existing_error(old(self)@, index as int), deleted_existing_plan(old(self)@, index as int), r),
    {
        if index >= self.disk.partitions.len() {
            return Err(to_owned_string("partition no longer exists"));
        }
        assert(self@.disk.partitions[index as int] == self.disk.partitions@[index as int]@);
        if self.disk.partitions[index].mountpoints.len() != 0 {
            return Err(to_owned_string("mounted partitions cannot be deleted"));
        }
        let target = match self.existing_ref(index) {
            Ok(t) => t,
            Err(e) => return Err(e),
        };
        let ops = ops_not_targeting_exec(&self.plan.operations, &target);
        let ms = mounts_kept_exec(&self.plan.mounts, &target, None);
        self.plan.operations = ops;
        self.plan.mounts = ms;
        let ghost ops_v = self.plan@.operations;
        let op = PartitionOperation::Delete { target };
        self.plan.operations.push(op);
        assert(self.plan@.operations =~= ops_v.push(op@));
        Ok(())
    }

    /// Drop the planned partition `id` and its mounts.
    pub fn delete_planned(&mut self, id: &str) -> (r: Result<(), String>)
        ensures
            plans_id(old(self)@.plan, id@) ==> r is Ok && final(self)@ == (PartitionDraftView { disk: old(self)@.disk, plan: deleted_planned_plan(old(self)@.plan, id@) }),
            !plans_id(old(self)@.plan, id@) ==> (r matches Err(e) && e@ == "planned partition no longer exists"@ && final(self)@ == old(self)@),
    {
        let ops = ops_not_creating_exec(&self.plan.operations, id);
        if ops.len() == self.plan.operations.len() {
            proof {
                lemma_not_creating_len(self@.plan.operations, id@, self@.plan.operations.len() as int);
            }
            return Err(to_owned_string("planned partition no longer exists"));
        }
        proof {
            lemma_not_creating_len(self@.plan.operations, id@, self@.plan.operations.len() as int);
        }
        let target = PartitionRef::Planned { id: to_owned_string(id) };
        let ms = mounts_kept_exec(&self.plan.mounts, &target, None);
        self.plan.operations = ops;
        self.plan.mounts = ms;
        Ok(())
    }

    /// The reference to existing partition `index`.
    fn existing_ref(&self, index: usize) -> (r: Result<PartitionRef, String>)
        ensures
            index < self@.disk.partitions.len() ==> (r matches Ok(t) && t@ == existing_ref_of(self@.disk, index as int)),
            index >= self@.disk.partitions.len() ==> (r matches Err(e) && e@ == "partition no longer exists"@),
    {
        if index >= self.disk.partitions.len() {
            return Err(to_owned_string("partition no longer exists"));
        }
        let p = &self.disk.partitions[index];
        assert(self@.disk.partitions[index as int] == p@);
        Ok(PartitionRef::Existing {
            path: to_owned_string(p.path.as_str()),
            start_bytes: p.start_bytes,
            size_bytes: p.size_bytes,
            part_uuid: if p.part_uuid.as_str().unicode_len() != 0 {
                Some(to_owned_string(p.part_uuid.as_str()))
            } else {
                None
            },
        })
    }

    fn add_mount(&mut self, target: PartitionRef, spec: &PartitionSpec)
        ensures
            final(self)@ == (PartitionDraftView {
                plan: with_changes(old(self)@.plan, old(self)@.plan.operations, old(self)@.plan.mounts + added_mounts(target@, spec@)),
                ..old(self)@
            }),
    {
        let ghost before = self.plan@.mounts;
        if spec.mount_point.as_str().unicode_len() != 0 {
            let m = MountAssignment {
                target,
                mount_point: to_owned_string(spec.mount_point.as_str()),
                filesystem: to_owned_string(spec.filesystem.as_str()),
                label: to_owned_string(spec.label.as_str()),
            };
            self.plan.mounts.push(m);
            assert(self.plan@.mounts =~= before + added_mounts(target@, spec@));
        } else {
            assert(self.plan@.mounts =~= before + added_mounts(target@, spec@));
        }
    }
}

proof fn lemma_not_creating_len(ops: Seq<PartitionOperationView>, id: Seq<char>, k: int)
    requires
        0 <= k <= ops.len(),
    ensures
        ops_not_creating(ops, id, k).len() <= k,
        (ops_not_creating(ops, id, k).len() == k) <==> !(exists|j: int| 0 <= j < k && creates_id(#[trigger] ops[j], id)),
    decreases k,
{
    if k > 0 {
        lemma_not_creating_len(ops, id, k - 1);
        if creates_id(ops[k - 1], id) {
            assert(exists|j: int| 0 <= j < k && creates_id(#[trigger] ops[j], id));
        } else {
            if exists|j: int| 0 <= j < k && creates_id(#[trigger] ops[j], id) {
                let j = choose|j: int| 0 <= j < k && creates_id(#[trigger] ops[j], id);
                assert(j < k - 1);
            }
        }
    }
}

proof fn lemma_cursor_at_least_start(base: FreeRegion, ops: Seq<PartitionOperationView>, k: int)
    ensures
        planned_cursor(base, ops, k) >= base.offset_bytes,
    decreases k,
{
    if k > 0 {
        lemma_cursor_at_least_start(base, ops, k - 1);
    }
}

proof fn lemma_cursor_prefix(base: FreeRegion, ops: Seq<PartitionOperationView>, x: PartitionOperationView, k: int)
    requires
        0 <= k <= ops.len(),
    ensures
        planned_cursor(base, ops.push(x), k) == planned_cursor(base, ops, k),
    decreases k,
{
    if k > 0 {
        lemma_cursor_prefix(base, ops, x, k - 1);
        assert(ops.push(x)[k - 1] == ops[k - 1]);
    }
}

/// Creating a partition consumes exactly its size from the start of the free
/// region's remaining space: what is left shrinks by the new size, and counts
/// only while more than 512 MiB remain.
pub proof fn law_create_consumes_space(d: PartitionDraftView, region: int, s: PartitionSpecView, id: Seq<char>)
    requires
        create_error(d, region, s) is None,
    ensures
        remaining_region_of(d.disk, Some(d.plan), region) is Some,
        remaining_region_of(d.disk, Some(created_plan(d, region, s, id)), region) == ({
            let before = remaining_region_of(d.disk, Some(d.plan), region)->0;
            if before.size_bytes - s.size_bytes > MIN_FREE_BYTES {
                Some(FreeRegion {
                    offset_bytes: (before.offset_bytes + s.size_bytes) as u64,
                    size_bytes: (before.size_bytes - s.size_bytes) as u64,
                })
            } else {
                None::<FreeRegion>
            }
        }),
{
    let base = d.disk.free_regions[region];
    let ops = d.plan.operations;
    let free = remaining_region_of(d.disk, Some(d.plan), region)->0;
    let p2 = created_plan(d, region, s, id);
    let op = p2.operations.last();
    assert(p2.operations == ops.push(op));
    lemma_cursor_prefix(base, ops, op, ops.len() as int);
    lemma_cursor_at_least_start(base, ops, ops.len() as int);
    let end = base.offset_bytes.saturating_add(base.size_bytes);
    let c = planned_cursor(base, ops, ops.len() as int);
    assert(free.offset_bytes == c);
    assert(c + s.size_bytes <= end);
    assert(planned_cursor(base, p2.operations, p2.operations.len() as int) == c + s.size_bytes);
}

/// An edit the draft refuses leaves it exactly as it was, and reports why.
pub proof fn law_refused_edit_changes_nothing(
    before: PartitionDraftView,
    after: PartitionDraftView,
    error: Option<Seq<char>>,
    new_plan: PartitionPlanView,
    r: Result<(), String>,
)
    requires
        edit_outcome(before, after, error, new_plan, r),
        error is Some,
    ensures
        after == before,
        r matches Err(m) && m@ == error->0,
{
}

/// A mounted partition is never deleted: when the partition at `index` has a
/// mount point, `delete_existing` (whose outcome `before`, `after` and `r`
/// are) returns an error and leaves the draft as it was; an unmounted
/// partition of the disk is deleted.
pub proof fn law_mounted_partition_is_not_deleted(
    before: PartitionDraftView,
    after: PartitionDraftView,
    index: int,
    r: Result<(), String>,
)
    requires
        edit_outcome(before, after, delete_existing_error(before, index),
            deleted_existing_plan(before, index), r),
        0 <= index < before.disk.partitions.len(),
    ensures
        before.disk.partitions[index].mountpoints.len() != 0 ==> r is Err && after == before,
        before.disk.partitions[index].mountpoints.len() == 0 ==> r is Ok && after.disk == before.disk,
{
}

} // verus!
