//! The shared installer state collected across wizard pages, and the rules a
//! staged manual partition plan must satisfy.

use vstd::prelude::*;
use crate::i18n::gettext;
use crate::text::{contains_char, has_prefix, is_blank, starts_with, str_eq, to_owned_string, trimmed};

verus! {

/// How the target disk should be laid out.
#[derive(Debug, Clone, Copy, PartialEq, Eq, Structural)]
pub enum InstallType {
    /// Erase the whole disk, single root.
    WholeDisk,
    /// Whole disk with LUKS encryption (optionally TPM-bound).
    Encrypted,
    /// A validated, explicitly mounted layout. Disk changes are staged until
    /// the privileged runner starts the installation.
    Manual,
}

/// A stable reference used by a staged partition plan. Existing partitions
/// carry enough geometry to detect a stale/changed disk before any write.
#[derive(Debug, Clone, PartialEq, Eq)]
pub enum PartitionRef {
    Existing { path: String, start_bytes: u64, size_bytes: u64, part_uuid: Option<String> },
    Planned { id: String },
}

/// One staged change to the partition table.
#[derive(Debug, Clone, PartialEq, Eq)]
pub enum PartitionOperation {
    Delete { target: PartitionRef },
    Create {
        id: String,
        offset_bytes: u64,
        size_bytes: u64,
        gpt_type: String,
        name: String,
        filesystem: String,
        label: String,
    },
    Format { target: PartitionRef, filesystem: String, label: String },
}

/// Where a partition is mounted in the installed system.
#[derive(Debug, Clone, PartialEq, Eq)]
pub struct MountAssignment {
    pub target: PartitionRef,
    pub mount_point: String,
    pub filesystem: String,
    pub label: String,
}

/// The complete, unprivileged preview of manual disk changes.
#[derive(Debug, Clone, PartialEq, Eq)]
pub struct PartitionPlan {
    pub disk_path: String,
    pub disk_size_bytes: u64,
    pub table_type: String,
    pub operations: Vec<PartitionOperation>,
    pub mounts: Vec<MountAssignment>,
}

/// Mathematical model of a [`PartitionRef`].
pub enum PartitionRefView {
    Existing { path: Seq<char>, start_bytes: u64, size_bytes: u64, part_uuid: Option<Seq<char>> },
    Planned { id: Seq<char> },
}

/// Mathematical model of a [`PartitionOperation`].
pub enum PartitionOperationView {
    Delete { target: PartitionRefView },
    Create {
        id: Seq<char>,
        offset_bytes: u64,
        size_bytes: u64,
        gpt_type: Seq<char>,
        name: Seq<char>,
        filesystem: Seq<char>,
        label: Seq<char>,
    },
    Format { target: PartitionRefView, filesystem: Seq<char>, label: Seq<char> },
}

/// Mathematical model of a [`MountAssignment`].
pub struct MountAssignmentView {
    pub target: PartitionRefView,
    pub mount_point: Seq<char>,
    pub filesystem: Seq<char>,
    pub label: Seq<char>,
}

/// Mathematical model of a [`PartitionPlan`].
pub struct PartitionPlanView {
    pub disk_path: Seq<char>,
    pub disk_size_bytes: u64,
    pub table_type: Seq<char>,
    pub operations: Seq<PartitionOperationView>,
    pub mounts: Seq<MountAssignmentView>,
}

impl View for PartitionRef {
    type V = PartitionRefView;

    open spec fn view(&self) -> PartitionRefView {
        match self {
            PartitionRef::Existing { path, start_bytes, size_bytes, part_uuid } => {
                PartitionRefView::Existing {
                    path: path@,
                    start_bytes: *start_bytes,
                    size_bytes: *size_bytes,
                    part_uuid: part_uuid.deep_view(),
                }
            },
            PartitionRef::Planned { id } => PartitionRefView::Planned { id: id@ },
        }
    }
}

impl View for PartitionOperation {
    type V = PartitionOperationView;

    open spec fn view(&self) -> PartitionOperationView {
        match self {
            PartitionOperation::Delete { target } => PartitionOperationView::Delete {
                target: target@,
            },
            PartitionOperation::Create {
                id,
                offset_bytes,
                size_bytes,
                gpt_type,
                name,
                filesystem,
                label,
            } => PartitionOperationView::Create {
                id: id@,
                offset_bytes: *offset_bytes,
                size_bytes: *size_bytes,
                gpt_type: gpt_type@,
                name: name@,
                filesystem: filesystem@,
                label: label@,
            },
            PartitionOperation::Format { target, filesystem, label } => {
                PartitionOperationView::Format {
                    target: target@,
                    filesystem: filesystem@,
                    label: label@,
                }
            },
        }
    }
}

impl View for MountAssignment {
    type V = MountAssignmentView;

    open spec fn view(&self) -> MountAssignmentView {
        MountAssignmentView {
            target: self.target@,
            mount_point: self.mount_point@,
            filesystem: self.filesystem@,
            label: self.label@,
        }
    }
}

/// The models of a list of operations.
pub open spec fn operations_view(ops: Seq<PartitionOperation>) -> Seq<PartitionOperationView> {
    ops.map_values(|o: PartitionOperation| o@)
}

/// The models of a list of mount assignments.
pub open spec fn mounts_view(ms: Seq<MountAssignment>) -> Seq<MountAssignmentView> {
    ms.map_values(|m: MountAssignment| m@)
}

impl View for PartitionPlan {
    type V = PartitionPlanView;

    open spec fn view(&self) -> PartitionPlanView {
        PartitionPlanView {
            disk_path: self.disk_path@,
            disk_size_bytes: self.disk_size_bytes,
            table_type: self.table_type@,
            operations: operations_view(self.operations@),
            mounts: mounts_view(self.mounts@),
        }
    }
}

/// Whether two optional strings are equal.
pub fn opt_str_eq(a: &Option<String>, b: &Option<String>) -> (r: bool)
    ensures
        r == (a.deep_view() == b.deep_view()),
{
    match (a, b) {
        (Some(x), Some(y)) => str_eq(x.as_str(), y.as_str()),
        (None, None) => true,
        _ => false,
    }
}

/// A copy of an optional string.
pub fn copy_opt_string(a: &Option<String>) -> (r: Option<String>)
    ensures
        r.deep_view() == a.deep_view(),
{
    match a {
        Some(x) => Some(to_owned_string(x.as_str())),
        None => None,
    }
}

impl PartitionRef {
    /// Whether `self` and `other` denote the same partition.
    pub fn same_as(&self, other: &PartitionRef) -> (r: bool)
        ensures
            r == (self@ == other@),
    {
        match (self, other) {
            (
                PartitionRef::Existing { path: p1, start_bytes: s1, size_bytes: z1, part_uuid: u1 },
                PartitionRef::Existing { path: p2, start_bytes: s2, size_bytes: z2, part_uuid: u2 },
            ) => str_eq(p1.as_str(), p2.as_str()) && *s1 == *s2 && *z1 == *z2 && opt_str_eq(u1, u2),
            (PartitionRef::Planned { id: a }, PartitionRef::Planned { id: b }) => str_eq(
                a.as_str(),
                b.as_str(),
            ),
            _ => false,
        }
    }

    /// A copy of this reference.
    pub fn duplicate(&self) -> (r: PartitionRef)
        ensures
            r@ == self@,
    {
        match self {
            PartitionRef::Existing { path, start_bytes, size_bytes, part_uuid } => {
                PartitionRef::Existing {
                    path: to_owned_string(path.as_str()),
                    start_bytes: *start_bytes,
                    size_bytes: *size_bytes,
                    part_uuid: copy_opt_string(part_uuid),
                }
            },
            PartitionRef::Planned { id } => PartitionRef::Planned {
                id: to_owned_string(id.as_str()),
            },
        }
    }
}

impl PartitionOperation {
    /// A copy of this operation.
    pub fn duplicate(&self) -> (r: PartitionOperation)
        ensures
            r@ == self@,
    {
        match self {
            PartitionOperation::Delete { target } => PartitionOperation::Delete {
                target: target.duplicate(),
            },
            PartitionOperation::Create {
                id,
                offset_bytes,
                size_bytes,
                gpt_type,
                name,
                filesystem,
                label,
            } => PartitionOperation::Create {
                id: to_owned_string(id.as_str()),
                offset_bytes: *offset_bytes,
                size_bytes: *size_bytes,
                gpt_type: to_owned_string(gpt_type.as_str()),
                name: to_owned_string(name.as_str()),
                filesystem: to_owned_string(filesystem.as_str()),
                label: to_owned_string(label.as_str()),
            },
            PartitionOperation::Format { target, filesystem, label } => {
                PartitionOperation::Format {
                    target: target.duplicate(),
                    filesystem: to_owned_string(filesystem.as_str()),
                    label: to_owned_string(label.as_str()),
                }
            },
        }
    }
}

impl MountAssignment {
    /// A copy of this assignment.
    pub fn duplicate(&self) -> (r: MountAssignment)
        ensures
            r@ == self@,
    {
        MountAssignment {
            target: self.target.duplicate(),
            mount_point: to_owned_string(self.mount_point.as_str()),
            filesystem: to_owned_string(self.filesystem.as_str()),
            label: to_owned_string(self.label.as_str()),
        }
    }
}

/// A copy of a list of operations.
pub fn copy_operations(ops: &Vec<PartitionOperation>) -> (r: Vec<PartitionOperation>)
    ensures
        operations_view(r@) == operations_view(ops@),
{
    let mut r: Vec<PartitionOperation> = Vec::new();
    let mut i: usize = 0;
    while i < ops.len()
        invariant
            i <= ops@.len(),
            r@.len() == i,
            forall|k: int| 0 <= k < i ==> (#[trigger] r@[k])@ == ops@[k]@,
        decreases ops@.len() - i,
    {
        r.push(ops[i].duplicate());
        i = i + 1;
    }
    assert(operations_view(r@) =~= operations_view(ops@));
    r
}

/// A copy of a list of mount assignments.
pub fn copy_mounts(ms: &Vec<MountAssignment>) -> (r: Vec<MountAssignment>)
    ensures
        mounts_view(r@) == mounts_view(ms@),
{
    let mut r: Vec<MountAssignment> = Vec::new();
    let mut i: usize = 0;
    while i < ms.len()
        invariant
            i <= ms@.len(),
            r@.len() == i,
            forall|k: int| 0 <= k < i ==> (#[trigger] r@[k])@ == ms@[k]@,
        decreases ms@.len() - i,
    {
        r.push(ms[i].duplicate());
        i = i + 1;
    }
    assert(mounts_view(r@) =~= mounts_view(ms@));
    r
}

impl PartitionPlan {
    /// A copy of this plan.
    pub fn duplicate(&self) -> (r: PartitionPlan)
        ensures
            r@ == self@,
    {
        PartitionPlan {
            disk_path: to_owned_string(self.disk_path.as_str()),
            disk_size_bytes: self.disk_size_bytes,
            table_type: to_owned_string(self.table_type.as_str()),
            operations: copy_operations(&self.operations),
            mounts: copy_mounts(&self.mounts),
        }
    }
}

/// A copy of an optional plan.
pub fn copy_opt_plan(p: &Option<PartitionPlan>) -> (r: Option<PartitionPlan>)
    ensures
        opt_plan_view(r) == opt_plan_view(*p),
{
    match p {
        Some(plan) => Some(plan.duplicate()),
        None => None,
    }
}

/// The model of an optional plan.
pub open spec fn opt_plan_view(p: Option<PartitionPlan>) -> Option<PartitionPlanView> {
    match p {
        Some(plan) => Some(plan@),
        None => None,
    }
}

// ---------------------------------------------------------------------------
// Validation of a manual plan
// ---------------------------------------------------------------------------

/// Smallest root partition a manual plan may use (20 GiB).
pub const MIN_ROOT_BYTES: u64 = 21474836480;

/// Smallest EFI system partition a manual plan may use (512 MiB).
pub const MIN_ESP_BYTES: u64 = 536870912;

/// Planned partitions start at 1 MiB or later.
pub const FIRST_USABLE_OFFSET: u64 = 1048576;

/// The filesystems Sirius can create.
pub open spec fn supported_filesystem(fs: Seq<char>) -> bool {
    fs == "btrfs"@ || fs == "ext4"@ || fs == "vfat"@ || fs == "swap"@
}

/// The error a rejected filesystem name produces.
pub open spec fn unsupported_filesystem_message(fs: Seq<char>) -> Seq<char> {
    "unsupported filesystem: "@ + fs
}

/// An ASCII hexadecimal digit, in either case.
pub open spec fn is_hex_digit(c: char) -> bool {
    ('0' <= c && c <= '9') || ('a' <= c && c <= 'f') || ('A' <= c && c <= 'F')
}

/// 32 hexadecimal digits.
pub open spec fn simple_uuid(s: Seq<char>) -> bool {
    s.len() == 32 && forall|i: int| 0 <= i < 32 ==> is_hex_digit(#[trigger] s[i])
}

/// Where the hyphens of a hyphenated UUID stand.
pub open spec fn uuid_hyphen_at(i: int) -> bool {
    i == 8 || i == 13 || i == 18 || i == 23
}

/// The 8-4-4-4-12 hyphenated form: hyphens at 8, 13, 18 and 23, hex digits elsewhere.
pub open spec fn hyphenated_uuid(s: Seq<char>) -> bool {
    &&& s.len() == 36
    &&& forall|i: int| 0 <= i < 36 ==> (if uuid_hyphen_at(i) { #[trigger] s[i] == '-' } else { is_hex_digit(s[i]) })
}

/// The text `uuid::Uuid::new_v4().to_string()` gives: the hyphenated form in
/// lower case, with version digit `4` at index 14 and an RFC 4122 variant
/// digit (`8`, `9`, `a` or `b`) at index 19.
pub open spec fn random_uuid_text(s: Seq<char>) -> bool {
    &&& hyphenated_uuid(s)
    &&& forall|i: int| 0 <= i < 36 ==> !('A' <= #[trigger] s[i] && s[i] <= 'F')
    &&& s[14] == '4'
    &&& (s[19] == '8' || s[19] == '9' || s[19] == 'a' || s[19] == 'b')
}

/// `c` lower-cased if it is an ASCII capital.
pub open spec fn ascii_fold(c: char) -> char {
    if 'A' <= c && c <= 'Z' { ((c as u32) + 32) as char } else { c }
}

/// The texts `uuid::Uuid::parse_str` accepts: 32 hex digits; the hyphenated
/// form; the hyphenated form in braces; or `urn:uuid:` (in any ASCII case)
/// followed by the hyphenated form. Hex digits may be of either case.
pub open spec fn uuid_text_parses(text: Seq<char>) -> bool {
    ||| simple_uuid(text)
    ||| hyphenated_uuid(text)
    ||| (text.len() == 38 && text[0] == '{' && text[37] == '}' && hyphenated_uuid(text.subrange(1, 37)))
    ||| (text.len() == 45
        && (forall|i: int| 0 <= i < 9 ==> ascii_fold(#[trigger] text[i]) == "urn:uuid:"@[i])
        && hyphenated_uuid(text.subrange(9, 45)))
}

/// `uuid::Uuid::parse_str`: whether it accepts `text`, which is exactly when
/// `text` has one of the forms [`uuid_text_parses`] lists (the parser reads
/// the bytes of the text by length: 32, 36, 38 or 45, and every accepted byte
/// is ASCII, so counting characters comes to the same).
#[verifier::external_body]
fn uuid_parses(text: &str) -> (ok: bool)
    ensures
        ok == uuid_text_parses(text@),
{
    uuid::Uuid::parse_str(text).is_ok()
}

/// Whether a Create among `ops[0..i]` uses `id`.
pub open spec fn created_before(ops: Seq<PartitionOperationView>, i: int, id: Seq<char>) -> bool {
    exists|j: int| 0 <= j < i && (#[trigger] ops[j] matches PartitionOperationView::Create { id: other, .. } && other == id)
}

/// The first problem with `ops[i]` alone (ids, geometry, type, filesystem,
/// names), given the operations before it.
pub open spec fn operation_error(ops: Seq<PartitionOperationView>, i: int, disk_size: u64) -> Option<Seq<char>> {
    match ops[i] {
        PartitionOperationView::Create { id, offset_bytes, size_bytes, gpt_type, name, filesystem, label } => {
            if id.len() == 0 || created_before(ops, i, id) {
                Some("planned partition ids must be unique"@)
            } else if offset_bytes < FIRST_USABLE_OFFSET || size_bytes == 0 || offset_bytes
                + size_bytes > disk_size {
                Some("a planned partition is outside the destination disk"@)
            } else if !uuid_text_parses(gpt_type) {
                Some("a planned partition has an invalid GPT type"@)
            } else if !supported_filesystem(filesystem) {
                Some(unsupported_filesystem_message(filesystem))
            } else if name.contains('\0') || label.contains('\0') {
                Some("partition names and labels cannot contain NUL bytes"@)
            } else {
                None
            }
        },
        PartitionOperationView::Format { filesystem, label, .. } => {
            if !supported_filesystem(filesystem) {
                Some(unsupported_filesystem_message(filesystem))
            } else if label.contains('\0') {
                Some("partition labels cannot contain NUL bytes"@)
            } else {
                None
            }
        },
        PartitionOperationView::Delete { .. } => None,
    }
}

/// The first operation problem among `ops[0..k]`.
pub open spec fn first_operation_error(ops: Seq<PartitionOperationView>, k: int, disk_size: u64) -> Option<Seq<char>>
    decreases k,
{
    if k <= 0 {
        None
    } else {
        match first_operation_error(ops, k - 1, disk_size) {
            Some(e) => Some(e),
            None => operation_error(ops, k - 1, disk_size),
        }
    }
}

/// `b` is a Create that starts inside the partition Create `a` makes.
pub open spec fn starts_inside(a: PartitionOperationView, b: PartitionOperationView) -> bool {
    a matches PartitionOperationView::Create { offset_bytes: oa, size_bytes: sa, .. } && b matches PartitionOperationView::Create { offset_bytes: ob, .. } && oa <= ob && ob < oa + sa
}

/// Two planned partitions share bytes: some Create starts inside another.
pub open spec fn creates_overlap(ops: Seq<PartitionOperationView>) -> bool {
    exists|i: int, j: int|
        0 <= i < ops.len() && 0 <= j < ops.len() && i != j && #[trigger] starts_inside(ops[i], ops[j])
}

/// Whether some Create in `ops` uses `id`.
pub open spec fn planned_exists(ops: Seq<PartitionOperationView>, id: Seq<char>) -> bool {
    created_before(ops, ops.len() as int, id)
}

/// The problem with a reference, if any.
pub open spec fn reference_error(t: PartitionRefView, ops: Seq<PartitionOperationView>, disk_size: u64) -> Option<Seq<char>> {
    match t {
        PartitionRefView::Existing { path, start_bytes, size_bytes, .. } => {
            if !has_prefix(path, "/dev/"@) || size_bytes == 0 || start_bytes + size_bytes > disk_size {
                Some("an existing partition reference is invalid"@)
            } else {
                None
            }
        },
        PartitionRefView::Planned { id } => {
            if !planned_exists(ops, id) {
                Some("planned partition does not exist: "@ + id)
            } else {
                None
            }
        },
    }
}

/// `op` writes a filesystem onto the partition `t` denotes.
pub open spec fn formats_target(op: PartitionOperationView, t: PartitionRefView) -> bool {
    match op {
        PartitionOperationView::Format { target, .. } => target == t,
        PartitionOperationView::Create { id, .. } => t matches PartitionRefView::Planned { id: tid } && tid == id,
        PartitionOperationView::Delete { .. } => false,
    }
}

/// The filesystem an operation writes (meaningful for Create and Format).
pub open spec fn written_filesystem(op: PartitionOperationView) -> Seq<char> {
    match op {
        PartitionOperationView::Format { filesystem, .. } => filesystem,
        PartitionOperationView::Create { filesystem, .. } => filesystem,
        PartitionOperationView::Delete { .. } => Seq::empty(),
    }
}

/// The filesystem the last operation among `ops[0..k]` that formats `t` writes.
pub open spec fn formatted_filesystem_upto(t: PartitionRefView, ops: Seq<PartitionOperationView>, k: int) -> Option<Seq<char>>
    decreases k,
{
    if k <= 0 {
        None
    } else if formats_target(ops[k - 1], t) {
        Some(written_filesystem(ops[k - 1]))
    } else {
        formatted_filesystem_upto(t, ops, k - 1)
    }
}

/// The filesystem the last operation that formats `t` writes.
pub open spec fn formatted_filesystem(t: PartitionRefView, ops: Seq<PartitionOperationView>) -> Option<Seq<char>> {
    formatted_filesystem_upto(t, ops, ops.len() as int)
}

/// Some operation formats `t`.
pub open spec fn is_formatted(t: PartitionRefView, ops: Seq<PartitionOperationView>) -> bool {
    exists|k: int| 0 <= k < ops.len() && formats_target(#[trigger] ops[k], t)
}

/// The size of the first Create among `ops[0..k]` with this id.
pub open spec fn planned_size_upto(id: Seq<char>, ops: Seq<PartitionOperationView>, k: int) -> Option<u64>
    decreases k,
{
    if k <= 0 {
        None
    } else {
        match planned_size_upto(id, ops, k - 1) {
            Some(s) => Some(s),
            None => match ops[k - 1] {
                PartitionOperationView::Create { id: other, size_bytes, .. } => if other == id {
                    Some(size_bytes)
                } else {
                    None
                },
                _ => None,
            },
        }
    }
}

/// The size of the partition `t` denotes, if known.
pub open spec fn partition_size(t: PartitionRefView, ops: Seq<PartitionOperationView>) -> Option<u64> {
    match t {
        PartitionRefView::Existing { size_bytes, .. } => Some(size_bytes),
        PartitionRefView::Planned { id } => planned_size_upto(id, ops, ops.len() as int),
    }
}

/// The first problem with `ms[i]`, given the mounts before it.
pub open spec fn mount_error(p: PartitionPlanView, i: int) -> Option<Seq<char>> {
    let m = p.mounts[i];
    if !supported_filesystem(m.filesystem) {
        Some(unsupported_filesystem_message(m.filesystem))
    } else if !has_prefix(m.mount_point, "/"@) || (exists|j: int| 0 <= j < i && #[trigger] p.mounts[j].mount_point == m.mount_point) {
        Some("mount points must be unique absolute paths"@)
    } else if reference_error(m.target, p.operations, p.disk_size_bytes) is Some {
        reference_error(m.target, p.operations, p.disk_size_bytes)
    } else if formatted_filesystem(m.target, p.operations) matches Some(fs) && fs != m.filesystem {
        Some("a mount assignment does not match its formatted filesystem"@)
    } else {
        None
    }
}

/// The first mount problem among `mounts[0..k]`.
pub open spec fn first_mount_error(p: PartitionPlanView, k: int) -> Option<Seq<char>>
    decreases k,
{
    if k <= 0 {
        None
    } else {
        match first_mount_error(p, k - 1) {
            Some(e) => Some(e),
            None => mount_error(p, k - 1),
        }
    }
}

/// The problem with the references of `ops[i]`.
pub open spec fn target_error(p: PartitionPlanView, i: int) -> Option<Seq<char>> {
    match p.operations[i] {
        PartitionOperationView::Delete { target } => match target {
            PartitionRefView::Planned { .. } => Some("a partition cannot be deleted before it is created"@),
            _ => reference_error(target, p.operations, p.disk_size_bytes),
        },
        PartitionOperationView::Format { target, .. } => reference_error(target, p.operations, p.disk_size_bytes),
        PartitionOperationView::Create { .. } => None,
    }
}

/// The first reference problem among `operations[0..k]`.
pub open spec fn first_target_error(p: PartitionPlanView, k: int) -> Option<Seq<char>>
    decreases k,
{
    if k <= 0 {
        None
    } else {
        match first_target_error(p, k - 1) {
            Some(e) => Some(e),
            None => target_error(p, k - 1),
        }
    }
}

/// The mounts among `ms[0..k]` whose mount point is `mp`, in order.
pub open spec fn mounts_at_upto(ms: Seq<MountAssignmentView>, mp: Seq<char>, k: int) -> Seq<MountAssignmentView>
    decreases k,
{
    if k <= 0 {
        Seq::empty()
    } else if ms[k - 1].mount_point == mp {
        mounts_at_upto(ms, mp, k - 1).push(ms[k - 1])
    } else {
        mounts_at_upto(ms, mp, k - 1)
    }
}

/// The mounts whose mount point is `mp`, in order.
pub open spec fn mounts_at(ms: Seq<MountAssignmentView>, mp: Seq<char>) -> Seq<MountAssignmentView> {
    mounts_at_upto(ms, mp, ms.len() as int)
}

/// The problem with the root and EFI mounts, if any.
pub open spec fn layout_error(p: PartitionPlanView, uefi: bool) -> Option<Seq<char>> {
    let roots = mounts_at(p.mounts, "/"@);
    let esps = mounts_at(p.mounts, "/boot/efi"@);
    if roots.len() != 1 {
        Some("choose exactly one root partition"@)
    } else if !(roots[0].filesystem == "btrfs"@ || roots[0].filesystem == "ext4"@) {
        Some("the root partition must use Btrfs or ext4"@)
    } else if (match partition_size(roots[0].target, p.operations) {
        Some(s) => s,
        None => 0,
    }) < MIN_ROOT_BYTES {
        Some("the root partition must be at least 20 GiB"@)
    } else if !is_formatted(roots[0].target, p.operations) {
        Some("the root partition must be explicitly formatted"@)
    } else if uefi && (esps.len() != 1 || esps[0].filesystem != "vfat"@) {
        Some("choose one FAT32 EFI system partition"@)
    } else if uefi && (match partition_size(esps[0].target, p.operations) {
        Some(s) => s,
        None => 0,
    }) < MIN_ESP_BYTES {
        Some("the EFI system partition must be at least 512 MiB"@)
    } else {
        None
    }
}

/// The first reason a manual plan is rejected, checked in this order: the
/// partition table, the disk, each operation, overlaps, each mount, each
/// reference, then the root and (on UEFI machines) EFI partitions.
pub open spec fn plan_error(p: PartitionPlanView, uefi: bool) -> Option<Seq<char>> {
    if p.table_type != "gpt"@ {
        Some("manual partitioning requires a GPT disk"@)
    } else if !has_prefix(p.disk_path, "/dev/"@) || p.disk_size_bytes == 0 {
        Some("manual partitioning requires a valid destination disk"@)
    } else if first_operation_error(p.operations, p.operations.len() as int, p.disk_size_bytes) is Some {
        first_operation_error(p.operations, p.operations.len() as int, p.disk_size_bytes)
    } else if creates_overlap(p.operations) {
        Some("planned partitions overlap"@)
    } else if first_mount_error(p, p.mounts.len() as int) is Some {
        first_mount_error(p, p.mounts.len() as int)
    } else if first_target_error(p, p.operations.len() as int) is Some {
        first_target_error(p, p.operations.len() as int)
    } else {
        layout_error(p, uefi)
    }
}

/// The outcome `validate` owes for a plan.
pub open spec fn validation_result(p: PartitionPlanView, uefi: bool, r: Result<(), Seq<char>>) -> bool {
    match plan_error(p, uefi) {
        Some(e) => r == Err::<(), Seq<char>>(e),
        None => r is Ok,
    }
}

/// The model of a `Result<(), String>`.
pub open spec fn unit_result_view(r: Result<(), String>) -> Result<(), Seq<char>> {
    match r {
        Ok(()) => Ok(()),
        Err(e) => Err(e@),
    }
}

fn message(text: &str) -> (r: String)
    ensures
        r@ == text@,
{
    to_owned_string(text)
}

/// Whether `fs` is one of the filesystems Sirius can create.
pub fn is_supported_filesystem(fs: &str) -> (r: bool)
    ensures
        r == supported_filesystem(fs@),
{
    str_eq(fs, "btrfs") || str_eq(fs, "ext4") || str_eq(fs, "vfat") || str_eq(fs, "swap")
}

/// `Ok` for a filesystem Sirius can create, else the rejection message.
pub fn validate_filesystem(fs: &str) -> (r: Result<(), String>)
    ensures
        r is Ok <==> supported_filesystem(fs@),
        r matches Err(e) ==> e@ == unsupported_filesystem_message(fs@),
{
    if is_supported_filesystem(fs) {
        Ok(())
    } else {
        let mut m = message("unsupported filesystem: ");
        m.append(fs);
        Err(m)
    }
}

fn created_before_exec(ops: &Vec<PartitionOperation>, i: usize, id: &str) -> (r: bool)
    requires
        i <= ops@.len(),
    ensures
        r == created_before(operations_view(ops@), i as int, id@),
{
    let ghost v = operations_view(ops@);
    let mut j: usize = 0;
    while j < i
        invariant
            i <= ops@.len(),
            v == operations_view(ops@),
            j <= i,
            forall|k: int| 0 <= k < j ==> !(#[trigger] v[k] matches PartitionOperationView::Create { id: other, .. } && other == id@),
        decreases i - j,
    {
        if let PartitionOperation::Create { id: other, .. } = &ops[j] {
            if str_eq(other.as_str(), id) {
                assert(v[j as int] matches PartitionOperationView::Create { id: o, .. } && o == id@);
                return true;
            }
        }
        j = j + 1;
    }
    false
}

fn operation_error_exec(ops: &Vec<PartitionOperation>, i: usize, disk_size: u64) -> (r: Result<(), String>)
    requires
        i < ops@.len(),
    ensures
        match operation_error(operations_view(ops@), i as int, disk_size) {
            Some(e) => r matches Err(m) && m@ == e,
            None => r is Ok,
        },
{
    let ghost v = operations_view(ops@);
    assert(v[i as int] == ops@[i as int]@);
    match &ops[i] {
        PartitionOperation::Create { id, offset_bytes, size_bytes, gpt_type, name, filesystem, label } => {
            if id.as_str().unicode_len() == 0 || created_before_exec(ops, i, id.as_str()) {
                return Err(message("planned partition ids must be unique"));
            }
            if *offset_bytes < FIRST_USABLE_OFFSET || *size_bytes == 0 || offset_bytes.checked_add(
                *size_bytes,
            ).is_none() || offset_bytes + size_bytes > disk_size {
                return Err(message("a planned partition is outside the destination disk"));
            }
            if !uuid_parses(gpt_type.as_str()) {
                return Err(message("a planned partition has an invalid GPT type"));
            }
            validate_filesystem(filesystem.as_str())?;
            if contains_char(name.as_str(), '\0') || contains_char(label.as_str(), '\0') {
                return Err(message("partition names and labels cannot contain NUL bytes"));
            }
            Ok(())
        },
        PartitionOperation::Format { filesystem, label, .. } => {
            validate_filesystem(filesystem.as_str())?;
            if contains_char(label.as_str(), '\0') {
                return Err(message("partition labels cannot contain NUL bytes"));
            }
            Ok(())
        },
        PartitionOperation::Delete { .. } => Ok(()),
    }
}

proof fn lemma_first_operation_error_stable(ops: Seq<PartitionOperationView>, k: int, n: int, d: u64)
    requires
        0 <= k <= n,
        first_operation_error(ops, k, d) is Some,
    ensures
        first_operation_error(ops, n, d) == first_operation_error(ops, k, d),
    decreases n - k,
{
    if n > k {
        lemma_first_operation_error_stable(ops, k, n - 1, d);
    }
}

proof fn lemma_first_mount_error_stable(p: PartitionPlanView, k: int, n: int)
    requires
        0 <= k <= n,
        first_mount_error(p, k) is Some,
    ensures
        first_mount_error(p, n) == first_mount_error(p, k),
    decreases n - k,
{
    if n > k {
        lemma_first_mount_error_stable(p, k, n - 1);
    }
}

proof fn lemma_first_target_error_stable(p: PartitionPlanView, k: int, n: int)
    requires
        0 <= k <= n,
        first_target_error(p, k) is Some,
    ensures
        first_target_error(p, n) == first_target_error(p, k),
    decreases n - k,
{
    if n > k {
        lemma_first_target_error_stable(p, k, n - 1);
    }
}

fn first_operation_error_exec(ops: &Vec<PartitionOperation>, disk_size: u64) -> (r: Result<(), String>)
    ensures
        match first_operation_error(operations_view(ops@), ops@.len() as int, disk_size) {
            Some(e) => r matches Err(m) && m@ == e,
            None => r is Ok,
        },
{
    let ghost v = operations_view(ops@);
    let mut i: usize = 0;
    while i < ops.len()
        invariant
            v == operations_view(ops@),
            i <= ops@.len(),
            first_operation_error(v, i as int, disk_size) is None,
        decreases ops@.len() - i,
    {
        let r = operation_error_exec(ops, i, disk_size);
        if r.is_err() {
            proof {
                lemma_first_operation_error_stable(v, i + 1, ops@.len() as int, disk_size);
            }
            return r;
        }
        i = i + 1;
    }
    Ok(())
}

fn starts_inside_exec(a: &PartitionOperation, b: &PartitionOperation) -> (r: bool)
    ensures
        r == starts_inside(a@, b@),
{
    match (a, b) {
        (
            PartitionOperation::Create { offset_bytes: oa, size_bytes: sa, .. },
            PartitionOperation::Create { offset_bytes: ob, .. },
        ) => *oa <= *ob && (*ob as u128) < (*oa as u128) + (*sa as u128),
        _ => false,
    }
}

fn creates_overlap_exec(ops: &Vec<PartitionOperation>) -> (r: bool)
    ensures
        r == creates_overlap(operations_view(ops@)),
{
    let ghost v = operations_view(ops@);
    let n = ops.len();
    let mut i: usize = 0;
    while i < n
        invariant
            v == operations_view(ops@),
            n == ops@.len(),
            i <= n,
            forall|a: int, b: int| 0 <= a < i && 0 <= b < n && a != b ==> !#[trigger] starts_inside(v[a], v[b]),
        decreases n - i,
    {
        let mut j: usize = 0;
        while j < n
            invariant
                v == operations_view(ops@),
                n == ops@.len(),
                i < n,
                j <= n,
                forall|a: int, b: int| 0 <= a < i && 0 <= b < n && a != b ==> !#[trigger] starts_inside(v[a], v[b]),
                forall|b: int| 0 <= b < j && i != b ==> !#[trigger] starts_inside(v[i as int], v[b]),
            decreases n - j,
        {
            if i != j && starts_inside_exec(&ops[i], &ops[j]) {
                assert(starts_inside(v[i as int], v[j as int]));
                return true;
            }
            j = j + 1;
        }
        i = i + 1;
    }
    false
}

fn reference_error_exec(t: &PartitionRef, ops: &Vec<PartitionOperation>, disk_size: u64) -> (r: Result<(), String>)
    ensures
        match reference_error(t@, operations_view(ops@), disk_size) {
            Some(e) => r matches Err(m) && m@ == e,
            None => r is Ok,
        },
{
    match t {
        PartitionRef::Existing { path, start_bytes, size_bytes, .. } => {
            if !starts_with(path.as_str(), "/dev/") || *size_bytes == 0 || (*start_bytes as u128)
                + (*size_bytes as u128) > (disk_size as u128) {
                Err(message("an existing partition reference is invalid"))
            } else {
                Ok(())
            }
        },
        PartitionRef::Planned { id } => {
            if !created_before_exec(ops, ops.len(), id.as_str()) {
                let mut m = message("planned partition does not exist: ");
                m.append(id.as_str());
                Err(m)
            } else {
                Ok(())
            }
        },
    }
}

fn formats_target_exec(op: &PartitionOperation, t: &PartitionRef) -> (r: bool)
    ensures
        r == formats_target(op@, t@),
{
    match op {
        PartitionOperation::Format { target, .. } => target.same_as(t),
        PartitionOperation::Create { id, .. } => match t {
            PartitionRef::Planned { id: tid } => str_eq(tid.as_str(), id.as_str()),
            _ => false,
        },
        PartitionOperation::Delete { .. } => false,
    }
}

fn written_filesystem_exec(op: &PartitionOperation) -> (r: String)
    ensures
        r@ == written_filesystem(op@),
{
    match op {
        PartitionOperation::Format { filesystem, .. } => to_owned_string(filesystem.as_str()),
        PartitionOperation::Create { filesystem, .. } => to_owned_string(filesystem.as_str()),
        PartitionOperation::Delete { .. } => String::new(),
    }
}

/// The filesystem the last operation that formats `t` writes, if any.
pub fn formatted_filesystem_of(t: &PartitionRef, ops: &Vec<PartitionOperation>) -> (r: Option<String>)
    ensures
        r.deep_view() == formatted_filesystem(t@, operations_view(ops@)),
{
    let ghost v = operations_view(ops@);
    let mut k: usize = ops.len();
    while k > 0
        invariant
            v == operations_view(ops@),
            k <= ops@.len(),
            formatted_filesystem_upto(t@, v, k as int) == formatted_filesystem_upto(t@, v, ops@.len() as int),
        decreases k,
    {
        if formats_target_exec(&ops[k - 1], t) {
            return Some(written_filesystem_exec(&ops[k - 1]));
        }
        k = k - 1;
    }
    None
}

/// Whether some operation formats `t`.
pub fn is_formatted_exec(t: &PartitionRef, ops: &Vec<PartitionOperation>) -> (r: bool)
    ensures
        r == is_formatted(t@, operations_view(ops@)),
{
    let ghost v = operations_view(ops@);
    let mut k: usize = 0;
    while k < ops.len()
        invariant
            v == operations_view(ops@),
            k <= ops@.len(),
            forall|j: int| 0 <= j < k ==> !formats_target(#[trigger] v[j], t@),
        decreases ops@.len() - k,
    {
        if formats_target_exec(&ops[k], t) {
            assert(formats_target(v[k as int], t@));
            return true;
        }
        k = k + 1;
    }
    false
}

/// The size of the partition `t` denotes, if known.
pub fn partition_size_of(t: &PartitionRef, ops: &Vec<PartitionOperation>) -> (r: Option<u64>)
    ensures
        r == partition_size(t@, operations_view(ops@)),
{
    match t {
        PartitionRef::Existing { size_bytes, .. } => Some(*size_bytes),
        PartitionRef::Planned { id } => {
            let ghost v = operations_view(ops@);
            let mut k: usize = 0;
            while k < ops.len()
                invariant
                    v == operations_view(ops@),
                    t@ == (PartitionRefView::Planned { id: id@ }),
                    k <= ops@.len(),
                    planned_size_upto(id@, v, k as int) is None,
                decreases ops@.len() - k,
            {
                assert(v[k as int] == ops@[k as int]@);
                if let PartitionOperation::Create { id: other, size_bytes, .. } = &ops[k] {
                    if str_eq(other.as_str(), id.as_str()) {
                        assert(planned_size_upto(id@, v, k + 1) == Some(*size_bytes));
                        proof {
                            lemma_planned_size_stable(id@, v, k + 1, v.len() as int);
                        }
                        return Some(*size_bytes);
                    }
                }
                k = k + 1;
            }
            None
        },
    }
}

proof fn lemma_planned_size_stable(id: Seq<char>, ops: Seq<PartitionOperationView>, k: int, n: int)
    requires
        0 <= k <= n,
        planned_size_upto(id, ops, k) is Some,
    ensures
        planned_size_upto(id, ops, n) == planned_size_upto(id, ops, k),
    decreases n - k,
{
    if n > k {
        lemma_planned_size_stable(id, ops, k, n - 1);
    }
}

fn mount_error_exec(plan: &PartitionPlan, i: usize) -> (r: Result<(), String>)
    requires
        i < plan.mounts@.len(),
    ensures
        match mount_error(plan@, i as int) {
            Some(e) => r matches Err(m) && m@ == e,
            None => r is Ok,
        },
{
    let ghost p = plan@;
    let m = &plan.mounts[i];
    assert(p.mounts[i as int] == m@);
    validate_filesystem(m.filesystem.as_str())?;
    if !starts_with(m.mount_point.as_str(), "/") {
        return Err(message("mount points must be unique absolute paths"));
    }
    let mut j: usize = 0;
    while j < i
        invariant
            p == plan@,
            i < plan.mounts@.len(),
            j <= i,
            m@ == p.mounts[i as int],
            supported_filesystem(m@.filesystem),
            has_prefix(m@.mount_point, "/"@),
            forall|q: int| 0 <= q < j ==> #[trigger] p.mounts[q].mount_point != m@.mount_point,
        decreases i - j,
    {
        assert(p.mounts[j as int] == plan.mounts@[j as int]@);
        if str_eq(plan.mounts[j].mount_point.as_str(), m.mount_point.as_str()) {
            assert(p.mounts[j as int].mount_point == p.mounts[i as int].mount_point);
            assert(exists|q: int| 0 <= q < i && #[trigger] p.mounts[q].mount_point == p.mounts[i as int].mount_point);
            return Err(message("mount points must be unique absolute paths"));
        }
        j = j + 1;
    }
    reference_error_exec(&m.target, &plan.operations, plan.disk_size_bytes)?;
    match formatted_filesystem_of(&m.target, &plan.operations) {
        Some(fs) => {
            if !str_eq(fs.as_str(), m.filesystem.as_str()) {
                return Err(message("a mount assignment does not match its formatted filesystem"));
            }
        },
        None => {},
    }
    Ok(())
}

fn first_mount_error_exec(plan: &PartitionPlan) -> (r: Result<(), String>)
    ensures
        match first_mount_error(plan@, plan.mounts@.len() as int) {
            Some(e) => r matches Err(m) && m@ == e,
            None => r is Ok,
        },
{
    let mut i: usize = 0;
    while i < plan.mounts.len()
        invariant
            i <= plan.mounts@.len(),
            first_mount_error(plan@, i as int) is None,
        decreases plan.mounts@.len() - i,
    {
        let r = mount_error_exec(plan, i);
        if r.is_err() {
            proof {
                lemma_first_mount_error_stable(plan@, i + 1, plan.mounts@.len() as int);
            }
            return r;
        }
        i = i + 1;
    }
    Ok(())
}

fn target_error_exec(plan: &PartitionPlan, i: usize) -> (r: Result<(), String>)
    requires
        i < plan.operations@.len(),
    ensures
        match target_error(plan@, i as int) {
            Some(e) => r matches Err(m) && m@ == e,
            None => r is Ok,
        },
{
    assert(plan@.operations[i as int] == plan.operations@[i as int]@);
    match &plan.operations[i] {
        PartitionOperation::Delete { target } => match target {
            PartitionRef::Planned { .. } => Err(message("a partition cannot be deleted before it is created")),
            _ => reference_error_exec(target, &plan.operations, plan.disk_size_bytes),
        },
        PartitionOperation::Format { target, .. } => reference_error_exec(
            target,
            &plan.operations,
            plan.disk_size_bytes,
        ),
        PartitionOperation::Create { .. } => Ok(()),
    }
}

fn first_target_error_exec(plan: &PartitionPlan) -> (r: Result<(), String>)
    ensures
        match first_target_error(plan@, plan.operations@.len() as int) {
            Some(e) => r matches Err(m) && m@ == e,
            None => r is Ok,
        },
{
    let mut i: usize = 0;
    while i < plan.operations.len()
        invariant
            i <= plan.operations@.len(),
            first_target_error(plan@, i as int) is None,
        decreases plan.operations@.len() - i,
    {
        let r = target_error_exec(plan, i);
        if r.is_err() {
            proof {
                lemma_first_target_error_stable(plan@, i + 1, plan.operations@.len() as int);
            }
            return r;
        }
        i = i + 1;
    }
    Ok(())
}

/// The models of the mounts at the given indices.
pub open spec fn mounts_at_indices(idx: Seq<usize>, v: Seq<MountAssignmentView>) -> Seq<MountAssignmentView> {
    idx.map_values(|j: usize| v[j as int])
}

/// Indices of the mounts whose mount point is `mp`, in order.
fn mounts_at_exec(ms: &Vec<MountAssignment>, mp: &str) -> (idx: Vec<usize>)
    ensures
        mounts_at_indices(idx@, mounts_view(ms@)) == mounts_at(mounts_view(ms@), mp@),
        forall|q: int| 0 <= q < idx@.len() ==> #[trigger] idx@[q] < ms@.len(),
{
    let ghost v = mounts_view(ms@);
    let mut idx: Vec<usize> = Vec::new();
    let mut k: usize = 0;
    assert(mounts_at_indices(idx@, v) =~= mounts_at_upto(v, mp@, 0));
    while k < ms.len()
        invariant
            v == mounts_view(ms@),
            v.len() == ms@.len(),
            k <= ms@.len(),
            mounts_at_indices(idx@, v) == mounts_at_upto(v, mp@, k as int),
            forall|q: int| 0 <= q < idx@.len() ==> #[trigger] idx@[q] < k,
        decreases ms@.len() - k,
    {
        assert(v[k as int] == ms@[k as int]@);
        let ghost prev = mounts_at_upto(v, mp@, k as int);
        if str_eq(ms[k].mount_point.as_str(), mp) {
            idx.push(k);
            assert(mounts_at_upto(v, mp@, k + 1) == prev.push(v[k as int]));
            assert(mounts_at_indices(idx@, v) =~= prev.push(v[k as int]));
        } else {
            assert(mounts_at_upto(v, mp@, k + 1) == prev);
        }
        k = k + 1;
    }
    idx
}

fn layout_error_exec(plan: &PartitionPlan, uefi: bool) -> (r: Result<(), String>)
    ensures
        match layout_error(plan@, uefi) {
            Some(e) => r matches Err(m) && m@ == e,
            None => r is Ok,
        },
{
    let roots = mounts_at_exec(&plan.mounts, "/");
    let esps = mounts_at_exec(&plan.mounts, "/boot/efi");
    if roots.len() != 1 {
        return Err(message("choose exactly one root partition"));
    }
    let root = &plan.mounts[roots[0]];
    assert(mounts_at_indices(roots@, plan@.mounts)[0] == root@);
    if !(str_eq(root.filesystem.as_str(), "btrfs") || str_eq(root.filesystem.as_str(), "ext4")) {
        return Err(message("the root partition must use Btrfs or ext4"));
    }
    let root_size = match partition_size_of(&root.target, &plan.operations) {
        Some(s) => s,
        None => 0,
    };
    if root_size < MIN_ROOT_BYTES {
        return Err(message("the root partition must be at least 20 GiB"));
    }
    if !is_formatted_exec(&root.target, &plan.operations) {
        return Err(message("the root partition must be explicitly formatted"));
    }
    if uefi {
        if esps.len() != 1 {
            return Err(message("choose one FAT32 EFI system partition"));
        }
        let esp = &plan.mounts[esps[0]];
        assert(mounts_at_indices(esps@, plan@.mounts)[0] == esp@);
        if !str_eq(esp.filesystem.as_str(), "vfat") {
            return Err(message("choose one FAT32 EFI system partition"));
        }
        let esp_size = match partition_size_of(&esp.target, &plan.operations) {
            Some(s) => s,
            None => 0,
        };
        if esp_size < MIN_ESP_BYTES {
            return Err(message("the EFI system partition must be at least 512 MiB"));
        }
    }
    Ok(())
}

impl PartitionPlan {
    /// Smallest root partition a manual plan may use.
    pub const MIN_ROOT_BYTES: u64 = 21474836480;

    /// Smallest EFI system partition a manual plan may use.
    pub const MIN_ESP_BYTES: u64 = 536870912;

    /// Validate the non-destructive shape of a manual plan. The privileged
    /// runner repeats this and additionally compares it to the live topology.
    /// The error is the first rule broken, in the order [`plan_error`] gives.
    pub fn validate(&self, uefi: bool) -> (r: Result<(), String>)
        ensures
            validation_result(self@, uefi, unit_result_view(r)),
    {
        if !str_eq(self.table_type.as_str(), "gpt") {
            return Err(message("manual partitioning requires a GPT disk"));
        }
        if !starts_with(self.disk_path.as_str(), "/dev/") || self.disk_size_bytes == 0 {
            return Err(message("manual partitioning requires a valid destination disk"));
        }
        first_operation_error_exec(&self.operations, self.disk_size_bytes)?;
        if creates_overlap_exec(&self.operations) {
            return Err(message("planned partitions overlap"));
        }
        first_mount_error_exec(self)?;
        first_target_error_exec(self)?;
        layout_error_exec(self, uefi)
    }
}

impl Default for PartitionPlan {
    /// An empty plan for no disk.
    fn default() -> (p: PartitionPlan)
        ensures
            p@.disk_path.len() == 0,
            p@.disk_size_bytes == 0,
            p@.table_type.len() == 0,
            p@.operations.len() == 0,
            p@.mounts.len() == 0,
    {
        let p = PartitionPlan {
            disk_path: String::new(),
            disk_size_bytes: 0,
            table_type: String::new(),
            operations: Vec::new(),
            mounts: Vec::new(),
        };
        assert(p@.operations.len() == 0);
        p
    }
}

// ---------------------------------------------------------------------------
// The user account and the collected configuration
// ---------------------------------------------------------------------------

/// User account fields collected on the user page.
#[derive(Debug, Clone, PartialEq, Eq)]
pub struct UserAccount {
    pub full_name: String,
    pub username: String,
    pub password: String,
    pub password_confirm: String,
    pub hostname: String,
}

/// Mathematical model of a [`UserAccount`].
pub struct UserAccountView {
    pub full_name: Seq<char>,
    pub username: Seq<char>,
    pub password: Seq<char>,
    pub password_confirm: Seq<char>,
    pub hostname: Seq<char>,
}

impl View for UserAccount {
    type V = UserAccountView;

    open spec fn view(&self) -> UserAccountView {
        UserAccountView {
            full_name: self.full_name@,
            username: self.username@,
            password: self.password@,
            password_confirm: self.password_confirm@,
            hostname: self.hostname@,
        }
    }
}

impl Default for UserAccount {
    /// An account with every field empty.
    fn default() -> (u: UserAccount)
        ensures
            u@.full_name.len() == 0,
            u@.username.len() == 0,
            u@.password.len() == 0,
            u@.password_confirm.len() == 0,
            u@.hostname.len() == 0,
    {
        UserAccount {
            full_name: String::new(),
            username: String::new(),
            password: String::new(),
            password_confirm: String::new(),
            hostname: String::new(),
        }
    }
}

/// Why an account, or a passphrase pair, is not acceptable.
#[derive(Debug, Clone, Copy, PartialEq, Eq, Structural)]
pub enum AccountProblem {
    FullNameRequired,
    UsernameRequired,
    UsernameCharacters,
    UsernameStart,
    PasswordTooShort,
    PasswordsDiffer,
    HostnameRequired,
}

/// Why a LUKS passphrase pair is not acceptable.
#[derive(Debug, Clone, Copy, PartialEq, Eq, Structural)]
pub enum PassphraseProblem {
    TooShort,
    Mismatch,
}

/// The number of bytes UTF-8 uses for `c`.
pub open spec fn utf8_width(c: char) -> nat {
    let u = c as u32;
    if u < 0x80 {
        1
    } else if u < 0x800 {
        2
    } else if u < 0x10000 {
        3
    } else {
        4
    }
}

/// The length in bytes of the UTF-8 encoding of `s` (what std's `str::len` counts).
pub open spec fn utf8_len(s: Seq<char>) -> nat
    decreases s.len(),
{
    if s.len() == 0 {
        0
    } else {
        utf8_len(s.drop_last()) + utf8_width(s.last())
    }
}

proof fn lemma_utf8_len_monotone(s: Seq<char>, i: int)
    requires
        0 <= i <= s.len(),
    ensures
        utf8_len(s.subrange(0, i)) <= utf8_len(s),
    decreases s.len() - i,
{
    if i < s.len() {
        lemma_utf8_len_monotone(s, i + 1);
        assert(s.subrange(0, i + 1).drop_last() =~= s.subrange(0, i));
    } else {
        assert(s.subrange(0, i) =~= s);
    }
}

/// Whether the UTF-8 encoding of `s` takes at least `n` bytes.
pub fn utf8_len_at_least(s: &str, n: u64) -> (r: bool)
    requires
        n < 0xffff_ffff_ffff_0000,
    ensures
        r == (utf8_len(s@) >= n),
{
    if n == 0 {
        return true;
    }
    let v = crate::text::chars_of(s);
    let mut acc: u64 = 0;
    let mut i: usize = 0;
    while i < v.len()
        invariant
            v@ == s@,
            i <= v@.len(),
            n < 0xffff_ffff_ffff_0000,
            acc == utf8_len(s@.subrange(0, i as int)),
            acc < n,
        decreases v@.len() - i,
    {
        let u = v[i] as u32;
        let w: u64 = if u < 0x80 {
            1
        } else if u < 0x800 {
            2
        } else if u < 0x10000 {
            3
        } else {
            4
        };
        assert(s@.subrange(0, i + 1).drop_last() =~= s@.subrange(0, i as int));
        acc = acc + w;
        i = i + 1;
        if acc >= n {
            proof {
                lemma_utf8_len_monotone(s@, i as int);
            }
            return true;
        }
    }
    assert(s@.subrange(0, v@.len() as int) =~= s@);
    false
}

/// A character allowed in a user name.
pub open spec fn username_char(c: char) -> bool {
    ('a' <= c <= 'z') || ('0' <= c <= '9') || c == '_' || c == '-'
}

/// The first problem with an account, checked in the order the user page shows them.
pub open spec fn account_problem(u: UserAccountView) -> Option<AccountProblem> {
    if trimmed(u.full_name).len() == 0 {
        Some(AccountProblem::FullNameRequired)
    } else if u.username.len() == 0 {
        Some(AccountProblem::UsernameRequired)
    } else if !(forall|i: int| 0 <= i < u.username.len() ==> username_char(#[trigger] u.username[i])) {
        Some(AccountProblem::UsernameCharacters)
    } else if !('a' <= u.username[0] <= 'z') {
        Some(AccountProblem::UsernameStart)
    } else if utf8_len(u.password) < 8 {
        Some(AccountProblem::PasswordTooShort)
    } else if u.password != u.password_confirm {
        Some(AccountProblem::PasswordsDiffer)
    } else if trimmed(u.hostname).len() == 0 {
        Some(AccountProblem::HostnameRequired)
    } else {
        None
    }
}

/// No account data was collected.
pub open spec fn account_is_empty(u: UserAccountView) -> bool {
    &&& trimmed(u.full_name).len() == 0
    &&& u.username.len() == 0
    &&& u.password.len() == 0
    &&& u.password_confirm.len() == 0
    &&& trimmed(u.hostname).len() == 0
}

/// The first problem with a passphrase pair.
pub open spec fn passphrase_problem(passphrase: Seq<char>, confirm: Seq<char>) -> Option<PassphraseProblem> {
    if utf8_len(passphrase) < 8 {
        Some(PassphraseProblem::TooShort)
    } else if passphrase != confirm {
        Some(PassphraseProblem::Mismatch)
    } else {
        None
    }
}

/// The English text (and gettext msgid) for an account problem.
pub open spec fn account_problem_text(p: AccountProblem) -> Seq<char> {
    match p {
        AccountProblem::FullNameRequired => "Full name is required"@,
        AccountProblem::UsernameRequired => "Username is required"@,
        AccountProblem::UsernameCharacters => "Username may only contain lowercase letters, digits, '_' and '-'"@,
        AccountProblem::UsernameStart => "Username must start with a lowercase letter"@,
        AccountProblem::PasswordTooShort => "Password must be at least 8 characters"@,
        AccountProblem::PasswordsDiffer => "Passwords do not match"@,
        AccountProblem::HostnameRequired => "Hostname is required"@,
    }
}

/// The English text (and gettext msgid) for a passphrase problem.
pub open spec fn passphrase_problem_text(p: PassphraseProblem) -> Seq<char> {
    match p {
        PassphraseProblem::TooShort => "Passphrase must be at least 8 characters"@,
        PassphraseProblem::Mismatch => "Passphrases do not match"@,
    }
}

impl AccountProblem {
    /// The message shown for this problem, in the current locale: the
    /// translation of `self.text()`.
    pub fn translated(self) -> String {
        let msgid = self.text();
        proof {
            match self {
                AccountProblem::FullNameRequired => reveal_strlit("Full name is required"),
                AccountProblem::UsernameRequired => reveal_strlit("Username is required"),
                AccountProblem::UsernameCharacters => reveal_strlit("Username may only contain lowercase letters, digits, '_' and '-'"),
                AccountProblem::UsernameStart => reveal_strlit("Username must start with a lowercase letter"),
                AccountProblem::PasswordTooShort => reveal_strlit("Password must be at least 8 characters"),
                AccountProblem::PasswordsDiffer => reveal_strlit("Passwords do not match"),
                AccountProblem::HostnameRequired => reveal_strlit("Hostname is required"),
            }
        }
        gettext(msgid)
    }

    /// The untranslated English message (the gettext msgid) for this problem.
    pub fn text(self) -> (s: &'static str)
        ensures
            s@ == account_problem_text(self),
    {
        match self {
            AccountProblem::FullNameRequired => "Full name is required",
            AccountProblem::UsernameRequired => "Username is required",
            AccountProblem::UsernameCharacters => "Username may only contain lowercase letters, digits, '_' and '-'",
            AccountProblem::UsernameStart => "Username must start with a lowercase letter",
            AccountProblem::PasswordTooShort => "Password must be at least 8 characters",
            AccountProblem::PasswordsDiffer => "Passwords do not match",
            AccountProblem::HostnameRequired => "Hostname is required",
        }
    }
}

impl PassphraseProblem {
    /// The message shown for this problem, in the current locale: the
    /// translation of `self.text()`.
    pub fn translated(self) -> String {
        let msgid = self.text();
        proof {
            match self {
                PassphraseProblem::TooShort => reveal_strlit("Passphrase must be at least 8 characters"),
                PassphraseProblem::Mismatch => reveal_strlit("Passphrases do not match"),
            }
        }
        gettext(msgid)
    }

    /// The untranslated English message (the gettext msgid) for this problem.
    pub fn text(self) -> (s: &'static str)
        ensures
            s@ == passphrase_problem_text(self),
    {
        match self {
            PassphraseProblem::TooShort => "Passphrase must be at least 8 characters",
            PassphraseProblem::Mismatch => "Passphrases do not match",
        }
    }
}

fn is_username_char(c: char) -> (r: bool)
    ensures
        r == username_char(c),
{
    ('a' <= c && c <= 'z') || ('0' <= c && c <= '9') || c == '_' || c == '-'
}

/// The first problem with a passphrase pair, if any.
pub fn passphrase_problem_of(passphrase: &str, confirm: &str) -> (r: Option<PassphraseProblem>)
    ensures
        r == passphrase_problem(passphrase@, confirm@),
{
    if !utf8_len_at_least(passphrase, 8) {
        Some(PassphraseProblem::TooShort)
    } else if !str_eq(passphrase, confirm) {
        Some(PassphraseProblem::Mismatch)
    } else {
        None
    }
}

/// Validate a dedicated LUKS passphrase pair. Shared by the storage page
/// (inline hint), the Next-gate, and `build_request`. The error is the
/// translated message for [`passphrase_problem`].
pub fn validate_encryption_passphrase(passphrase: &str, confirm: &str) -> (r: Result<(), String>)
    ensures
        r is Ok <==> passphrase_problem(passphrase@, confirm@) is None,
{
    match passphrase_problem_of(passphrase, confirm) {
        Some(problem) => Err(problem.translated()),
        None => Ok(()),
    }
}

impl UserAccount {
    /// Whether no user account data was collected.
    pub fn is_empty(&self) -> (r: bool)
        ensures
            r == account_is_empty(self@),
    {
        is_blank(self.full_name.as_str()) && self.username.as_str().is_empty()
            && self.password.as_str().is_empty() && self.password_confirm.as_str().is_empty()
            && is_blank(self.hostname.as_str())
    }

    /// The first problem with the account, if any.
    pub fn problem(&self) -> (r: Option<AccountProblem>)
        ensures
            r == account_problem(self@),
    {
        if is_blank(self.full_name.as_str()) {
            return Some(AccountProblem::FullNameRequired);
        }
        let name = crate::text::chars_of(self.username.as_str());
        if name.len() == 0 {
            return Some(AccountProblem::UsernameRequired);
        }
        let mut i: usize = 0;
        while i < name.len()
            invariant
                name@ == self.username@,
                name@.len() > 0,
                trimmed(self@.full_name).len() != 0,
                i <= name@.len(),
                forall|j: int| 0 <= j < i ==> username_char(#[trigger] name@[j]),
            decreases name@.len() - i,
        {
            if !is_username_char(name[i]) {
                return Some(AccountProblem::UsernameCharacters);
            }
            i = i + 1;
        }
        if !('a' <= name[0] && name[0] <= 'z') {
            return Some(AccountProblem::UsernameStart);
        }
        if let Some(p) = passphrase_problem_of(self.password.as_str(), self.password_confirm.as_str()) {
            return Some(
                match p {
                    PassphraseProblem::TooShort => AccountProblem::PasswordTooShort,
                    PassphraseProblem::Mismatch => AccountProblem::PasswordsDiffer,
                },
            );
        }
        if is_blank(self.hostname.as_str()) {
            return Some(AccountProblem::HostnameRequired);
        }
        None
    }

    /// Validate the account fields, returning a human-readable error if invalid:
    /// the translated message for the first [`account_problem`].
    pub fn validate(&self) -> (r: Result<(), String>)
        ensures
            r is Ok <==> account_problem(self@) is None,
    {
        match self.problem() {
            Some(problem) => Err(problem.translated()),
            None => Ok(()),
        }
    }

    /// A copy of this account.
    pub fn duplicate(&self) -> (r: UserAccount)
        ensures
            r@ == self@,
    {
        UserAccount {
            full_name: to_owned_string(self.full_name.as_str()),
            username: to_owned_string(self.username.as_str()),
            password: to_owned_string(self.password.as_str()),
            password_confirm: to_owned_string(self.password_confirm.as_str()),
            hostname: to_owned_string(self.hostname.as_str()),
        }
    }
}

/// Everything the wizard collects. Optional fields are `None` until their page runs.
#[derive(Debug, Clone)]
pub struct InstallConfig {
    pub locale: Option<String>,
    pub keyboard: Option<String>,
    pub timezone: Option<String>,
    pub destination_disk: Option<String>,
    pub destination_disk_name: Option<String>,
    pub install_type: Option<InstallType>,
    pub encrypt: bool,
    pub tpm: bool,
    /// Dedicated LUKS passphrase collected on the storage page. It only
    /// crosses the privilege boundary inside `InstallRequest::encryption_key`.
    pub encryption_passphrase: String,
    pub encryption_passphrase_confirm: String,
    pub partition_plan: Option<PartitionPlan>,
    pub user: UserAccount,
}

/// Mathematical model of an [`InstallConfig`].
pub struct InstallConfigView {
    pub locale: Option<Seq<char>>,
    pub keyboard: Option<Seq<char>>,
    pub timezone: Option<Seq<char>>,
    pub destination_disk: Option<Seq<char>>,
    pub destination_disk_name: Option<Seq<char>>,
    pub install_type: Option<InstallType>,
    pub encrypt: bool,
    pub tpm: bool,
    pub encryption_passphrase: Seq<char>,
    pub encryption_passphrase_confirm: Seq<char>,
    pub partition_plan: Option<PartitionPlanView>,
    pub user: UserAccountView,
}

impl View for InstallConfig {
    type V = InstallConfigView;

    open spec fn view(&self) -> InstallConfigView {
        InstallConfigView {
            locale: self.locale.deep_view(),
            keyboard: self.keyboard.deep_view(),
            timezone: self.timezone.deep_view(),
            destination_disk: self.destination_disk.deep_view(),
            destination_disk_name: self.destination_disk_name.deep_view(),
            install_type: self.install_type,
            encrypt: self.encrypt,
            tpm: self.tpm,
            encryption_passphrase: self.encryption_passphrase@,
            encryption_passphrase_confirm: self.encryption_passphrase_confirm@,
            partition_plan: opt_plan_view(self.partition_plan),
            user: self.user@,
        }
    }
}

/// The configuration before any page has run.
pub open spec fn empty_config(c: InstallConfigView) -> bool {
    &&& c.locale is None
    &&& c.keyboard is None
    &&& c.timezone is None
    &&& c.destination_disk is None
    &&& c.destination_disk_name is None
    &&& c.install_type is None
    &&& !c.encrypt
    &&& !c.tpm
    &&& c.encryption_passphrase.len() == 0
    &&& c.encryption_passphrase_confirm.len() == 0
    &&& c.partition_plan is None
    &&& c.user.full_name.len() == 0
    &&& c.user.username.len() == 0
    &&& c.user.password.len() == 0
    &&& c.user.password_confirm.len() == 0
    &&& c.user.hostname.len() == 0
}

impl Default for InstallConfig {
    /// The configuration before any page has run.
    fn default() -> (c: InstallConfig)
        ensures
            empty_config(c@),
    {
        InstallConfig {
            locale: None,
            keyboard: None,
            timezone: None,
            destination_disk: None,
            destination_disk_name: None,
            install_type: None,
            encrypt: false,
            tpm: false,
            encryption_passphrase: String::new(),
            encryption_passphrase_confirm: String::new(),
            partition_plan: None,
            user: UserAccount::default(),
        }
    }
}

impl InstallConfig {
    /// The collected passphrase pair, valid only when encryption is enabled.
    pub fn validate_encryption(&self) -> (r: Result<(), String>)
        ensures
            r is Ok <==> passphrase_problem(self@.encryption_passphrase, self@.encryption_passphrase_confirm) is None,
    {
        validate_encryption_passphrase(
            self.encryption_passphrase.as_str(),
            self.encryption_passphrase_confirm.as_str(),
        )
    }
}

/// A plan that validates has exactly one root mount, on Btrfs or ext4, at
/// least 20 GiB and explicitly formatted; its planned partitions do not
/// overlap; and on a UEFI machine it also has exactly one FAT32 EFI system
/// partition of at least 512 MiB.
pub proof fn law_valid_plan_has_root_and_esp(p: PartitionPlanView, uefi: bool)
    requires
        plan_error(p, uefi) is None,
    ensures
        p.table_type == "gpt"@,
        !creates_overlap(p.operations),
        mounts_at(p.mounts, "/"@).len() == 1,
        mounts_at(p.mounts, "/"@)[0].filesystem == "btrfs"@ || mounts_at(p.mounts, "/"@)[0].filesystem == "ext4"@,
        is_formatted(mounts_at(p.mounts, "/"@)[0].target, p.operations),
        partition_size(mounts_at(p.mounts, "/"@)[0].target, p.operations) matches Some(s) && s >= MIN_ROOT_BYTES,
        uefi ==> mounts_at(p.mounts, "/boot/efi"@).len() == 1 && mounts_at(p.mounts, "/boot/efi"@)[0].filesystem == "vfat"@,
        uefi ==> (partition_size(mounts_at(p.mounts, "/boot/efi"@)[0].target, p.operations) matches Some(s) && s >= MIN_ESP_BYTES),
{
}

/// UEFI validation is stricter than BIOS validation: a plan valid for a UEFI
/// machine is valid for a BIOS one.
pub proof fn law_uefi_valid_implies_bios_valid(p: PartitionPlanView)
    requires
        plan_error(p, true) is None,
    ensures
        plan_error(p, false) is None,
{
}

/// A username must start with an ASCII lowercase letter: an account whose
/// username is non-empty and starts with anything else always has a problem,
/// so `UserAccount::validate` refuses it.
pub proof fn law_username_must_start_lowercase(u: UserAccountView)
    requires
        u.username.len() > 0,
        !('a' <= u.username[0] && u.username[0] <= 'z'),
    ensures
        account_problem(u) is Some,
{
}

proof fn lemma_no_mount_error_below(p: PartitionPlanView, n: int)
    requires
        0 <= n,
        first_mount_error(p, n) is None,
    ensures
        forall|k: int| 0 <= k < n ==> #[trigger] mount_error(p, k) is None,
    decreases n,
{
    if n > 0 {
        lemma_no_mount_error_below(p, n - 1);
    }
}

/// In a plan that validates, every mount point is an absolute path and no two
/// mount assignments share one.
pub proof fn law_valid_plan_mount_points_are_unique(p: PartitionPlanView, uefi: bool)
    requires
        plan_error(p, uefi) is None,
    ensures
        forall|i: int| 0 <= i < p.mounts.len() ==> has_prefix(#[trigger] p.mounts[i].mount_point, "/"@),
        forall|i: int, j: int| 0 <= i < p.mounts.len() && 0 <= j < p.mounts.len() && i != j
            ==> #[trigger] p.mounts[i].mount_point != #[trigger] p.mounts[j].mount_point,
{
    lemma_no_mount_error_below(p, p.mounts.len() as int);
    assert forall|i: int| 0 <= i < p.mounts.len() implies has_prefix(#[trigger] p.mounts[i].mount_point, "/"@) by {
        assert(mount_error(p, i) is None);
    }
    assert forall|i: int, j: int| 0 <= i < p.mounts.len() && 0 <= j < p.mounts.len() && i != j
        implies #[trigger] p.mounts[i].mount_point != #[trigger] p.mounts[j].mount_point by {
        if i < j {
            assert(mount_error(p, j) is None);
        } else {
            assert(mount_error(p, i) is None);
        }
    }
}

} // verus!
