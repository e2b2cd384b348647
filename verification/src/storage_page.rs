//! The storage page's state machine: disk choice, layout mode, encryption
//! toggles and the custom-partitioning editor. Manual actions only change the
//! staged `PartitionPlan`; nothing is written to a disk here. Drawing the page
//! and its dialogs is left to the toolkit, which carries out the actions this
//! model returns.

use vstd::prelude::*;
use crate::config_model::{copy_opt_plan, opt_plan_view, random_uuid_text, InstallType, PartitionPlan, PartitionPlanView};
use crate::draft::{
    create_error, created_plan, delete_existing_error, deleted_existing_plan, deleted_planned_plan,
    edit_error, edited_plan, empty_plan_for, plans_id, PartitionDraft,
    PartitionDraftView, PartitionSpec, PartitionSpecView,
};
use crate::pages::{StorageSelection, StorageSelectionView};
use crate::storage::{DiskSnapshot, DiskSnapshotView, FreeRegion, disks_view, format_size, size_text};
use crate::text::to_owned_string;

verus! {

/// What the storage page reports when something is wrong with the draft itself.
pub open spec fn no_draft_message() -> Seq<char> {
    "partition draft is not available"@
}

/// The storage page's state.
pub struct StorageModel {
    /// Whether the machine booted in UEFI mode (plans are validated for it).
    pub uefi: bool,
    /// The disks found, and the scan error when there are none.
    pub disks: Vec<DiskSnapshot>,
    pub error: Option<String>,
    pub selected: Option<usize>,
    pub manual: bool,
    pub encrypt: bool,
    pub tpm: bool,
    pub passphrase: String,
    pub passphrase_confirm: String,
    /// The committed manual plan for the selected disk.
    pub plan: Option<PartitionPlan>,
    /// Whether the partition editor is shown.
    pub editor_open: bool,
    /// The draft edited in the editor; it becomes `plan` only when applied.
    pub editor_draft: Option<PartitionDraft>,
    pub editor_error: Option<String>,
}

/// What the user did on the storage page.
pub enum StorageEvent {
    Selected(usize),
    SetManual(bool),
    OpenCustom,
    CloseCustom,
    ApplyCustom,
    ToggleEncrypt(bool),
    ToggleTpm(bool),
    SetPassphrase { passphrase: String, confirm: String },
    OpenCreate(usize),
    Create { region: usize, spec: PartitionSpec },
    OpenEdit(usize),
    Edit { partition: usize, spec: PartitionSpec },
    Delete(usize),
    DeletePlanned(String),
}

/// What the toolkit must do after an event.
pub enum StorageAction {
    /// Report the storage selection to the application.
    Emit(StorageSelection),
    /// Show the partition editor for the current draft.
    OpenEditor,
    /// Close the partition editor.
    CloseEditor,
    /// Redraw the open editor from the draft and its error.
    RefreshEditor,
    /// Show the create-partition form for free region `region`, which has `free` left.
    ShowCreateDialog { region: usize, free: FreeRegion },
    /// Show the edit form for existing partition `partition`.
    ShowEditDialog { partition: usize },
}

/// The disk at `selected`, if the index is in range.
pub open spec fn selected_disk(disks: Seq<DiskSnapshotView>, selected: Option<usize>) -> Option<DiskSnapshotView> {
    match selected {
        Some(i) => if i < disks.len() { Some(disks[i as int]) } else { None },
        None => None,
    }
}

/// The layout mode the page's toggles select.
pub open spec fn install_type_of(manual: bool, encrypt: bool) -> InstallType {
    if manual {
        InstallType::Manual
    } else if encrypt {
        InstallType::Encrypted
    } else {
        InstallType::WholeDisk
    }
}

impl StorageModel {
    /// The selected disk.
    pub open spec fn disk_view(&self) -> Option<DiskSnapshotView> {
        selected_disk(disks_view(self.disks@), self.selected)
    }

    /// The selection the page reports for `disk`: the chosen disk, the
    /// layout mode, the encryption choices, and the plan in manual mode only.
    pub open spec fn selection_for(&self, disk: DiskSnapshotView) -> StorageSelectionView {
        StorageSelectionView {
            path: disk.path,
            name: disk.model,
            install_type: install_type_of(self.manual, self.encrypt),
            encrypt: self.encrypt,
            tpm: self.tpm,
            encryption_passphrase: self.passphrase@,
            encryption_passphrase_confirm: self.passphrase_confirm@,
            partition_plan: if self.manual { opt_plan_view(self.plan) } else { None },
        }
    }

    /// The actions a report of the selection amounts to: none without a selected disk.
    pub open spec fn emitted(&self, actions: Seq<StorageAction>) -> bool {
        match self.disk_view() {
            Some(d) => actions.len() == 1 && (actions[0] matches StorageAction::Emit(sel) && sel@ == self.selection_for(d)),
            None => actions.len() == 0,
        }
    }

    /// The draft model, if any.
    pub open spec fn draft_view(&self) -> Option<PartitionDraftView> {
        match self.editor_draft {
            Some(d) => Some(d@),
            None => None,
        }
    }

    /// The page as it opens: the disks found (or the scan error), nothing chosen.
    pub fn new(disks: Vec<DiskSnapshot>, error: Option<String>, uefi: bool) -> (m: StorageModel)
        ensures
            m.disks@ == disks@,
            m.error == error,
            m.uefi == uefi,
            m.selected is None,
            !m.manual && !m.encrypt && !m.tpm,
            m.passphrase@.len() == 0 && m.passphrase_confirm@.len() == 0,
            m.plan is None,
            !m.editor_open,
            m.editor_draft is None,
            m.editor_error is None,
    {
        StorageModel {
            uefi,
            disks,
            error,
            selected: None,
            manual: false,
            encrypt: false,
            tpm: false,
            passphrase: String::new(),
            passphrase_confirm: String::new(),
            plan: None,
            editor_open: false,
            editor_draft: None,
            editor_error: None,
        }
    }

    /// The selected disk.
    pub fn disk(&self) -> (d: Option<&DiskSnapshot>)
        ensures
            match self.disk_view() {
                Some(v) => d matches Some(x) && x@ == v,
                None => d is None,
            },
    {
        match self.selected {
            Some(i) => if i < self.disks.len() {
                assert(disks_view(self.disks@)[i as int] == self.disks@[i as int]@);
                Some(&self.disks[i])
            } else {
                None
            },
            None => None,
        }
    }

    fn emit(&self) -> (actions: Vec<StorageAction>)
        ensures
            self.emitted(actions@),
    {
        let mut actions: Vec<StorageAction> = Vec::new();
        match self.disk() {
            None => {},
            Some(disk) => {
                let install_type = if self.manual {
                    InstallType::Manual
                } else if self.encrypt {
                    InstallType::Encrypted
                } else {
                    InstallType::WholeDisk
                };
                let plan = if self.manual { copy_opt_plan(&self.plan) } else { None };
                actions.push(StorageAction::Emit(StorageSelection {
                    path: to_owned_string(disk.path.as_str()),
                    name: to_owned_string(disk.model.as_str()),
                    install_type,
                    encrypt: self.encrypt,
                    tpm: self.tpm,
                    encryption_passphrase: to_owned_string(self.passphrase.as_str()),
                    encryption_passphrase_confirm: to_owned_string(self.passphrase_confirm.as_str()),
                    partition_plan: plan,
                }));
            },
        }
        actions
    }

    fn reset_plan(&mut self)
        ensures
            final(self).editor_draft is None,
            final(self).editor_error is None,
            opt_plan_view(final(self).plan) == match old(self).disk_view() {
                Some(d) => Some(empty_plan_for(d)),
                None => None,
            },
            final(self).disks@ == old(self).disks@,
            final(self).selected == old(self).selected,
            final(self).manual == old(self).manual,
            final(self).encrypt == old(self).encrypt,
            final(self).tpm == old(self).tpm,
            final(self).passphrase@ == old(self).passphrase@,
            final(self).passphrase_confirm@ == old(self).passphrase_confirm@,
            final(self).editor_open == old(self).editor_open,
            final(self).uefi == old(self).uefi,
            final(self).error == old(self).error,
    {
        self.editor_draft = None;
        self.editor_error = None;
        let plan = match self.disk() {
            Some(d) => Some(PartitionDraft::empty_plan(d)),
            None => None,
        };
        self.plan = plan;
    }

    fn discard_editor(&mut self, actions: &mut Vec<StorageAction>)
        ensures
            final(self).editor_draft is None,
            final(self).editor_error is None,
            !final(self).editor_open,
            final(actions)@ == if old(self).editor_open { old(actions)@.push(StorageAction::CloseEditor) } else { old(actions)@ },
            final(self).disks@ == old(self).disks@,
            final(self).selected == old(self).selected,
            final(self).manual == old(self).manual,
            final(self).encrypt == old(self).encrypt,
            final(self).tpm == old(self).tpm,
            final(self).passphrase@ == old(self).passphrase@,
            final(self).passphrase_confirm@ == old(self).passphrase_confirm@,
            opt_plan_view(final(self).plan) == opt_plan_view(old(self).plan),
            final(self).uefi == old(self).uefi,
            final(self).error == old(self).error,
    {
        self.editor_draft = None;
        self.editor_error = None;
        if self.editor_open {
            self.editor_open = false;
            actions.push(StorageAction::CloseEditor);
        }
    }

    fn refresh(&self, actions: &mut Vec<StorageAction>)
        ensures
            final(actions)@ == if self.editor_open && self.disk_view() is Some {
                old(actions)@.push(StorageAction::RefreshEditor)
            } else {
                old(actions)@
            },
    {
        if self.editor_open && self.disk().is_some() {
            actions.push(StorageAction::RefreshEditor);
        }
    }

    /// Selects disk `index`: the staged plan restarts empty for it, and the
    /// selection is reported.
    pub fn select(&mut self, index: usize) -> (actions: Vec<StorageAction>)
        ensures
            after_select(*old(self), *final(self), index, actions@),
    {
        self.selected = Some(index);
        self.reset_plan();
        self.emit()
    }

    /// Switches between automatic and manual layout: encryption is switched
    /// off, the plan restarts empty, leaving manual mode discards the editor,
    /// and the selection is reported.
    pub fn set_manual(&mut self, manual: bool) -> (actions: Vec<StorageAction>)
        ensures
            after_set_manual(*old(self), *final(self), manual, actions@),
    {
        self.manual = manual;
        self.encrypt = false;
        self.tpm = false;
        self.reset_plan();
        let mut actions: Vec<StorageAction> = Vec::new();
        if !manual {
            self.discard_editor(&mut actions);
        }
        let ghost before = actions@;
        let mut emitted = self.emit();
        let ghost em = emitted@;
        actions.append(&mut emitted);
        assert(actions@ =~= before + em);
        proof {
            if !manual && old(self).editor_open {
                assert(before.len() == 1);
                assert(actions@.drop_first() =~= em);
            } else {
                assert(before.len() == 0);
                assert(actions@ =~= em);
            }
        }
        actions
    }

    /// Everything but the editor state stays as it was.
    pub open spec fn same_choices(&self, other: &StorageModel) -> bool {
        &&& self.disks@ == other.disks@
        &&& self.selected == other.selected
        &&& self.manual == other.manual
        &&& self.encrypt == other.encrypt
        &&& self.tpm == other.tpm
        &&& self.passphrase@ == other.passphrase@
        &&& self.passphrase_confirm@ == other.passphrase_confirm@
        &&& opt_plan_view(self.plan) == opt_plan_view(other.plan)
        &&& self.uefi == other.uefi
        &&& self.error == other.error
    }

    /// The draft the editor opens with: the committed plan if it still fits
    /// the disk, an empty one when there is none, or the reason it does not fit.
    pub open spec fn opened_draft(disk: DiskSnapshotView, plan: Option<PartitionPlanView>) -> Result<PartitionDraftView, Seq<char>> {
        match plan {
            Some(p) => if p.disk_path == disk.path && p.disk_size_bytes == disk.size_bytes {
                Ok(PartitionDraftView { disk: disk, plan: p })
            } else {
                Err("partition plan no longer matches the selected disk"@)
            },
            None => Ok(PartitionDraftView { disk: disk, plan: empty_plan_for(disk) }),
        }
    }

    /// Opens the partition editor (manual mode with a disk only): any open
    /// editor is discarded, then a draft starts from the committed plan. A
    /// plan that no longer fits the disk is reported instead of opening.
    pub fn open_custom(&mut self) -> (actions: Vec<StorageAction>)
        ensures
            after_open_custom(*old(self), *final(self), actions@),
    {
        let mut actions: Vec<StorageAction> = Vec::new();
        if !self.manual || self.disk().is_none() {
            return actions;
        }
        self.discard_editor(&mut actions);
        let opened = match self.disk() {
            Some(disk) => PartitionDraft::new(disk, self.plan.as_ref()),
            None => return actions,
        };
        match opened {
            Ok(draft) => {
                self.editor_draft = Some(draft);
                self.editor_open = true;
                actions.push(StorageAction::OpenEditor);
            },
            Err(e) => {
                self.editor_error = Some(e);
            },
        }
        actions
    }

    /// Closes the editor, discarding the draft.
    pub fn close_custom(&mut self) -> (actions: Vec<StorageAction>)
        ensures
            after_close_custom(*old(self), *final(self), actions@),
    {
        let mut actions: Vec<StorageAction> = Vec::new();
        self.discard_editor(&mut actions);
        assert(actions@ =~= if old(self).editor_open { seq![StorageAction::CloseEditor] } else { Seq::<StorageAction>::empty() });
        actions
    }

    /// Commits the draft when it validates: it becomes the plan, the editor
    /// closes and the selection is reported. Otherwise the validation error
    /// is shown in the editor.
    pub fn apply_custom(&mut self) -> (actions: Vec<StorageAction>)
        ensures
            after_apply_custom(*old(self), *final(self), actions@),
    {
        let mut actions: Vec<StorageAction> = Vec::new();
        match self.editor_draft.take() {
            None => {
                self.editor_error = Some(to_owned_string("partition draft is not available"));
                self.refresh(&mut actions);
            },
            Some(draft) => {
                match draft.validate(self.uefi) {
                    Ok(()) => {
                        self.plan = Some(draft.into_plan());
                        self.editor_error = None;
                        if self.editor_open {
                            self.editor_open = false;
                            actions.push(StorageAction::CloseEditor);
                        }
                        let ghost before = actions@;
                        let mut emitted = self.emit();
                        let ghost em = emitted@;
                        actions.append(&mut emitted);
                        assert(actions@ =~= before + em);
                        proof {
                            if old(self).editor_open {
                                assert(actions@.drop_first() =~= em);
                            } else {
                                assert(actions@ =~= em);
                            }
                        }
                    },
                    Err(e) => {
                        self.editor_draft = Some(draft);
                        self.editor_error = Some(e);
                        self.refresh(&mut actions);
                    },
                }
            },
        }
        actions
    }

    /// Switches encryption on or off (off also switches TPM off) and reports the selection.
    pub fn toggle_encrypt(&mut self, enabled: bool) -> (actions: Vec<StorageAction>)
        ensures
            after_toggle_encrypt(*old(self), *final(self), enabled, actions@),
    {
        self.encrypt = enabled;
        if !enabled {
            self.tpm = false;
        }
        self.emit()
    }

    /// Switches TPM unlocking on (only together with encryption) or off, and reports the selection.
    pub fn toggle_tpm(&mut self, enabled: bool) -> (actions: Vec<StorageAction>)
        ensures
            after_toggle_tpm(*old(self), *final(self), enabled, actions@),
    {
        self.tpm = enabled && self.encrypt;
        self.emit()
    }

    /// Records the LUKS passphrase pair and reports the selection.
    pub fn set_passphrase(&mut self, passphrase: String, confirm: String) -> (actions: Vec<StorageAction>)
        ensures
            after_set_passphrase(*old(self), *final(self), passphrase@, confirm@, actions@),
    {
        self.passphrase = passphrase;
        self.passphrase_confirm = confirm;
        self.emit()
    }

    /// Offers the create form for free region `region` when the draft still has space there.
    pub fn open_create(&self, region: usize) -> (actions: Vec<StorageAction>)
        ensures
            after_open_create(*self, region, actions@),
    {
        let mut actions: Vec<StorageAction> = Vec::new();
        match &self.editor_draft {
            Some(d) => match d.remaining_region(region) {
                Some(free) => actions.push(StorageAction::ShowCreateDialog { region, free }),
                None => {},
            },
            None => {},
        }
        actions
    }

    /// Offers the edit form for existing partition `partition` of the selected disk.
    pub fn open_edit(&self, partition: usize) -> (actions: Vec<StorageAction>)
        ensures
            after_open_edit(*self, partition, actions@),
    {
        let mut actions: Vec<StorageAction> = Vec::new();
        match self.disk() {
            Some(d) => if partition < d.partitions.len() {
                actions.push(StorageAction::ShowEditDialog { partition });
            },
            None => {},
        }
        actions
    }

    /// Stages a new partition in the draft; its error, if any, is shown in the editor.
    pub fn create(&mut self, region: usize, spec: PartitionSpec) -> (actions: Vec<StorageAction>)
        ensures
            after_create(*old(self), *final(self), region, spec@, actions@),
    {
        let mut actions: Vec<StorageAction> = Vec::new();
        match self.editor_draft.take() {
            None => {
                self.editor_error = Some(to_owned_string("partition draft is not available"));
            },
            Some(mut draft) => {
                let r = draft.create(region, spec);
                self.editor_draft = Some(draft);
                self.editor_error = match r {
                    Ok(()) => None,
                    Err(e) => Some(e),
                };
            },
        }
        self.refresh(&mut actions);
        actions
    }

    /// Stages a format of existing partition `partition`; its error, if any, is shown.
    pub fn edit(&mut self, partition: usize, spec: PartitionSpec) -> (actions: Vec<StorageAction>)
        ensures
            after_edit(*old(self), *final(self), partition, spec@, actions@),
    {
        let mut actions: Vec<StorageAction> = Vec::new();
        match self.editor_draft.take() {
            None => {
                self.editor_error = Some(to_owned_string("partition draft is not available"));
            },
            Some(mut draft) => {
                let r = draft.edit_existing(partition, spec);
                self.editor_draft = Some(draft);
                self.editor_error = match r {
                    Ok(()) => None,
                    Err(e) => Some(e),
                };
            },
        }
        self.refresh(&mut actions);
        actions
    }

    /// Stages the deletion of existing partition `partition`; its error, if any, is shown.
    pub fn delete(&mut self, partition: usize) -> (actions: Vec<StorageAction>)
        ensures
            after_delete(*old(self), *final(self), partition, actions@),
    {
        let mut actions: Vec<StorageAction> = Vec::new();
        match self.editor_draft.take() {
            None => {
                self.editor_error = Some(to_owned_string("partition draft is not available"));
            },
            Some(mut draft) => {
                let r = draft.delete_existing(partition);
                self.editor_draft = Some(draft);
                self.editor_error = match r {
                    Ok(()) => None,
                    Err(e) => Some(e),
                };
            },
        }
        self.refresh(&mut actions);
        actions
    }

    /// Drops planned partition `id` from the draft; its error, if any, is shown.
    pub fn delete_planned(&mut self, id: &str) -> (actions: Vec<StorageAction>)
        ensures
            after_delete_planned(*old(self), *final(self), id@, actions@),
    {
        let mut actions: Vec<StorageAction> = Vec::new();
        match self.editor_draft.take() {
            None => {
                self.editor_error = Some(to_owned_string("partition draft is not available"));
            },
            Some(mut draft) => {
                let r = draft.delete_planned(id);
                self.editor_draft = Some(draft);
                self.editor_error = match r {
                    Ok(()) => None,
                    Err(e) => Some(e),
                };
            },
        }
        self.refresh(&mut actions);
        actions
    }

    /// Folds one event into the page state (see the method for each event)
    /// and returns what the toolkit must do.
    pub fn update(&mut self, event: StorageEvent) -> (actions: Vec<StorageAction>)
        ensures
            match event {
                StorageEvent::Selected(i) => after_select(*old(self), *final(self), i, actions@),
                StorageEvent::SetManual(m) => after_set_manual(*old(self), *final(self), m, actions@),
                StorageEvent::OpenCustom => after_open_custom(*old(self), *final(self), actions@),
                StorageEvent::CloseCustom => after_close_custom(*old(self), *final(self), actions@),
                StorageEvent::ApplyCustom => after_apply_custom(*old(self), *final(self), actions@),
                StorageEvent::ToggleEncrypt(e) => after_toggle_encrypt(*old(self), *final(self), e, actions@),
                StorageEvent::ToggleTpm(t) => after_toggle_tpm(*old(self), *final(self), t, actions@),
                StorageEvent::SetPassphrase { passphrase, confirm } =>
                    after_set_passphrase(*old(self), *final(self), passphrase@, confirm@, actions@),
                StorageEvent::OpenCreate(region) => *final(self) == *old(self)
                    && after_open_create(*old(self), region, actions@),
                StorageEvent::Create { region, spec } =>
                    after_create(*old(self), *final(self), region, spec@, actions@),
                StorageEvent::OpenEdit(partition) => *final(self) == *old(self)
                    && after_open_edit(*old(self), partition, actions@),
                StorageEvent::Edit { partition, spec } =>
                    after_edit(*old(self), *final(self), partition, spec@, actions@),
                StorageEvent::Delete(partition) => after_delete(*old(self), *final(self), partition, actions@),
                StorageEvent::DeletePlanned(id) => after_delete_planned(*old(self), *final(self), id@, actions@),
            },
            plan_fits_selection(old(self)) && draft_fits_selection(old(self))
                ==> plan_fits_selection(final(self)) && draft_fits_selection(final(self)),
    {
        match event {
            StorageEvent::Selected(i) => self.select(i),
            StorageEvent::SetManual(m) => self.set_manual(m),
            StorageEvent::OpenCustom => self.open_custom(),
            StorageEvent::CloseCustom => self.close_custom(),
            StorageEvent::ApplyCustom => self.apply_custom(),
            StorageEvent::ToggleEncrypt(e) => self.toggle_encrypt(e),
            StorageEvent::ToggleTpm(t) => self.toggle_tpm(t),
            StorageEvent::SetPassphrase { passphrase, confirm } => self.set_passphrase(passphrase, confirm),
            StorageEvent::OpenCreate(region) => self.open_create(region),
            StorageEvent::Create { region, spec } => self.create(region, spec),
            StorageEvent::OpenEdit(partition) => self.open_edit(partition),
            StorageEvent::Edit { partition, spec } => self.edit(partition, spec),
            StorageEvent::Delete(partition) => self.delete(partition),
            StorageEvent::DeletePlanned(id) => self.delete_planned(id.as_str()),
        }
    }
}

/// The actions of a change staged in the editor: a redraw of the editor when
/// it is open on a selected disk, nothing otherwise.
pub open spec fn refreshed(m: StorageModel, actions: Seq<StorageAction>) -> bool {
    actions == if m.editor_open && m.disk_view() is Some {
        seq![StorageAction::RefreshEditor]
    } else {
        Seq::<StorageAction>::empty()
    }
}

/// The actions of closing the editor when it was open, then `rest`.
pub open spec fn closing_then(was_open: bool, actions: Seq<StorageAction>, rest: spec_fn(Seq<StorageAction>) -> bool) -> bool {
    if was_open {
        actions.len() > 0 && actions[0] is CloseEditor && rest(actions.drop_first())
    } else {
        rest(actions)
    }
}

/// Choosing disk `index`: the staged plan restarts empty for it, the draft
/// and its error are dropped, the other choices stay, and the selection is reported.
pub open spec fn after_select(s0: StorageModel, s1: StorageModel, index: usize, actions: Seq<StorageAction>) -> bool {
    &&& s1.selected == Some(index)
    &&& s1.editor_draft is None
    &&& s1.editor_error is None
    &&& opt_plan_view(s1.plan) == match selected_disk(disks_view(s0.disks@), Some(index)) {
        Some(d) => Some(empty_plan_for(d)),
        None => None,
    }
    &&& s1.manual == s0.manual
    &&& s1.encrypt == s0.encrypt
    &&& s1.tpm == s0.tpm
    &&& s1.passphrase@ == s0.passphrase@
    &&& s1.passphrase_confirm@ == s0.passphrase_confirm@
    &&& s1.editor_open == s0.editor_open
    &&& s1.disks@ == s0.disks@
    &&& s1.uefi == s0.uefi
    &&& s1.error == s0.error
    &&& s1.emitted(actions)
}

/// Switching layout mode: encryption and TPM off, the plan restarts empty,
/// leaving manual mode closes and discards the editor, and the selection is reported.
pub open spec fn after_set_manual(s0: StorageModel, s1: StorageModel, manual: bool, actions: Seq<StorageAction>) -> bool {
    &&& s1.manual == manual
    &&& !s1.encrypt && !s1.tpm
    &&& s1.editor_draft is None
    &&& s1.editor_error is None
    &&& opt_plan_view(s1.plan) == match s0.disk_view() {
        Some(d) => Some(empty_plan_for(d)),
        None => None,
    }
    &&& s1.editor_open == (manual && s0.editor_open)
    &&& s1.selected == s0.selected
    &&& s1.disks@ == s0.disks@
    &&& s1.passphrase@ == s0.passphrase@
    &&& s1.passphrase_confirm@ == s0.passphrase_confirm@
    &&& s1.uefi == s0.uefi
    &&& s1.error == s0.error
    &&& closing_then(!manual && s0.editor_open, actions, |rest: Seq<StorageAction>| s1.emitted(rest))
}

/// Opening the editor (manual mode with a disk only): any open editor is
/// closed and discarded, then a draft starts from the committed plan, or the
/// reason the plan no longer fits the disk is recorded instead.
pub open spec fn after_open_custom(s0: StorageModel, s1: StorageModel, actions: Seq<StorageAction>) -> bool {
    if !s0.manual || s0.disk_view() is None {
        s1 == s0 && actions.len() == 0
    } else {
        let disk = s0.disk_view()->0;
        let closing = if s0.editor_open { seq![StorageAction::CloseEditor] } else { Seq::<StorageAction>::empty() };
        &&& s1.same_choices(&s0)
        &&& match StorageModel::opened_draft(disk, opt_plan_view(s0.plan)) {
            Ok(d) => s1.draft_view() == Some(d) && s1.editor_error is None && s1.editor_open
                && actions == closing.push(StorageAction::OpenEditor),
            Err(e) => s1.draft_view() is None && s1.editor_error.deep_view() == Some(e)
                && !s1.editor_open && actions == closing,
        }
    }
}

/// Closing the editor: the draft and its error are dropped.
pub open spec fn after_close_custom(s0: StorageModel, s1: StorageModel, actions: Seq<StorageAction>) -> bool {
    &&& s1.same_choices(&s0)
    &&& s1.editor_draft is None
    &&& s1.editor_error is None
    &&& !s1.editor_open
    &&& actions == if s0.editor_open { seq![StorageAction::CloseEditor] } else { Seq::<StorageAction>::empty() }
}

/// Applying the editor: a draft that validates becomes the plan, the editor
/// closes and the selection is reported; otherwise the error (or the missing
/// draft) is shown in the editor.
pub open spec fn after_apply_custom(s0: StorageModel, s1: StorageModel, actions: Seq<StorageAction>) -> bool {
    match s0.draft_view() {
        None => s1.same_choices(&s0) && s1.draft_view() is None
            && s1.editor_open == s0.editor_open
            && s1.editor_error.deep_view() == Some(no_draft_message())
            && refreshed(s1, actions),
        Some(d) => match crate::config_model::plan_error(d.plan, s0.uefi) {
            Some(e) => s1.same_choices(&s0) && s1.draft_view() == Some(d)
                && s1.editor_open == s0.editor_open
                && s1.editor_error.deep_view() == Some(e)
                && refreshed(s1, actions),
            None => {
                &&& opt_plan_view(s1.plan) == Some(d.plan)
                &&& s1.draft_view() is None
                &&& s1.editor_error is None
                &&& !s1.editor_open
                &&& s1.selected == s0.selected
                &&& s1.manual == s0.manual
                &&& s1.encrypt == s0.encrypt
                &&& s1.tpm == s0.tpm
                &&& s1.passphrase@ == s0.passphrase@
                &&& s1.passphrase_confirm@ == s0.passphrase_confirm@
                &&& s1.disks@ == s0.disks@
                &&& s1.uefi == s0.uefi
                &&& s1.error == s0.error
                &&& closing_then(s0.editor_open, actions, |rest: Seq<StorageAction>| s1.emitted(rest))
            },
        },
    }
}

/// Everything but the encryption choices stays as it was.
pub open spec fn same_but_encryption(s0: StorageModel, s1: StorageModel) -> bool {
    &&& s1.manual == s0.manual
    &&& s1.selected == s0.selected
    &&& s1.disks@ == s0.disks@
    &&& opt_plan_view(s1.plan) == opt_plan_view(s0.plan)
    &&& s1.draft_view() == s0.draft_view()
    &&& s1.editor_error == s0.editor_error
    &&& s1.editor_open == s0.editor_open
    &&& s1.uefi == s0.uefi
    &&& s1.error == s0.error
}

/// Switching encryption on or off (off also switches TPM off); the selection is reported.
pub open spec fn after_toggle_encrypt(s0: StorageModel, s1: StorageModel, enabled: bool, actions: Seq<StorageAction>) -> bool {
    &&& s1.encrypt == enabled
    &&& s1.tpm == (s0.tpm && enabled)
    &&& s1.passphrase@ == s0.passphrase@
    &&& s1.passphrase_confirm@ == s0.passphrase_confirm@
    &&& same_but_encryption(s0, s1)
    &&& s1.emitted(actions)
}

/// Switching TPM unlocking (on only together with encryption); the selection is reported.
pub open spec fn after_toggle_tpm(s0: StorageModel, s1: StorageModel, enabled: bool, actions: Seq<StorageAction>) -> bool {
    &&& s1.tpm == (enabled && s0.encrypt)
    &&& s1.encrypt == s0.encrypt
    &&& s1.passphrase@ == s0.passphrase@
    &&& s1.passphrase_confirm@ == s0.passphrase_confirm@
    &&& same_but_encryption(s0, s1)
    &&& s1.emitted(actions)
}

/// Recording the passphrase pair; the selection is reported.
pub open spec fn after_set_passphrase(
    s0: StorageModel,
    s1: StorageModel,
    passphrase: Seq<char>,
    confirm: Seq<char>,
    actions: Seq<StorageAction>,
) -> bool {
    &&& s1.passphrase@ == passphrase
    &&& s1.passphrase_confirm@ == confirm
    &&& s1.encrypt == s0.encrypt
    &&& s1.tpm == s0.tpm
    &&& same_but_encryption(s0, s1)
    &&& s1.emitted(actions)
}

/// Offering the create form for free region `region` while the draft has space there.
pub open spec fn after_open_create(m: StorageModel, region: usize, actions: Seq<StorageAction>) -> bool {
    match m.draft_view() {
        Some(d) => match crate::draft::remaining_region_of(d.disk, Some(d.plan), region as int) {
            Some(free) => actions.len() == 1 && (actions[0] matches StorageAction::ShowCreateDialog { region: r, free: f }
                && r == region && f == free),
            None => actions.len() == 0,
        },
        None => actions.len() == 0,
    }
}

/// Offering the edit form for existing partition `partition` of the selected disk.
pub open spec fn after_open_edit(m: StorageModel, partition: usize, actions: Seq<StorageAction>) -> bool {
    if m.disk_view() matches Some(d) && partition < d.partitions.len() {
        actions.len() == 1 && (actions[0] matches StorageAction::ShowEditDialog { partition: p } && p == partition)
    } else {
        actions.len() == 0
    }
}

/// Staging a new partition in free region `region`: the draft gains it, or
/// the refusal (or the missing draft) is recorded; the editor is redrawn.
pub open spec fn after_create(s0: StorageModel, s1: StorageModel, region: usize, spec: PartitionSpecView, actions: Seq<StorageAction>) -> bool {
    &&& s1.same_choices(&s0)
    &&& s1.editor_open == s0.editor_open
    &&& match s0.draft_view() {
        None => s1.draft_view() is None && s1.editor_error.deep_view() == Some(no_draft_message()),
        Some(d) => match create_error(d, region as int, spec) {
            Some(e) => s1.draft_view() == Some(d) && s1.editor_error.deep_view() == Some(e),
            None => s1.editor_error is None && exists|id: Seq<char>| random_uuid_text(id) && s1.draft_view()
                == Some(PartitionDraftView { disk: d.disk, plan: #[trigger] created_plan(d, region as int, spec, id) }),
        },
    }
    &&& refreshed(s1, actions)
}

/// Staging a format of existing partition `partition`, as for `after_create`.
pub open spec fn after_edit(s0: StorageModel, s1: StorageModel, partition: usize, spec: PartitionSpecView, actions: Seq<StorageAction>) -> bool {
    &&& s1.same_choices(&s0)
    &&& s1.editor_open == s0.editor_open
    &&& match s0.draft_view() {
        None => s1.draft_view() is None && s1.editor_error.deep_view() == Some(no_draft_message()),
        Some(d) => match edit_error(d, partition as int, spec) {
            Some(e) => s1.draft_view() == Some(d) && s1.editor_error.deep_view() == Some(e),
            None => s1.editor_error is None && s1.draft_view()
                == Some(PartitionDraftView { disk: d.disk, plan: edited_plan(d, partition as int, spec) }),
        },
    }
    &&& refreshed(s1, actions)
}

/// Staging the deletion of existing partition `partition`, as for `after_create`.
pub open spec fn after_delete(s0: StorageModel, s1: StorageModel, partition: usize, actions: Seq<StorageAction>) -> bool {
    &&& s1.same_choices(&s0)
    &&& s1.editor_open == s0.editor_open
    &&& match s0.draft_view() {
        None => s1.draft_view() is None && s1.editor_error.deep_view() == Some(no_draft_message()),
        Some(d) => match delete_existing_error(d, partition as int) {
            Some(e) => s1.draft_view() == Some(d) && s1.editor_error.deep_view() == Some(e),
            None => s1.editor_error is None && s1.draft_view()
                == Some(PartitionDraftView { disk: d.disk, plan: deleted_existing_plan(d, partition as int) }),
        },
    }
    &&& refreshed(s1, actions)
}

/// Dropping planned partition `id` from the draft, as for `after_create`.
pub open spec fn after_delete_planned(s0: StorageModel, s1: StorageModel, id: Seq<char>, actions: Seq<StorageAction>) -> bool {
    &&& s1.same_choices(&s0)
    &&& s1.editor_open == s0.editor_open
    &&& match s0.draft_view() {
        None => s1.draft_view() is None && s1.editor_error.deep_view() == Some(no_draft_message()),
        Some(d) => if plans_id(d.plan, id) {
            s1.editor_error is None && s1.draft_view()
                == Some(PartitionDraftView { disk: d.disk, plan: deleted_planned_plan(d.plan, id) })
        } else {
            s1.draft_view() == Some(d)
                && s1.editor_error.deep_view() == Some("planned partition no longer exists"@)
        },
    }
    &&& refreshed(s1, actions)
}

/// The indices of the disks the page offers: those with nothing in use.
pub open spec fn available_upto(disks: Seq<DiskSnapshotView>, k: int) -> Seq<usize>
    decreases k,
{
    if k <= 0 {
        Seq::empty()
    } else if !disks[k - 1].in_use {
        available_upto(disks, k - 1).push((k - 1) as usize)
    } else {
        available_upto(disks, k - 1)
    }
}

/// The indices of the selectable disks, in order: a disk in use cannot be chosen.
pub fn available_disks(disks: &Vec<DiskSnapshot>) -> (r: Vec<usize>)
    ensures
        r@ == available_upto(disks_view(disks@), disks@.len() as int),
{
    let ghost v = disks_view(disks@);
    let mut r: Vec<usize> = Vec::new();
    let mut i: usize = 0;
    while i < disks.len()
        invariant
            v == disks_view(disks@),
            v.len() == disks@.len(),
            i <= disks@.len(),
            r@ == available_upto(v, i as int),
        decreases disks@.len() - i,
    {
        assert(v[i as int] == disks@[i as int]@);
        if !disks[i].in_use {
            r.push(i);
        }
        i = i + 1;
    }
    r
}

/// The line under a disk's name in the picker: path, size and partition table.
pub fn disk_subtitle(disk: &DiskSnapshot) -> (s: String)
    ensures
        s@ == disk@.path + " \u{2022} "@ + size_text(disk@.size_bytes) + " \u{2022} "@ + disk@.table_type,
{
    let size = format_size(disk.size_bytes);
    let mut s = to_owned_string(disk.path.as_str());
    s.append(" \u{2022} ");
    s.append(size.as_str());
    s.append(" \u{2022} ");
    s.append(disk.table_type.as_str());
    s
}

/// A committed manual plan always belongs to the selected disk: choosing a
/// disk or switching mode starts an empty plan for it, and applying the
/// editor commits only a draft that was opened for that disk.
pub open spec fn plan_fits_selection(m: &StorageModel) -> bool {
    match opt_plan_view(m.plan) {
        Some(p) => m.disk_view() matches Some(d) && p.disk_path == d.path && p.disk_size_bytes == d.size_bytes,
        None => true,
    }
}

/// An open draft is a draft for the selected disk.
pub open spec fn draft_fits_selection(m: &StorageModel) -> bool {
    match m.draft_view() {
        Some(d) => m.disk_view() == Some(d.disk) && d.plan.disk_path == d.disk.path && d.plan.disk_size_bytes == d.disk.size_bytes,
        None => true,
    }
}

/// Choosing a disk leaves a plan that fits it.
pub proof fn law_select_plan_fits(before: &StorageModel, after: &StorageModel, index: usize)
    requires
        after.selected == Some(index),
        after.disks@ == before.disks@,
        after.draft_view() is None,
        opt_plan_view(after.plan) == match selected_disk(disks_view(before.disks@), Some(index)) {
            Some(d) => Some(empty_plan_for(d)),
            None => None,
        },
    ensures
        plan_fits_selection(after),
        draft_fits_selection(after),
{
}

} // verus!
