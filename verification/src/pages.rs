//! What the wizard pages report to the application.

use vstd::prelude::*;
use crate::config_model::{
    opt_plan_view, InstallType, PartitionPlan, PartitionPlanView, UserAccount, UserAccountView,
};

verus! {

/// Storage choices collected by the storage page, handed over as one value.
#[derive(Debug, Clone, PartialEq, Eq)]
pub struct StorageSelection {
    pub path: String,
    pub name: String,
    pub install_type: InstallType,
    pub encrypt: bool,
    pub tpm: bool,
    /// Dedicated LUKS passphrase pair; only meaningful when `encrypt` is set.
    pub encryption_passphrase: String,
    pub encryption_passphrase_confirm: String,
    pub partition_plan: Option<PartitionPlan>,
}

/// Mathematical model of a [`StorageSelection`].
pub struct StorageSelectionView {
    pub path: Seq<char>,
    pub name: Seq<char>,
    pub install_type: InstallType,
    pub encrypt: bool,
    pub tpm: bool,
    pub encryption_passphrase: Seq<char>,
    pub encryption_passphrase_confirm: Seq<char>,
    pub partition_plan: Option<PartitionPlanView>,
}

impl View for StorageSelection {
    type V = StorageSelectionView;

    open spec fn view(&self) -> StorageSelectionView {
        StorageSelectionView {
            path: self.path@,
            name: self.name@,
            install_type: self.install_type,
            encrypt: self.encrypt,
            tpm: self.tpm,
            encryption_passphrase: self.encryption_passphrase@,
            encryption_passphrase_confirm: self.encryption_passphrase_confirm@,
            partition_plan: opt_plan_view(self.partition_plan),
        }
    }
}

/// Messages a page can send to the application.
#[derive(Debug, Clone)]
pub enum PageOutput {
    SetLocale(String),
    SetKeyboard(String),
    SetTimezone(String),
    SetStorage(StorageSelection),
    SetUser(UserAccount),
    /// Request to advance (from in-page buttons).
    RequestNext,
    /// The summary page requests the destructive confirmation.
    RequestInstall,
}

/// Mathematical model of a [`PageOutput`].
pub enum PageOutputView {
    SetLocale(Seq<char>),
    SetKeyboard(Seq<char>),
    SetTimezone(Seq<char>),
    SetStorage(StorageSelectionView),
    SetUser(UserAccountView),
    RequestNext,
    RequestInstall,
}

impl View for PageOutput {
    type V = PageOutputView;

    open spec fn view(&self) -> PageOutputView {
        match self {
            PageOutput::SetLocale(l) => PageOutputView::SetLocale(l@),
            PageOutput::SetKeyboard(k) => PageOutputView::SetKeyboard(k@),
            PageOutput::SetTimezone(t) => PageOutputView::SetTimezone(t@),
            PageOutput::SetStorage(s) => PageOutputView::SetStorage(s@),
            PageOutput::SetUser(u) => PageOutputView::SetUser(u@),
            PageOutput::RequestNext => PageOutputView::RequestNext,
            PageOutput::RequestInstall => PageOutputView::RequestInstall,
        }
    }
}

} // verus!
