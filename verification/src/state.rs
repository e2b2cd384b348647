//! The installer wizard's state machine, independent of any toolkit.
//!
//! Pages report user choices; `WizardState` owns navigation and decides
//! whether the current page may advance.

use vstd::prelude::*;
use crate::config_model::{
    account_problem, passphrase_problem, plan_error, InstallConfig, InstallConfigView, InstallType,
    empty_config,
};
use crate::diag::config::{known_page, resolved_pages, law_resolve_is_well_formed, PagesConfigView};
use crate::i18n::{locale_is_portuguese, Lang};
use crate::navigator::{nav_current, nav_next, nav_prev, nav_wf, Navigator, NavigatorView};
use crate::pages::{PageOutput, PageOutputView, StorageSelection, StorageSelectionView};
use crate::text::{is_blank, str_eq, to_owned_string, trimmed};

verus! {

/// What the application must do after the state absorbed a page's output.
#[derive(Debug, Clone, Copy, PartialEq, Eq, Structural)]
pub enum StateEffect {
    Nothing,
    LanguageChanged(Lang),
    PageChanged,
    InstallRequested,
}

/// Mathematical model of a [`WizardState`].
pub struct WizardStateView {
    pub config: InstallConfigView,
    pub nav: NavigatorView,
    pub diagnostics_blocked: bool,
    pub uefi: bool,
    pub lang: Lang,
}

/// The wizard's collected configuration, position and gates.
pub struct WizardState {
    config: InstallConfig,
    nav: Navigator,
    diagnostics_blocked: bool,
    uefi: bool,
    lang: Lang,
}

impl View for WizardState {
    type V = WizardStateView;

    closed spec fn view(&self) -> WizardStateView {
        WizardStateView {
            config: self.config@,
            nav: self.nav@,
            diagnostics_blocked: self.diagnostics_blocked,
            uefi: self.uefi,
            lang: self.lang,
        }
    }
}

/// The page the wizard shows.
pub open spec fn current_page_of(s: WizardStateView) -> Seq<char> {
    nav_current(s.nav)
}

/// The install has started once the progress or finished page is shown.
pub open spec fn install_started_in(s: WizardStateView) -> bool {
    current_page_of(s) == "progress"@ || current_page_of(s) == "finished"@
}

/// The layout is encrypted: the encrypted install type, or the encryption toggle.
pub open spec fn wants_encryption(c: InstallConfigView) -> bool {
    c.install_type == Some(InstallType::Encrypted) || c.encrypt
}

/// The storage choices are complete: a destination disk, a layout mode (a
/// manual one with a plan that validates), and, when encrypting, a valid
/// passphrase pair.
pub open spec fn storage_valid(c: InstallConfigView, uefi: bool) -> bool {
    &&& c.destination_disk is Some
    &&& match c.install_type {
        Some(InstallType::Manual) => match c.partition_plan {
            Some(p) => plan_error(p, uefi) is None,
            None => false,
        },
        Some(_) => true,
        None => false,
    }
    &&& (wants_encryption(c) ==> passphrase_problem(c.encryption_passphrase, c.encryption_passphrase_confirm) is None)
}

/// Whether the current page lets the user go on.
pub open spec fn may_proceed(s: WizardStateView) -> bool {
    let page = current_page_of(s);
    if page == "diagnostics"@ {
        !s.diagnostics_blocked
    } else if page == "storage"@ {
        storage_valid(s.config, s.uefi)
    } else if page == "user"@ {
        account_problem(s.config.user) is None
    } else if page == "progress"@ || page == "finished"@ {
        false
    } else {
        true
    }
}

/// The configuration after the storage page's selection.
pub open spec fn with_storage(c: InstallConfigView, sel: StorageSelectionView) -> InstallConfigView {
    InstallConfigView {
        destination_disk: Some(sel.path),
        destination_disk_name: Some(sel.name),
        install_type: Some(sel.install_type),
        encrypt: sel.encrypt,
        tpm: sel.tpm,
        encryption_passphrase: sel.encryption_passphrase,
        encryption_passphrase_confirm: sel.encryption_passphrase_confirm,
        partition_plan: sel.partition_plan,
        ..c
    }
}

/// The UI language a locale selects.
pub open spec fn lang_of_locale(locale: Seq<char>) -> Lang {
    if locale_is_portuguese(locale) { Lang::PtBr } else { Lang::En }
}

/// The state after a page output, and the effect the application must carry out.
pub open spec fn applied(s: WizardStateView, o: PageOutputView) -> (WizardStateView, StateEffect) {
    match o {
        PageOutputView::SetLocale(locale) => {
            let lang = lang_of_locale(locale);
            let c = InstallConfigView { locale: Some(locale), ..s.config };
            if lang == s.lang {
                (WizardStateView { config: c, ..s }, StateEffect::Nothing)
            } else {
                (WizardStateView { config: c, lang: lang, ..s }, StateEffect::LanguageChanged(lang))
            }
        },
        PageOutputView::SetKeyboard(k) => (
            WizardStateView { config: InstallConfigView { keyboard: Some(k), ..s.config }, ..s },
            StateEffect::Nothing,
        ),
        PageOutputView::SetTimezone(t) => (
            WizardStateView { config: InstallConfigView { timezone: Some(t), ..s.config }, ..s },
            StateEffect::Nothing,
        ),
        PageOutputView::SetStorage(sel) => (
            WizardStateView { config: with_storage(s.config, sel), ..s },
            StateEffect::Nothing,
        ),
        PageOutputView::SetUser(u) => (
            WizardStateView { config: InstallConfigView { user: u, ..s.config }, ..s },
            StateEffect::Nothing,
        ),
        PageOutputView::RequestNext => (WizardStateView { nav: nav_next(s.nav), ..s }, StateEffect::PageChanged),
        PageOutputView::RequestInstall => (s, StateEffect::InstallRequested),
    }
}

/// The index `seek` stops at: the first page named `page` from `i` on, or the last page.
pub open spec fn seek_index(pages: Seq<Seq<char>>, page: Seq<char>, i: nat) -> nat
    decreases pages.len() - i,
{
    if i + 1 >= pages.len() || pages[i as int] == page {
        i
    } else {
        seek_index(pages, page, i + 1)
    }
}

impl WizardState {
    /// A fresh wizard on the first of `pages`, with an empty configuration and
    /// the English UI. `diagnostics_blocked` is the precomputed diagnostics
    /// gate and `uefi` whether the machine booted in UEFI mode.
    pub fn new(pages: Vec<String>, diagnostics_blocked: bool, uefi: bool) -> (s: WizardState)
        requires
            pages.len() > 0,
        ensures
            empty_config(s@.config),
            s@.nav.pages == pages.deep_view(),
            s@.nav.index == 0,
            nav_wf(s@.nav),
            s@.diagnostics_blocked == diagnostics_blocked,
            s@.uefi == uefi,
            s@.lang == Lang::En,
    {
        WizardState {
            config: InstallConfig::default(),
            nav: Navigator::new(pages),
            diagnostics_blocked,
            uefi,
            lang: Lang::En,
        }
    }

    /// The configuration collected so far.
    pub fn config(&self) -> (c: &InstallConfig)
        ensures
            c@ == self@.config,
    {
        &self.config
    }

    /// The id of the page shown.
    pub fn current_page(&self) -> (page: &str)
        ensures
            nav_wf(self@.nav),
            page@ == current_page_of(self@),
    {
        self.nav.current()
    }

    /// Whether the first page is shown.
    pub fn is_first(&self) -> (r: bool)
        ensures
            nav_wf(self@.nav),
            r == (self@.nav.index == 0),
    {
        self.nav.is_first()
    }

    /// Whether the last page is shown.
    pub fn is_last(&self) -> (r: bool)
        ensures
            nav_wf(self@.nav),
            r == (self@.nav.index + 1 == self@.nav.pages.len()),
    {
        self.nav.is_last()
    }

    /// The UI language.
    pub fn lang(&self) -> (l: Lang)
        ensures
            l == self@.lang,
    {
        self.lang
    }

    /// Whether the install has started (the progress or finished page is shown).
    pub fn install_started(&self) -> (r: bool)
        ensures
            r == install_started_in(self@),
    {
        let page = self.current_page();
        str_eq(page, "progress") || str_eq(page, "finished")
    }

    /// Whether the current page may advance.
    pub fn can_proceed(&self) -> (r: bool)
        ensures
            r == may_proceed(self@),
    {
        let page = self.current_page();
        if str_eq(page, "diagnostics") {
            !self.diagnostics_blocked
        } else if str_eq(page, "storage") {
            self.storage_is_valid()
        } else if str_eq(page, "user") {
            self.config.user.validate().is_ok()
        } else if str_eq(page, "progress") || str_eq(page, "finished") {
            false
        } else {
            true
        }
    }

    /// Advance one page (staying on the last). Returns the new current page.
    pub fn next(&mut self) -> (page: &str)
        ensures
            final(self)@ == (WizardStateView { nav: nav_next(old(self)@.nav), ..old(self)@ }),
            page@ == current_page_of(final(self)@),
    {
        self.nav.next()
    }

    /// Go back one page (staying on the first). Returns the new current page.
    pub fn back(&mut self) -> (page: &str)
        ensures
            final(self)@ == (WizardStateView { nav: nav_prev(old(self)@.nav), ..old(self)@ }),
            page@ == current_page_of(final(self)@),
    {
        self.nav.prev()
    }

    /// Advance until `page` is shown, or the last page is reached.
    pub fn seek(&mut self, page: &str)
        ensures
            final(self)@ == (WizardStateView {
                nav: NavigatorView { pages: old(self)@.nav.pages, index: seek_index(old(self)@.nav.pages, page@, old(self)@.nav.index) },
                ..old(self)@
            }),
    {
        let ghost start = self@;
        let ghost pages = self@.nav.pages;
        let _ = self.is_last();
        loop
            invariant
                nav_wf(self@.nav),
                self@.nav.pages == pages,
                self@ == (WizardStateView { nav: self@.nav, ..start }),
                seek_index(pages, page@, self@.nav.index) == seek_index(pages, page@, start.nav.index),
            ensures
                seek_index(pages, page@, self@.nav.index) == self@.nav.index,
            decreases pages.len() - self@.nav.index,
        {
            let at_page = str_eq(self.current_page(), page);
            if at_page || self.is_last() {
                break;
            }
            self.next();
        }
    }

    /// Fold a page's output into the state and say what the application must do.
    pub fn apply(&mut self, output: PageOutput) -> (effect: StateEffect)
        ensures
            (final(self)@, effect) == applied(old(self)@, output@),
    {
        match output {
            PageOutput::SetLocale(locale) => {
                let lang = Lang::from_locale(locale.as_str());
                self.config.locale = Some(locale);
                if lang == self.lang {
                    StateEffect::Nothing
                } else {
                    self.lang = lang;
                    StateEffect::LanguageChanged(lang)
                }
            },
            PageOutput::SetKeyboard(keyboard) => {
                self.config.keyboard = Some(keyboard);
                StateEffect::Nothing
            },
            PageOutput::SetTimezone(timezone) => {
                self.config.timezone = Some(timezone);
                StateEffect::Nothing
            },
            PageOutput::SetStorage(selection) => {
                self.apply_storage(selection);
                StateEffect::Nothing
            },
            PageOutput::SetUser(user) => {
                self.config.user = user;
                StateEffect::Nothing
            },
            PageOutput::RequestNext => {
                self.next();
                StateEffect::PageChanged
            },
            PageOutput::RequestInstall => StateEffect::InstallRequested,
        }
    }

    fn apply_storage(&mut self, selection: StorageSelection)
        ensures
            final(self)@ == (WizardStateView { config: with_storage(old(self)@.config, selection@), ..old(self)@ }),
    {
        self.config.destination_disk = Some(selection.path);
        self.config.destination_disk_name = Some(selection.name);
        self.config.install_type = Some(selection.install_type);
        self.config.encrypt = selection.encrypt;
        self.config.tpm = selection.tpm;
        self.config.encryption_passphrase = selection.encryption_passphrase;
        self.config.encryption_passphrase_confirm = selection.encryption_passphrase_confirm;
        self.config.partition_plan = selection.partition_plan;
    }

    fn storage_is_valid(&self) -> (r: bool)
        ensures
            r == storage_valid(self@.config, self@.uefi),
    {
        if self.config.destination_disk.is_none() {
            return false;
        }
        let layout_ok = match self.config.install_type {
            Some(InstallType::Manual) => match &self.config.partition_plan {
                Some(plan) => plan.validate(self.uefi).is_ok(),
                None => false,
            },
            Some(_) => true,
            None => false,
        };
        if !layout_ok {
            return false;
        }
        let encrypting = match self.config.install_type {
            Some(InstallType::Encrypted) => true,
            _ => self.config.encrypt,
        };
        if encrypting {
            self.config.validate_encryption().is_ok()
        } else {
            true
        }
    }
}

/// What asking to go on from the current page leads to.
#[derive(Debug, Clone, Copy, PartialEq, Eq, Structural)]
pub enum NextOutcome {
    /// Leaving the summary erases the disk: the user must confirm first.
    NeedsConfirmation,
    /// The wizard moved on (or stayed on the last page).
    Moved,
}

/// The back arrow shows everywhere but on the first page and once the install started.
pub open spec fn back_shown(s: WizardStateView) -> bool {
    s.nav.index != 0 && !install_started_in(s)
}

/// The next arrow shows everywhere but on the summary, progress and finished pages.
pub open spec fn next_shown(s: WizardStateView) -> bool {
    let page = current_page_of(s);
    !(page == "summary"@ || page == "progress"@ || page == "finished"@)
}

impl WizardState {
    /// Whether the back arrow is shown.
    pub fn back_visible(&self) -> (r: bool)
        ensures
            r == back_shown(self@),
    {
        !self.is_first() && !self.install_started()
    }

    /// Whether the next arrow is shown.
    pub fn next_visible(&self) -> (r: bool)
        ensures
            r == next_shown(self@),
    {
        let page = self.current_page();
        !(str_eq(page, "summary") || str_eq(page, "progress") || str_eq(page, "finished"))
    }

    /// The user asked to go on: from the summary a confirmation is needed
    /// first (nothing moves); anywhere else the wizard advances.
    pub fn request_next(&mut self) -> (o: NextOutcome)
        ensures
            current_page_of(old(self)@) == "summary"@ ==> o == NextOutcome::NeedsConfirmation && final(self)@ == old(self)@,
            current_page_of(old(self)@) != "summary"@ ==> o == NextOutcome::Moved
                && final(self)@ == (WizardStateView { nav: nav_next(old(self)@.nav), ..old(self)@ }),
    {
        if str_eq(self.current_page(), "summary") {
            NextOutcome::NeedsConfirmation
        } else {
            self.next();
            NextOutcome::Moved
        }
    }

    /// The user confirmed the install: the wizard advances, and the install
    /// starts when that lands on the progress page.
    pub fn confirm_install(&mut self) -> (start: bool)
        ensures
            final(self)@ == (WizardStateView { nav: nav_next(old(self)@.nav), ..old(self)@ }),
            start == (current_page_of(final(self)@) == "progress"@),
    {
        self.next();
        str_eq(self.current_page(), "progress")
    }
}

/// The disk named in the confirmation dialog: its name unless blank, else its path.
pub open spec fn confirm_disk_of(c: InstallConfigView) -> Option<Seq<char>> {
    match c.destination_disk {
        None => None,
        Some(path) => match c.destination_disk_name {
            Some(name) => if trimmed(name).len() != 0 { Some(name) } else { Some(path) },
            None => Some(path),
        },
    }
}

/// The disk to name in the "erase and install" confirmation, if one was chosen.
pub fn confirm_disk(config: &InstallConfig) -> (r: Option<String>)
    ensures
        r.deep_view() == confirm_disk_of(config@),
{
    match &config.destination_disk {
        None => None,
        Some(path) => match &config.destination_disk_name {
            Some(name) => if !is_blank(name.as_str()) {
                Some(to_owned_string(name.as_str()))
            } else {
                Some(to_owned_string(path.as_str()))
            },
            None => Some(to_owned_string(path.as_str())),
        },
    }
}

/// The confirmation body to show: the manual layout writes the staged changes,
/// every other layout erases the whole disk.
pub fn confirm_body_msgid(config: &InstallConfig) -> (msgid: &'static str)
    ensures
        config@.install_type == Some(InstallType::Manual) ==> msgid@ == "The staged partition changes will now be written to disk and Sirius will be installed. Formatted or deleted data cannot be recovered."@,
        config@.install_type != Some(InstallType::Manual) ==> msgid@ == "All data on the selected disk will be permanently erased and the system will be installed. This cannot be undone."@,
{
    match config.install_type {
        Some(InstallType::Manual) => "The staged partition changes will now be written to disk and Sirius will be installed. Formatted or deleted data cannot be recovered.",
        _ => "All data on the selected disk will be permanently erased and the system will be installed. This cannot be undone.",
    }
}

/// Confirmation is the only way past the summary: asking to go on from it never moves.
pub proof fn law_summary_needs_confirmation(s: WizardStateView)
    requires
        current_page_of(s) == "summary"@,
    ensures
        !next_shown(s),
{
}

/// The pages the wizard shows among the first `k` resolved ones: those it
/// can render, without the network page when the machine has no Wi-Fi.
pub open spec fn shown_pages_upto(resolved: Seq<Seq<char>>, has_wifi: bool, k: int) -> Seq<Seq<char>>
    decreases k,
{
    if k <= 0 {
        Seq::empty()
    } else {
        let prev = shown_pages_upto(resolved, has_wifi, k - 1);
        let p = resolved[k - 1];
        if known_page(p) && (p != "network"@ || has_wifi) {
            prev.push(p)
        } else {
            prev
        }
    }
}

/// The wizard's pages for a resolved page list.
pub fn wizard_pages(resolved: &Vec<String>, has_wifi: bool) -> (pages: Vec<String>)
    ensures
        pages.deep_view() == shown_pages_upto(resolved.deep_view(), has_wifi, resolved@.len() as int),
{
    let ghost rv = resolved.deep_view();
    let mut pages: Vec<String> = Vec::new();
    let mut i: usize = 0;
    while i < resolved.len()
        invariant
            rv == resolved.deep_view(),
            rv.len() == resolved@.len(),
            i <= resolved@.len(),
            pages.deep_view() == shown_pages_upto(rv, has_wifi, i as int),
        decreases resolved@.len() - i,
    {
        assert(rv[i as int] == resolved@[i as int]@);
        let p = resolved[i].as_str();
        let known = str_eq(p, "welcome") || str_eq(p, "diagnostics") || str_eq(p, "network")
            || str_eq(p, "keyboard") || str_eq(p, "timezone") || str_eq(p, "storage") || str_eq(p, "user")
            || str_eq(p, "summary") || str_eq(p, "progress") || str_eq(p, "finished");
        if known && (!str_eq(p, "network") || has_wifi) {
            let ghost before = pages.deep_view();
            pages.push(to_owned_string(p));
            assert(pages.deep_view() =~= before.push(rv[i as int]));
        }
        i = i + 1;
    }
    pages
}

proof fn lemma_shown_keeps(resolved: Seq<Seq<char>>, has_wifi: bool, k: int, i: int)
    requires
        0 <= i < k <= resolved.len(),
        known_page(resolved[i]),
        resolved[i] != "network"@,
    ensures
        shown_pages_upto(resolved, has_wifi, k).contains(resolved[i]),
    decreases k,
{
    let prev = shown_pages_upto(resolved, has_wifi, k - 1);
    if i < k - 1 {
        lemma_shown_keeps(resolved, has_wifi, k - 1, i);
        let j = choose|j: int| 0 <= j < prev.len() && prev[j] == resolved[i];
        let p = resolved[k - 1];
        if known_page(p) && (p != "network"@ || has_wifi) {
            assert(prev.push(p)[j] == prev[j]);
        }
    } else {
        assert(prev.push(resolved[i])[prev.len() as int] == resolved[i]);
    }
}

/// Whatever the configuration and whether or not there is Wi-Fi, the wizard
/// always shows the storage, progress and finished pages, so its page list is
/// never empty and the navigator can always be built.
pub proof fn law_wizard_always_has_pages(c: PagesConfigView, has_wifi: bool)
    ensures
        shown_pages_upto(resolved_pages(c), has_wifi, resolved_pages(c).len() as int).contains("storage"@),
        shown_pages_upto(resolved_pages(c), has_wifi, resolved_pages(c).len() as int).contains("progress"@),
        shown_pages_upto(resolved_pages(c), has_wifi, resolved_pages(c).len() as int).contains("finished"@),
        shown_pages_upto(resolved_pages(c), has_wifi, resolved_pages(c).len() as int).len() > 0,
{
    law_resolve_is_well_formed(c);
    let r = resolved_pages(c);
    reveal_strlit("storage");
    reveal_strlit("progress");
    reveal_strlit("finished");
    reveal_strlit("network");
    assert("storage"@.len() == 7 && "progress"@.len() == 8 && "finished"@.len() == 8 && "network"@.len() == 7);
    assert("storage"@ != "network"@) by {
        assert("storage"@[0] != "network"@[0]);
    }
    let a = choose|j: int| 0 <= j < r.len() && r[j] == "storage"@;
    lemma_shown_keeps(r, has_wifi, r.len() as int, a);
    let b = choose|j: int| 0 <= j < r.len() && r[j] == "progress"@;
    lemma_shown_keeps(r, has_wifi, r.len() as int, b);
    let d = choose|j: int| 0 <= j < r.len() && r[j] == "finished"@;
    lemma_shown_keeps(r, has_wifi, r.len() as int, d);
}

/// Page outputs other than `RequestNext` never move the wizard, and only
/// `RequestNext` reports a page change.
pub proof fn law_only_request_next_moves(s: WizardStateView, o: PageOutputView)
    ensures
        !(o is RequestNext) ==> applied(s, o).0.nav == s.nav && applied(s, o).1 != StateEffect::PageChanged,
        o is RequestNext ==> applied(s, o).0.nav == nav_next(s.nav),
{
}

/// Choosing the same locale twice reports a language change at most once:
/// the second choice always yields no effect.
pub proof fn law_same_locale_twice_is_quiet(s: WizardStateView, locale: Seq<char>)
    ensures
        applied(applied(s, PageOutputView::SetLocale(locale)).0, PageOutputView::SetLocale(locale)).1 == StateEffect::Nothing,
        applied(applied(s, PageOutputView::SetLocale(locale)).0, PageOutputView::SetLocale(locale)).0
            == applied(s, PageOutputView::SetLocale(locale)).0,
{
}

/// Once the install has started, no page lets the user proceed.
pub proof fn law_started_install_cannot_proceed(s: WizardStateView)
    requires
        install_started_in(s),
    ensures
        !may_proceed(s),
{
    reveal_strlit("diagnostics");
    reveal_strlit("storage");
    reveal_strlit("user");
    reveal_strlit("progress");
    reveal_strlit("finished");
    assert("progress"@.len() == 8 && "finished"@.len() == 8);
    assert("diagnostics"@.len() == 11 && "storage"@.len() == 7 && "user"@.len() == 4);
}

/// `back` undoes `next` everywhere but on the last page, where `next` stays put.
pub proof fn law_back_undoes_next(s: WizardStateView)
    requires
        nav_wf(s.nav),
        s.nav.index + 1 < s.nav.pages.len(),
    ensures
        nav_prev(nav_next(s.nav)) == s.nav,
{
}

/// `seek` stops on the requested page when it lies ahead, and otherwise on the last page.
pub proof fn law_seek_lands(pages: Seq<Seq<char>>, page: Seq<char>, i: nat)
    requires
        i < pages.len(),
    ensures
        seek_index(pages, page, i) < pages.len(),
        i <= seek_index(pages, page, i),
        pages[seek_index(pages, page, i) as int] == page || seek_index(pages, page, i) + 1 == pages.len(),
        forall|j: int| i <= j < seek_index(pages, page, i) ==> pages[j] != page,
    decreases pages.len() - i,
{
    if !(i + 1 >= pages.len() || pages[i as int] == page) {
        law_seek_lands(pages, page, i + 1);
    }
}

} // verus!
