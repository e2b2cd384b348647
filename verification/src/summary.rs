//! The rows of the summary page.

use vstd::prelude::*;
use crate::adapter::or_default;
use crate::config_model::{account_is_empty, InstallConfig, InstallConfigView, InstallType};
use crate::i18n::{tr, tr_text, Lang};
use crate::text::{contains_string, to_owned_string};

verus! {

/// What the summary shows for a value nobody chose.
pub open spec fn dash() -> Seq<char> {
    "\u{2014}"@
}

/// The key of the encryption row's value.
pub open spec fn encryption_key_name(c: InstallConfigView) -> Seq<char> {
    if c.install_type == Some(InstallType::Manual) {
        "summary.manual"@
    } else if c.encrypt {
        "summary.enabled"@
    } else {
        "summary.disabled"@
    }
}

/// The disk row's value: the disk's name, else its path, else a dash.
pub open spec fn disk_value(c: InstallConfigView) -> Seq<char> {
    match c.destination_disk_name {
        Some(n) => n,
        None => or_default(c.destination_disk, dash()),
    }
}

/// `row` appended to `rows` when `shown`.
pub open spec fn push_if(rows: Seq<(Seq<char>, Seq<char>)>, shown: bool, row: (Seq<char>, Seq<char>)) -> Seq<(Seq<char>, Seq<char>)> {
    if shown { rows.push(row) } else { rows }
}

/// The (label, value) rows for the pages that are on: language, keyboard,
/// timezone, disk and encryption, then user and hostname when an account was entered.
pub open spec fn summary_of(lang: Lang, c: InstallConfigView, pages: Seq<Seq<char>>) -> Seq<(Seq<char>, Seq<char>)> {
    let r1 = push_if(Seq::empty(), pages.contains("welcome"@), (tr_text(lang, "summary.language"@), or_default(c.locale, dash())));
    let r2 = push_if(r1, pages.contains("keyboard"@), (tr_text(lang, "summary.keyboard"@), or_default(c.keyboard, dash())));
    let r3 = push_if(r2, pages.contains("timezone"@), (tr_text(lang, "summary.timezone"@), or_default(c.timezone, dash())));
    let storage = pages.contains("storage"@);
    let r4 = push_if(r3, storage, (tr_text(lang, "summary.disk"@), disk_value(c)));
    let r5 = push_if(r4, storage, (tr_text(lang, "summary.encryption"@), tr_text(lang, encryption_key_name(c))));
    let user = pages.contains("user"@) && !account_is_empty(c.user);
    let r6 = push_if(r5, user, (tr_text(lang, "summary.user"@), c.user.full_name + " ("@ + c.user.username + ")"@));
    push_if(r6, user, (tr_text(lang, "summary.hostname"@), c.user.hostname))
}

fn page_on(pages: &[String], page: &str) -> (r: bool)
    ensures
        r == pages@.map_values(|p: String| p@).contains(page@),
{
    let r = contains_string(pages, page);
    proof {
        let v = pages@.map_values(|p: String| p@);
        if r {
            let i = choose|i: int| 0 <= i < pages@.len() && (#[trigger] pages@[i])@ == page@;
            assert(v[i] == page@);
        } else {
            assert forall|i: int| 0 <= i < v.len() implies v[i] != page@ by {
                assert(v[i] == pages@[i]@);
            }
        }
    }
    r
}

fn or_dash(o: &Option<String>) -> (r: String)
    ensures
        r@ == or_default(o.deep_view(), dash()),
{
    match o {
        Some(v) => to_owned_string(v.as_str()),
        None => to_owned_string("\u{2014}"),
    }
}

fn push_row(rows: &mut Vec<(String, String)>, label: String, value: String)
    ensures
        final(rows).deep_view() == old(rows).deep_view().push((label@, value@)),
{
    let ghost before = rows.deep_view();
    rows.push((label, value));
    assert(rows.deep_view() =~= before.push((label@, value@)));
}

/// The summary page's rows for `cfg`, in `lang`, showing only what the enabled `pages` collect.
pub fn summary_rows(lang: Lang, cfg: &InstallConfig, pages: &[String]) -> (rows: Vec<(String, String)>)
    ensures
        rows.deep_view() == summary_of(lang, cfg@, pages@.map_values(|p: String| p@)),
{
    let ghost pv = pages@.map_values(|p: String| p@);
    let mut rows: Vec<(String, String)> = Vec::new();
    assert(rows.deep_view() =~= Seq::<(Seq<char>, Seq<char>)>::empty());
    if page_on(pages, "welcome") {
        push_row(&mut rows, tr(lang, "summary.language"), or_dash(&cfg.locale));
    }
    if page_on(pages, "keyboard") {
        push_row(&mut rows, tr(lang, "summary.keyboard"), or_dash(&cfg.keyboard));
    }
    if page_on(pages, "timezone") {
        push_row(&mut rows, tr(lang, "summary.timezone"), or_dash(&cfg.timezone));
    }
    if page_on(pages, "storage") {
        let disk = match &cfg.destination_disk_name {
            Some(n) => to_owned_string(n.as_str()),
            None => or_dash(&cfg.destination_disk),
        };
        push_row(&mut rows, tr(lang, "summary.disk"), disk);
        let key = match cfg.install_type {
            Some(InstallType::Manual) => "summary.manual",
            _ => if cfg.encrypt { "summary.enabled" } else { "summary.disabled" },
        };
        push_row(&mut rows, tr(lang, "summary.encryption"), tr(lang, key));
    }
    if page_on(pages, "user") && !cfg.user.is_empty() {
        let mut who = to_owned_string(cfg.user.full_name.as_str());
        who.append(" (");
        who.append(cfg.user.username.as_str());
        who.append(")");
        push_row(&mut rows, tr(lang, "summary.user"), who);
        push_row(&mut rows, tr(lang, "summary.hostname"), to_owned_string(cfg.user.hostname.as_str()));
    }
    rows
}

} // verus!
