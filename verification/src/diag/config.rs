//! The page-toggle and diagnostics configuration read from `sirius.toml`,
//! and the rules that turn it into the page sequence.

use vstd::prelude::*;
use crate::storage::copy_strings;
use crate::text::{contains_string, str_eq, to_owned_string};

verus! {

/// Built-in RAM requirement used when `sirius.toml` does not override it.
pub const DEFAULT_MIN_RAM_GIB: u64 = 2;

/// The RAM requirement a config file gets when it names none.
pub fn default_min_ram_gib() -> (r: u64)
    ensures
        r == DEFAULT_MIN_RAM_GIB,
{
    DEFAULT_MIN_RAM_GIB
}

/// Default on-disk config path shipped in the ISO.
pub const CONFIG_PATH: &'static str = "/etc/sirius/sirius.toml";

/// The full installer configuration file.
#[derive(Debug, Clone, PartialEq, Eq)]
pub struct SiriusConfig {
    pub pages: PagesConfig,
    pub diagnostics: DiagnosticsConfig,
}

/// Which wizard pages are enabled and in what order.
#[derive(Debug, Clone, PartialEq, Eq)]
pub struct PagesConfig {
    pub order: Vec<String>,
    pub disabled: Vec<String>,
}

/// Diagnostics gating policy.
///
/// Each probe owns its own severity; `require` selects which failing checks
/// hard-gate the install, `warn` is advisory metadata for the UI, and
/// `min_ram_gib` is the RAM threshold of the `ram` probe.
#[derive(Debug, Clone, PartialEq, Eq)]
pub struct DiagnosticsConfig {
    pub require: Vec<String>,
    pub warn: Vec<String>,
    pub min_ram_gib: u64,
}

/// Mathematical model of a [`PagesConfig`].
pub struct PagesConfigView {
    pub order: Seq<Seq<char>>,
    pub disabled: Seq<Seq<char>>,
}

/// Mathematical model of a [`DiagnosticsConfig`].
pub struct DiagnosticsConfigView {
    pub require: Seq<Seq<char>>,
    pub warn: Seq<Seq<char>>,
    pub min_ram_gib: u64,
}

/// Mathematical model of a [`SiriusConfig`].
pub struct SiriusConfigView {
    pub pages: PagesConfigView,
    pub diagnostics: DiagnosticsConfigView,
}

impl View for PagesConfig {
    type V = PagesConfigView;

    open spec fn view(&self) -> PagesConfigView {
        PagesConfigView { order: self.order.deep_view(), disabled: self.disabled.deep_view() }
    }
}

impl View for DiagnosticsConfig {
    type V = DiagnosticsConfigView;

    open spec fn view(&self) -> DiagnosticsConfigView {
        DiagnosticsConfigView {
            require: self.require.deep_view(),
            warn: self.warn.deep_view(),
            min_ram_gib: self.min_ram_gib,
        }
    }
}

impl View for SiriusConfig {
    type V = SiriusConfigView;

    open spec fn view(&self) -> SiriusConfigView {
        SiriusConfigView { pages: self.pages@, diagnostics: self.diagnostics@ }
    }
}

impl Default for PagesConfig {
    /// No order and nothing disabled.
    fn default() -> (c: PagesConfig)
        ensures
            c@.order == Seq::<Seq<char>>::empty(),
            c@.disabled == Seq::<Seq<char>>::empty(),
    {
        let c = PagesConfig { order: Vec::new(), disabled: Vec::new() };
        assert(c@.order =~= Seq::<Seq<char>>::empty());
        assert(c@.disabled =~= Seq::<Seq<char>>::empty());
        c
    }
}

impl Default for DiagnosticsConfig {
    /// Nothing required, nothing flagged, the built-in RAM threshold.
    fn default() -> (c: DiagnosticsConfig)
        ensures
            c@.require.len() == 0,
            c@.warn.len() == 0,
            c@.min_ram_gib == DEFAULT_MIN_RAM_GIB,
    {
        DiagnosticsConfig { require: Vec::new(), warn: Vec::new(), min_ram_gib: DEFAULT_MIN_RAM_GIB }
    }
}

/// The gating policy used when no config file can be read.
pub open spec fn default_diagnostics() -> DiagnosticsConfigView {
    DiagnosticsConfigView {
        require: seq!["uefi"@, "ram"@, "disk_space"@],
        warn: seq!["secure_boot"@, "network"@, "virt"@],
        min_ram_gib: DEFAULT_MIN_RAM_GIB,
    }
}

fn strings3(a: &str, b: &str, c: &str) -> (v: Vec<String>)
    ensures
        v.deep_view() == seq![a@, b@, c@],
{
    let mut v: Vec<String> = Vec::new();
    v.push(to_owned_string(a));
    v.push(to_owned_string(b));
    v.push(to_owned_string(c));
    assert(v.deep_view() =~= seq![a@, b@, c@]);
    v
}

impl Default for SiriusConfig {
    /// Default page settings, and the built-in gating policy: UEFI, RAM and
    /// disk space required; Secure Boot, network and virtualization flagged.
    fn default() -> (c: SiriusConfig)
        ensures
            c@ == SiriusConfig::default_view(),
    {
        SiriusConfig {
            pages: PagesConfig::default(),
            diagnostics: DiagnosticsConfig {
                require: strings3("uefi", "ram", "disk_space"),
                warn: strings3("secure_boot", "network", "virt"),
                min_ram_gib: DEFAULT_MIN_RAM_GIB,
            },
        }
    }
}

impl SiriusConfig {
    /// What loading a config file yields, given what reading and parsing it
    /// gave: `None` when the file could not be read, else the parse result with
    /// the parser's message on failure. A missing or malformed file falls back
    /// to the defaults with a warning for the caller to log.
    pub fn from_loaded(path: &str, loaded: Option<Result<SiriusConfig, String>>) -> (r: (SiriusConfig, Option<String>))
        ensures
            loaded matches Some(Ok(cfg)) ==> r.0@ == cfg@ && r.1 is None,
            loaded matches Some(Err(e)) ==> r.0@ == SiriusConfig::default_view() && (r.1 matches Some(w)
                && w@ == "malformed config at "@ + path@ + ": "@ + e@),
            loaded is None ==> r.0@ == SiriusConfig::default_view() && (r.1 matches Some(w)
                && w@ == "no config at "@ + path@ + "; using built-in defaults"@),
    {
        match loaded {
            Some(Ok(cfg)) => {
                let r = (cfg, None);
                r
            },
            Some(Err(e)) => {
                let mut w = to_owned_string("malformed config at ");
                w.append(path);
                w.append(": ");
                w.append(e.as_str());
                (SiriusConfig::default(), Some(w))
            },
            None => {
                let mut w = to_owned_string("no config at ");
                w.append(path);
                w.append("; using built-in defaults");
                (SiriusConfig::default(), Some(w))
            },
        }
    }

    /// The model of the default configuration.
    pub open spec fn default_view() -> SiriusConfigView {
        SiriusConfigView {
            pages: PagesConfigView { order: Seq::empty(), disabled: Seq::empty() },
            diagnostics: default_diagnostics(),
        }
    }
}

/// Every page Sirius knows how to render.
pub open spec fn known_page(p: Seq<char>) -> bool {
    ||| p == "welcome"@
    ||| p == "diagnostics"@
    ||| p == "network"@
    ||| p == "keyboard"@
    ||| p == "timezone"@
    ||| p == "storage"@
    ||| p == "user"@
    ||| p == "summary"@
    ||| p == "progress"@
    ||| p == "finished"@
}

/// Pages that always run and cannot be disabled.
pub open spec fn mandatory_page(p: Seq<char>) -> bool {
    p == "storage"@ || p == "progress"@ || p == "finished"@
}

/// The built-in page order: every known page, in canonical order.
pub open spec fn default_order_seq() -> Seq<Seq<char>> {
    seq![
        "welcome"@,
        "diagnostics"@,
        "network"@,
        "keyboard"@,
        "timezone"@,
        "storage"@,
        "user"@,
        "summary"@,
        "progress"@,
        "finished"@,
    ]
}

/// The mandatory pages in canonical order.
pub open spec fn mandatory_order_seq() -> Seq<Seq<char>> {
    seq!["storage"@, "progress"@, "finished"@]
}

/// Legacy disk and partitioning page ids all stand for the storage page.
pub open spec fn canonical_page(p: Seq<char>) -> Seq<char> {
    if p == "disk"@ || p == "partition"@ || p == "manual_partition"@ {
        "storage"@
    } else {
        p
    }
}

/// A page survives the filters: it is known, and mandatory or not disabled.
pub open spec fn page_kept(p: Seq<char>, disabled: Seq<Seq<char>>) -> bool {
    known_page(p) && (mandatory_page(p) || !disabled.contains(p))
}

/// The first `k` source ids, renamed, filtered, with repeats dropped
/// (the first occurrence stays).
pub open spec fn resolve_scan(src: Seq<Seq<char>>, disabled: Seq<Seq<char>>, k: int) -> Seq<Seq<char>>
    decreases k,
{
    if k <= 0 {
        Seq::empty()
    } else {
        let prev = resolve_scan(src, disabled, k - 1);
        let p = canonical_page(src[k - 1]);
        if page_kept(p, disabled) && !prev.contains(p) {
            prev.push(p)
        } else {
            prev
        }
    }
}

/// `s` with `p` appended unless already present.
pub open spec fn with_page(s: Seq<Seq<char>>, p: Seq<char>) -> Seq<Seq<char>> {
    if s.contains(p) {
        s
    } else {
        s.push(p)
    }
}

/// The ids the page list starts from: the configured order, or the default when empty.
pub open spec fn source_order(c: PagesConfigView) -> Seq<Seq<char>> {
    if c.order.len() == 0 {
        default_order_seq()
    } else {
        c.order
    }
}

/// The final ordered list of pages for a configuration.
pub open spec fn resolved_pages(c: PagesConfigView) -> Seq<Seq<char>> {
    let src = source_order(c);
    let scanned = resolve_scan(src, c.disabled, src.len() as int);
    with_page(with_page(with_page(scanned, "storage"@), "progress"@), "finished"@)
}

fn owned_list(items: &[&str]) -> (v: Vec<String>)
    ensures
        v.deep_view() == items@.map_values(|s: &str| s@),
{
    let mut v: Vec<String> = Vec::new();
    let mut i: usize = 0;
    while i < items.len()
        invariant
            i <= items@.len(),
            v.deep_view() == items@.subrange(0, i as int).map_values(|s: &str| s@),
        decreases items@.len() - i,
    {
        let ghost before = v.deep_view();
        v.push(to_owned_string(items[i]));
        assert(v.deep_view() =~= before.push(items@[i as int]@));
        i = i + 1;
        assert(v.deep_view() =~= items@.subrange(0, i as int).map_values(|s: &str| s@));
    }
    assert(items@.subrange(0, items@.len() as int) =~= items@);
    v
}

/// Every page Sirius knows how to render, in canonical order.
pub fn known_pages() -> (v: Vec<String>)
    ensures
        v.deep_view() == default_order_seq(),
{
    let items: [&str; 10] = [
        "welcome",
        "diagnostics",
        "network",
        "keyboard",
        "timezone",
        "storage",
        "user",
        "summary",
        "progress",
        "finished",
    ];
    let v = owned_list(&items);
    assert(v.deep_view() =~= default_order_seq());
    v
}

/// The built-in fallback order, used when the config has no `order`.
pub fn default_order() -> (v: Vec<String>)
    ensures
        v.deep_view() == default_order_seq(),
{
    known_pages()
}

/// Pages that always run and cannot be disabled, in canonical order.
pub fn mandatory_pages() -> (v: Vec<String>)
    ensures
        v.deep_view() == mandatory_order_seq(),
{
    strings3("storage", "progress", "finished")
}

fn is_known_page(p: &str) -> (r: bool)
    ensures
        r == known_page(p@),
{
    str_eq(p, "welcome") || str_eq(p, "diagnostics") || str_eq(p, "network") || str_eq(p, "keyboard")
        || str_eq(p, "timezone") || str_eq(p, "storage") || str_eq(p, "user") || str_eq(p, "summary")
        || str_eq(p, "progress") || str_eq(p, "finished")
}

fn is_mandatory_page(p: &str) -> (r: bool)
    ensures
        r == mandatory_page(p@),
{
    str_eq(p, "storage") || str_eq(p, "progress") || str_eq(p, "finished")
}

fn canonical(p: &str) -> (r: String)
    ensures
        r@ == canonical_page(p@),
{
    if str_eq(p, "disk") || str_eq(p, "partition") || str_eq(p, "manual_partition") {
        to_owned_string("storage")
    } else {
        to_owned_string(p)
    }
}

fn push_if_missing(v: &mut Vec<String>, p: &str)
    ensures
        final(v).deep_view() == with_page(old(v).deep_view(), p@),
{
    if !contains_string(v.as_slice(), p) {
        proof {
            assert forall|i: int| 0 <= i < old(v).deep_view().len() implies old(v).deep_view()[i] != p@ by {
                assert(old(v).deep_view()[i] == old(v)@[i]@);
            }
        }
        let ghost before = v.deep_view();
        v.push(to_owned_string(p));
        assert(v.deep_view() =~= before.push(p@));
    } else {
        proof {
            let i = choose|i: int| 0 <= i < old(v)@.len() && (#[trigger] old(v)@[i])@ == p@;
            assert(old(v).deep_view()[i] == p@);
        }
    }
}

impl PagesConfig {
    /// Resolve the final ordered list of pages to show:
    /// 1. start from `order` (or the default order if empty), with the legacy
    ///    `disk`, `partition` and `manual_partition` ids read as `storage`;
    /// 2. drop ids Sirius does not know;
    /// 3. drop ids listed in `disabled`, unless mandatory;
    /// 4. keep only the first occurrence of each id;
    /// 5. append every missing mandatory page, in canonical order.
    pub fn resolve(&self) -> (pages: Vec<String>)
        ensures
            pages.deep_view() == resolved_pages(self@),
    {
        let source: Vec<String> = if self.order.len() == 0 {
            default_order()
        } else {
            copy_strings(&self.order)
        };
        let ghost src = source_order(self@);
        assert(source.deep_view() == src);
        let mut resolved: Vec<String> = Vec::new();
        let mut i: usize = 0;
        while i < source.len()
            invariant
                source.deep_view() == src,
                i <= src.len(),
                src.len() == source@.len(),
                resolved.deep_view() == resolve_scan(src, self@.disabled, i as int),
            decreases source@.len() - i,
        {
            assert(source.deep_view()[i as int] == source@[i as int]@);
            let p = canonical(source[i].as_str());
            let known = is_known_page(p.as_str());
            let mandatory = is_mandatory_page(p.as_str());
            let disabled = contains_string(self.disabled.as_slice(), p.as_str());
            let seen = contains_string(resolved.as_slice(), p.as_str());
            proof {
                if disabled {
                    let j = choose|j: int| 0 <= j < self.disabled@.len() && (#[trigger] self.disabled@[j])@ == p@;
                    assert(self@.disabled[j] == p@);
                } else {
                    assert forall|j: int| 0 <= j < self@.disabled.len() implies self@.disabled[j] != p@ by {
                        assert(self@.disabled[j] == self.disabled@[j]@);
                    }
                }
                if seen {
                    let j = choose|j: int| 0 <= j < resolved@.len() && (#[trigger] resolved@[j])@ == p@;
                    assert(resolved.deep_view()[j] == p@);
                } else {
                    assert forall|j: int| 0 <= j < resolved.deep_view().len() implies resolved.deep_view()[j] != p@ by {
                        assert(resolved.deep_view()[j] == resolved@[j]@);
                    }
                }
            }
            if known && (mandatory || !disabled) && !seen {
                let ghost before = resolved.deep_view();
                resolved.push(p);
                assert(resolved.deep_view() =~= before.push(canonical_page(src[i as int])));
            }
            i = i + 1;
        }
        push_if_missing(&mut resolved, "storage");
        push_if_missing(&mut resolved, "progress");
        push_if_missing(&mut resolved, "finished");
        resolved
    }
}

proof fn lemma_scan_sound(src: Seq<Seq<char>>, disabled: Seq<Seq<char>>, k: int)
    requires
        0 <= k <= src.len(),
    ensures
        resolve_scan(src, disabled, k).no_duplicates(),
        forall|i: int| 0 <= i < resolve_scan(src, disabled, k).len()
            ==> page_kept(#[trigger] resolve_scan(src, disabled, k)[i], disabled),
    decreases k,
{
    if k > 0 {
        lemma_scan_sound(src, disabled, k - 1);
        let prev = resolve_scan(src, disabled, k - 1);
        let p = canonical_page(src[k - 1]);
        if page_kept(p, disabled) && !prev.contains(p) {
            let s = prev.push(p);
            assert forall|i: int, j: int| 0 <= i < s.len() && 0 <= j < s.len() && i != j implies s[i] != s[j] by {
                if i < prev.len() && j < prev.len() {
                } else if i == prev.len() {
                    assert(s[j] == prev[j]);
                } else {
                    assert(s[i] == prev[i]);
                }
            }
            assert forall|i: int| 0 <= i < s.len() implies page_kept(#[trigger] s[i], disabled) by {
                if i < prev.len() {
                    assert(s[i] == prev[i]);
                }
            }
        }
    }
}

proof fn lemma_scan_complete(src: Seq<Seq<char>>, disabled: Seq<Seq<char>>, k: int, i: int)
    requires
        0 <= i < k <= src.len(),
        page_kept(canonical_page(src[i]), disabled),
    ensures
        resolve_scan(src, disabled, k).contains(canonical_page(src[i])),
    decreases k,
{
    let prev = resolve_scan(src, disabled, k - 1);
    if i < k - 1 {
        lemma_scan_complete(src, disabled, k - 1, i);
        let j = choose|j: int| 0 <= j < prev.len() && prev[j] == canonical_page(src[i]);
        let p = canonical_page(src[k - 1]);
        if page_kept(p, disabled) && !prev.contains(p) {
            assert(prev.push(p)[j] == prev[j]);
        }
    } else {
        let p = canonical_page(src[k - 1]);
        if !prev.contains(p) {
            assert(prev.push(p)[prev.len() as int] == p);
        }
    }
}

proof fn lemma_with_page(s: Seq<Seq<char>>, p: Seq<char>, disabled: Seq<Seq<char>>)
    requires
        s.no_duplicates(),
        forall|i: int| 0 <= i < s.len() ==> page_kept(#[trigger] s[i], disabled),
        page_kept(p, disabled),
    ensures
        with_page(s, p).no_duplicates(),
        with_page(s, p).contains(p),
        forall|i: int| 0 <= i < with_page(s, p).len() ==> page_kept(#[trigger] with_page(s, p)[i], disabled),
        forall|q: Seq<char>| s.contains(q) ==> with_page(s, p).contains(q),
{
    if !s.contains(p) {
        let t = s.push(p);
        assert(t[s.len() as int] == p);
        assert forall|i: int, j: int| 0 <= i < t.len() && 0 <= j < t.len() && i != j implies t[i] != t[j] by {
            if i < s.len() && j < s.len() {
            } else if i == s.len() {
                assert(t[j] == s[j]);
            } else {
                assert(t[i] == s[i]);
            }
        }
        assert forall|i: int| 0 <= i < t.len() implies page_kept(#[trigger] t[i], disabled) by {
            if i < s.len() {
                assert(t[i] == s[i]);
            }
        }
        assert forall|q: Seq<char>| s.contains(q) implies t.contains(q) by {
            let j = choose|j: int| 0 <= j < s.len() && s[j] == q;
            assert(t[j] == q);
        }
    }
}

/// The resolved page list never names a page twice, names only pages Sirius
/// knows, never names a disabled page unless it is mandatory, and always holds
/// every mandatory page.
pub proof fn law_resolve_is_well_formed(c: PagesConfigView)
    ensures
        resolved_pages(c).no_duplicates(),
        forall|i: int| 0 <= i < resolved_pages(c).len() ==> known_page(#[trigger] resolved_pages(c)[i]),
        forall|i: int| 0 <= i < resolved_pages(c).len() ==> mandatory_page(#[trigger] resolved_pages(c)[i])
            || !c.disabled.contains(resolved_pages(c)[i]),
        resolved_pages(c).contains("storage"@),
        resolved_pages(c).contains("progress"@),
        resolved_pages(c).contains("finished"@),
{
    let src = source_order(c);
    let s0 = resolve_scan(src, c.disabled, src.len() as int);
    lemma_scan_sound(src, c.disabled, src.len() as int);
    lemma_with_page(s0, "storage"@, c.disabled);
    let s1 = with_page(s0, "storage"@);
    lemma_with_page(s1, "progress"@, c.disabled);
    let s2 = with_page(s1, "progress"@);
    lemma_with_page(s2, "finished"@, c.disabled);
    let s3 = with_page(s2, "finished"@);
    assert forall|i: int| 0 <= i < s3.len() implies known_page(#[trigger] s3[i]) by {
        assert(page_kept(s3[i], c.disabled));
    }
    assert forall|i: int| 0 <= i < s3.len() implies mandatory_page(#[trigger] s3[i]) || !c.disabled.contains(s3[i]) by {
        assert(page_kept(s3[i], c.disabled));
    }
}

/// Nothing the configuration asks for is lost: every source id that, once the
/// legacy ids are renamed, is known and not disabled (or mandatory) is shown.
pub proof fn law_resolve_keeps_requested_pages(c: PagesConfigView, i: int)
    requires
        0 <= i < source_order(c).len(),
        page_kept(canonical_page(source_order(c)[i]), c.disabled),
    ensures
        resolved_pages(c).contains(canonical_page(source_order(c)[i])),
{
    let src = source_order(c);
    let s0 = resolve_scan(src, c.disabled, src.len() as int);
    lemma_scan_sound(src, c.disabled, src.len() as int);
    lemma_scan_complete(src, c.disabled, src.len() as int, i);
    lemma_with_page(s0, "storage"@, c.disabled);
    let s1 = with_page(s0, "storage"@);
    lemma_with_page(s1, "progress"@, c.disabled);
    let s2 = with_page(s1, "progress"@);
    lemma_with_page(s2, "finished"@, c.disabled);
}

proof fn lemma_known_is_canonical(p: Seq<char>)
    requires
        known_page(p),
    ensures
        canonical_page(p) == p,
{
    reveal_strlit("disk");
    reveal_strlit("partition");
    reveal_strlit("manual_partition");
    reveal_strlit("welcome");
    reveal_strlit("diagnostics");
    reveal_strlit("network");
    reveal_strlit("keyboard");
    reveal_strlit("timezone");
    reveal_strlit("storage");
    reveal_strlit("user");
    reveal_strlit("summary");
    reveal_strlit("progress");
    reveal_strlit("finished");
    assert("disk"@.len() == 4 && "partition"@.len() == 9 && "manual_partition"@.len() == 16);
    assert("welcome"@.len() == 7 && "diagnostics"@.len() == 11 && "network"@.len() == 7);
    assert("keyboard"@.len() == 8 && "timezone"@.len() == 8 && "storage"@.len() == 7);
    assert("user"@.len() == 4 && "summary"@.len() == 7 && "progress"@.len() == 8 && "finished"@.len() == 8);
    assert("user"@ != "disk"@) by {
        assert("user"@[0] != "disk"@[0]);
    }
}

proof fn lemma_scan_of_resolved(s: Seq<Seq<char>>, disabled: Seq<Seq<char>>, k: int)
    requires
        0 <= k <= s.len(),
        s.no_duplicates(),
        forall|i: int| 0 <= i < s.len() ==> page_kept(#[trigger] s[i], disabled),
    ensures
        resolve_scan(s, disabled, k) == s.subrange(0, k),
    decreases k,
{
    if k > 0 {
        lemma_scan_of_resolved(s, disabled, k - 1);
        let prev = s.subrange(0, k - 1);
        assert(page_kept(s[k - 1], disabled));
        lemma_known_is_canonical(s[k - 1]);
        if prev.contains(s[k - 1]) {
            let j = choose|j: int| 0 <= j < prev.len() && prev[j] == s[k - 1];
            assert(s[j] == s[k - 1]);
        }
        assert(prev.push(s[k - 1]) =~= s.subrange(0, k));
    }
}

/// Resolving is idempotent: a page order that is already resolved comes back
/// unchanged, with the same pages disabled.
pub proof fn law_resolve_is_idempotent(c: PagesConfigView)
    ensures
        resolved_pages(PagesConfigView { order: resolved_pages(c), disabled: c.disabled }) == resolved_pages(c),
{
    let r = resolved_pages(c);
    law_resolve_is_well_formed(c);
    let c2 = PagesConfigView { order: r, disabled: c.disabled };
    assert(r.len() > 0) by {
        let j = choose|j: int| 0 <= j < r.len() && r[j] == "storage"@;
    }
    assert(source_order(c2) == r);
    assert forall|i: int| 0 <= i < r.len() implies page_kept(#[trigger] r[i], c.disabled) by {
        assert(known_page(r[i]));
        assert(mandatory_page(r[i]) || !c.disabled.contains(r[i]));
    }
    lemma_scan_of_resolved(r, c.disabled, r.len() as int);
    assert(r.subrange(0, r.len() as int) =~= r);
}

} // verus!
