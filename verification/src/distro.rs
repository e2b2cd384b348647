//! What Sirius installs, as the distribution describes it: the bootc image and
//! the partition layout, plus optional branding and link cards. The
//! descriptor ships at `/etc/sirius/distro.toml`.

use vstd::prelude::*;
use crate::storage::copy_strings;
use crate::text::{str_eq, to_owned_string};

verus! {

/// Default on-disk path for the distro descriptor, shipped in the ISO.
pub const DISTRO_PATH: &'static str = "/etc/sirius/distro.toml";

/// The in-tree descriptor used for development and VM runs.
pub const DEV_DISTRO_PATH: &'static str = "data/distro.toml";

/// How many link cards the progress page shows at most.
pub const MAX_BENTOS: usize = 3;

/// Top-level descriptor: one section per concern.
#[derive(Debug, Clone, PartialEq, Eq)]
pub struct DistroDescriptor {
    /// `[bootc]`: the OCI image deployment settings.
    pub bootc: BootcConfig,
    /// `[disk]`: the target partition layout.
    pub disk: DiskConfig,
    /// `[[bento]]`: optional link cards shown on the install progress page.
    pub bentos: Vec<Bento>,
    /// `[branding]`: optional welcome-page branding.
    pub branding: Branding,
}

/// `[branding]` section: what the welcome page shows above the title.
#[derive(Debug, Clone, PartialEq, Eq)]
pub struct Branding {
    /// Absolute path to a logo image file (preferred when set and readable).
    pub logo: Option<String>,
    /// Themed icon name fallback.
    pub icon: Option<String>,
}

/// One `[[bento]]` link card on the progress page.
#[derive(Debug, Clone, PartialEq, Eq)]
pub struct Bento {
    pub title: String,
    pub desc: String,
    pub link: String,
    pub icon: String,
}

/// `[bootc]` section.
#[derive(Debug, Clone, PartialEq, Eq)]
pub struct BootcConfig {
    /// The bootc/OCI image reference to deploy.
    pub image: String,
    /// Optional image reference persisted into the installed deployment.
    pub target_imgref: Option<String>,
    /// Whether bootc enforces container signature policy during install.
    pub enforce_sigpolicy: bool,
    /// Kernel arguments passed to `bootc install to-filesystem`.
    pub kargs: Vec<String>,
    /// Extra arguments passed to `bootc install to-filesystem`.
    pub args: Vec<String>,
}

/// `[disk]` section.
#[derive(Debug, Clone, PartialEq, Eq)]
pub struct DiskConfig {
    /// Directory of systemd-repart `.conf` files defining the target layout.
    pub repart_dir: String,
}

impl Default for Branding {
    /// No logo and no icon.
    fn default() -> (b: Branding)
        ensures
            b.logo is None,
            b.icon is None,
    {
        Branding { logo: None, icon: None }
    }
}

impl Branding {
    /// The themed icon the welcome page falls back to: the configured one, or a star.
    pub fn icon_name(&self) -> (name: &str)
        ensures
            name@ == match self.icon {
                Some(i) => i@,
                None => "starred-symbolic"@,
            },
    {
        match &self.icon {
            Some(i) => i.as_str(),
            None => "starred-symbolic",
        }
    }
}

impl DistroDescriptor {
    /// The link cards the progress page shows: the first [`MAX_BENTOS`].
    pub fn shown_bentos(&self) -> (r: &[Bento])
        ensures
            r@ == self.bentos@.subrange(0, if self.bentos@.len() < MAX_BENTOS { self.bentos@.len() as int } else { MAX_BENTOS as int }),
    {
        let n = if self.bentos.len() < MAX_BENTOS { self.bentos.len() } else { MAX_BENTOS };
        slice_prefix(self.bentos.as_slice(), n)
    }
}

fn slice_prefix(s: &[Bento], n: usize) -> (r: &[Bento])
    requires
        n <= s@.len(),
    ensures
        r@ == s@.subrange(0, n as int),
{
    vstd::slice::slice_subrange(s, 0, n)
}

/// The message for a descriptor that could not be read from [`DISTRO_PATH`].
pub fn read_error_message(error: &str) -> (m: String)
    ensures
        m@ == "cannot read distro descriptor ("@ + DISTRO_PATH@ + "): "@ + error@,
{
    let mut m = to_owned_string("cannot read distro descriptor (");
    m.append(DISTRO_PATH);
    m.append("): ");
    m.append(error);
    m
}

/// The message for a descriptor that does not parse.
pub fn parse_error_message(error: &str) -> (m: String)
    ensures
        m@ == "invalid distro descriptor: "@ + error@,
{
    let mut m = to_owned_string("invalid distro descriptor: ");
    m.append(error);
    m
}

/// A desktop-entry field code (`%u`, `%U`, `%f`, `%F`): the launcher, not
/// Sirius, would substitute it, so it is dropped from a browser command line.
pub open spec fn field_code(arg: Seq<char>) -> bool {
    arg == "%u"@ || arg == "%U"@ || arg == "%f"@ || arg == "%F"@
}

/// The first `k` arguments without field codes, in order.
pub open spec fn without_field_codes(args: Seq<Seq<char>>, k: int) -> Seq<Seq<char>>
    decreases k,
{
    if k <= 0 {
        Seq::empty()
    } else if field_code(args[k - 1]) {
        without_field_codes(args, k - 1)
    } else {
        without_field_codes(args, k - 1).push(args[k - 1])
    }
}

/// A browser's parsed command line with the field codes removed; `None` when nothing is left.
pub fn strip_field_codes(argv: &Vec<String>) -> (r: Option<Vec<String>>)
    ensures
        match r {
            Some(v) => v.deep_view() == without_field_codes(argv.deep_view(), argv@.len() as int)
                && v@.len() > 0,
            None => without_field_codes(argv.deep_view(), argv@.len() as int).len() == 0,
        },
{
    let ghost av = argv.deep_view();
    assert(av.len() == argv@.len());
    let mut kept: Vec<String> = Vec::new();
    let mut i: usize = 0;
    while i < argv.len()
        invariant
            av == argv.deep_view(),
            av.len() == argv@.len(),
            i <= argv@.len(),
            kept.deep_view() == without_field_codes(av, i as int),
        decreases argv@.len() - i,
    {
        assert(av[i as int] == argv@[i as int]@);
        let a = argv[i].as_str();
        if !(str_eq(a, "%u") || str_eq(a, "%U") || str_eq(a, "%f") || str_eq(a, "%F")) {
            let ghost before = kept.deep_view();
            kept.push(to_owned_string(a));
            assert(kept.deep_view() =~= before.push(av[i as int]));
        }
        i = i + 1;
    }
    assert(kept.deep_view().len() == kept@.len());
    if kept.len() == 0 {
        None
    } else {
        Some(kept)
    }
}

/// The command used when no default browser is registered: `gio open`.
pub fn fallback_browser_argv() -> (v: Vec<String>)
    ensures
        v.deep_view() == seq!["gio"@, "open"@],
{
    let mut v: Vec<String> = Vec::new();
    v.push(to_owned_string("gio"));
    v.push(to_owned_string("open"));
    assert(v.deep_view() =~= seq!["gio"@, "open"@]);
    v
}

/// The memory cap prefix: a transient `systemd-run --user --scope` with
/// `MemoryHigh=1G` and `MemoryMax=1536M`, so a browser on a RAM-backed live
/// session cannot exhaust memory.
pub open spec fn capped_prefix() -> Seq<Seq<char>> {
    seq!["--user"@, "--scope"@, "--quiet"@, "-p"@, "MemoryHigh=1G"@, "-p"@, "MemoryMax=1536M"@, "--"@]
}

/// The arguments of `systemd-run` that open `url` with the browser command `argv` under the memory cap.
pub fn capped_launch_args(argv: &Vec<String>, url: &str) -> (v: Vec<String>)
    ensures
        v.deep_view() == capped_prefix() + argv.deep_view() + seq![url@],
{
    let items: [&str; 8] = ["--user", "--scope", "--quiet", "-p", "MemoryHigh=1G", "-p", "MemoryMax=1536M", "--"];
    let mut v: Vec<String> = Vec::new();
    let mut i: usize = 0;
    while i < 8
        invariant
            i <= 8,
            v.deep_view() == items@.subrange(0, i as int).map_values(|s: &str| s@),
        decreases 8 - i,
    {
        let ghost before = v.deep_view();
        v.push(to_owned_string(items[i]));
        assert(v.deep_view() =~= before.push(items@[i as int]@));
        assert(items@.subrange(0, i + 1) =~= items@.subrange(0, i as int).push(items@[i as int]));
        i = i + 1;
    }
    assert(items@.subrange(0, 8) =~= items@);
    assert(v.deep_view() =~= capped_prefix());
    let mut rest = copy_strings(argv);
    let ghost prefix = v.deep_view();
    v.append(&mut rest);
    assert(v.deep_view() =~= prefix + argv.deep_view());
    let ghost with_argv = v.deep_view();
    v.push(to_owned_string(url));
    assert(v.deep_view() =~= with_argv.push(url@));
    v
}

} // verus!
