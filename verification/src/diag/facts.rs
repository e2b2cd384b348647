//! Raw system facts, built from what the machine reported. The probes judge
//! these, so they can be checked without hardware.

use vstd::prelude::*;
use crate::text::{
    has_prefix, lines, lines_of, parse_u64, parsed_u64, split_char, split_on, starts_with, str_eq,
    to_owned_string, trim, trim_end_char, trim_end_matches_char, trimmed,
};

verus! {

/// Where the kernel exposes EFI firmware variables.
pub const EFI_PATH: &'static str = "/sys/firmware/efi";

/// Raw, unjudged facts read from the running system.
#[derive(Debug, Clone)]
pub struct SystemFacts {
    pub efi_path: String,
    /// Total usable system RAM in bytes (MemTotal on Linux).
    pub total_ram_bytes: u64,
    pub largest_disk_bytes: u64,
    pub secure_boot: Option<bool>,
    pub virt: Option<String>,
    pub online: bool,
}

/// The largest size among the first `k` lines that parse as a `u64` once trimmed; 0 when none does.
pub open spec fn largest_size_upto(ls: Seq<Seq<char>>, k: int) -> u64
    decreases k,
{
    if k <= 0 {
        0
    } else {
        let prev = largest_size_upto(ls, k - 1);
        match parsed_u64(trimmed(ls[k - 1])) {
            Some(n) => if n > prev { n } else { prev },
            None => prev,
        }
    }
}

/// The largest disk size listed one per line (the output of `lsblk -b -d -n -o SIZE`).
pub open spec fn largest_size(output: Seq<char>) -> u64 {
    largest_size_upto(lines_of(output), lines_of(output).len() as int)
}

/// The largest whole-disk size in `lsblk -b -d -n -o SIZE` output; lines that
/// are not a number are skipped, and an output with none gives 0.
pub fn largest_disk_bytes(output: &str) -> (r: u64)
    ensures
        r == largest_size(output@),
{
    let ls = lines(output);
    let ghost lv = lines_of(output@);
    let mut best: u64 = 0;
    let mut i: usize = 0;
    assert(ls.deep_view().len() == ls@.len());
    while i < ls.len()
        invariant
            ls.deep_view() == lv,
            lv.len() == ls@.len(),
            i <= ls@.len(),
            best == largest_size_upto(lv, i as int),
        decreases ls@.len() - i,
    {
        assert(ls.deep_view()[i as int] == ls@[i as int]@);
        let t = trim(ls[i].as_str());
        match parse_u64(t.as_str()) {
            Some(n) => {
                if n > best {
                    best = n;
                }
            },
            None => {},
        }
        i = i + 1;
    }
    best
}

/// The Secure Boot state in the `SecureBoot` EFI variable: its fifth byte is 1 when enabled.
pub fn secure_boot_from_efivar(bytes: &Vec<u8>) -> (r: Option<bool>)
    ensures
        r == (if bytes@.len() > 4 { Some(bytes@[4] == 1) } else { None::<bool> }),
{
    if bytes.len() > 4 {
        Some(bytes[4] == 1)
    } else {
        None
    }
}

/// The virtualization kind `systemd-detect-virt` reported: only on success,
/// trimmed, and neither empty nor `none`.
pub open spec fn detected_virt(success: bool, stdout: Seq<char>) -> Option<Seq<char>> {
    if success && trimmed(stdout).len() > 0 && trimmed(stdout) != "none"@ {
        Some(trimmed(stdout))
    } else {
        None
    }
}

/// Interprets a run of `systemd-detect-virt`: exit status success and its output.
pub fn virt_from_output(success: bool, stdout: &str) -> (r: Option<String>)
    ensures
        r.deep_view() == detected_virt(success, stdout@),
{
    if !success {
        return None;
    }
    let kind = trim(stdout);
    if kind.as_str().unicode_len() == 0 || str_eq(kind.as_str(), "none") {
        None
    } else {
        Some(kind)
    }
}

impl SystemFacts {
    /// Facts from the machine's readings: usable RAM in bytes, the output of
    /// `lsblk -b -d -n -o SIZE` (`None` when it could not run), the bytes of
    /// the `SecureBoot` EFI variable (`None` when unreadable), and the exit
    /// status and output of `systemd-detect-virt` (`None` when it could not
    /// run). Unreadable facts get safe defaults; the machine counts as offline.
    pub fn gather(
        total_ram_bytes: u64,
        lsblk_sizes: Option<String>,
        secure_boot_var: Option<Vec<u8>>,
        detect_virt: Option<(bool, String)>,
    ) -> (f: SystemFacts)
        ensures
            f.efi_path@ == EFI_PATH@,
            f.total_ram_bytes == total_ram_bytes,
            f.largest_disk_bytes == match lsblk_sizes {
                Some(out) => largest_size(out@),
                None => 0,
            },
            f.secure_boot == match secure_boot_var {
                Some(b) => if b@.len() > 4 { Some(b@[4] == 1) } else { None::<bool> },
                None => None::<bool>,
            },
            f.virt.deep_view() == match detect_virt {
                Some((ok, out)) => detected_virt(ok, out@),
                None => None,
            },
            !f.online,
    {
        let largest = match &lsblk_sizes {
            Some(out) => largest_disk_bytes(out.as_str()),
            None => 0,
        };
        let secure_boot = match &secure_boot_var {
            Some(b) => secure_boot_from_efivar(b),
            None => None,
        };
        let virt = match &detect_virt {
            Some((ok, out)) => virt_from_output(*ok, out.as_str()),
            None => None,
        };
        SystemFacts {
            efi_path: to_owned_string(EFI_PATH),
            total_ram_bytes,
            largest_disk_bytes: largest,
            secure_boot,
            virt,
            online: false,
        }
    }
}

/// A whole disk available as an install target.
#[derive(Debug, Clone, PartialEq, Eq)]
pub struct DiskInfo {
    pub path: String,
    pub model: String,
    pub size_bytes: u64,
}

/// Mathematical model of a [`DiskInfo`].
pub struct DiskInfoView {
    pub path: Seq<char>,
    pub model: Seq<char>,
    pub size_bytes: u64,
}

impl View for DiskInfo {
    type V = DiskInfoView;

    open spec fn view(&self) -> DiskInfoView {
        DiskInfoView { path: self.path@, model: self.model@, size_bytes: self.size_bytes }
    }
}

/// A key of `lsblk -P` output as written before its value: trimmed, trailing `=` removed.
pub open spec fn lsblk_key(raw: Seq<char>) -> Seq<char> {
    trim_end_char(trimmed(raw), '=')
}

/// The value of `key` among the first `k` key/value pairs of the `'"'`-split
/// pieces of a line; a later pair overrides an earlier one.
pub open spec fn lsblk_field_upto(pieces: Seq<Seq<char>>, key: Seq<char>, k: int) -> Option<Seq<char>>
    decreases k,
{
    if k <= 0 {
        None
    } else if lsblk_key(pieces[2 * (k - 1)]) == key {
        Some(pieces[2 * (k - 1) + 1])
    } else {
        lsblk_field_upto(pieces, key, k - 1)
    }
}

/// The value of `key` in one `lsblk -P` line (`KEY="value" ...`).
pub open spec fn lsblk_field(line: Seq<char>, key: Seq<char>) -> Option<Seq<char>> {
    let pieces = split_on(line, '"');
    lsblk_field_upto(pieces, key, (pieces.len() / 2) as int)
}

/// Device names that are never install targets: zram, loop, ram disks,
/// optical and floppy drives, device-mapper and md devices.
pub open spec fn pseudo_device(name: Seq<char>) -> bool {
    ||| has_prefix(name, "zram"@)
    ||| has_prefix(name, "loop"@)
    ||| has_prefix(name, "ram"@)
    ||| has_prefix(name, "sr"@)
    ||| has_prefix(name, "fd"@)
    ||| has_prefix(name, "dm-"@)
    ||| has_prefix(name, "md"@)
}

/// The disk one `lsblk -b -d -n -P -o NAME,SIZE,MODEL,TYPE,RO` line describes,
/// or `None` when a field is missing or malformed, or the device is not a
/// writable, non-empty, real whole disk.
pub open spec fn lsblk_disk(line: Seq<char>) -> Option<DiskInfoView> {
    match (lsblk_field(line, "NAME"@), lsblk_field(line, "SIZE"@), lsblk_field(line, "TYPE"@), lsblk_field(line, "RO"@)) {
        (Some(name), Some(size_text), Some(kind), Some(ro)) => match parsed_u64(size_text) {
            Some(size) => {
                if kind != "disk"@ || ro != "0"@ || size == 0 || pseudo_device(name) {
                    None
                } else {
                    let model = match lsblk_field(line, "MODEL"@) {
                        Some(m) => trimmed(m),
                        None => Seq::empty(),
                    };
                    Some(DiskInfoView {
                        path: "/dev/"@ + name,
                        model: if model.len() == 0 { "Disk"@ } else { model },
                        size_bytes: size,
                    })
                }
            },
            None => None,
        },
        _ => None,
    }
}

fn field_value(keys: &Vec<String>, values: &Vec<String>, key: &str) -> (r: Option<String>)
    requires
        keys@.len() == values@.len(),
    ensures
        r.deep_view() == last_match(keys.deep_view(), values.deep_view(), key@, keys@.len() as int),
{
    let mut i: usize = keys.len();
    assert(keys.deep_view().len() == keys@.len());
    while i > 0
        invariant
            keys@.len() == values@.len(),
            i <= keys@.len(),
            last_match(keys.deep_view(), values.deep_view(), key@, keys@.len() as int)
                == last_match(keys.deep_view(), values.deep_view(), key@, i as int),
        decreases i,
    {
        assert(keys.deep_view()[i - 1] == keys@[i - 1]@);
        assert(values.deep_view()[i - 1] == values@[i - 1]@);
        if str_eq(keys[i - 1].as_str(), key) {
            return Some(to_owned_string(values[i - 1].as_str()));
        }
        i = i - 1;
    }
    None
}

/// The value paired with the last of the first `k` keys equal to `key`.
pub open spec fn last_match(keys: Seq<Seq<char>>, values: Seq<Seq<char>>, key: Seq<char>, k: int) -> Option<Seq<char>>
    decreases k,
{
    if k <= 0 {
        None
    } else if keys[k - 1] == key {
        Some(values[k - 1])
    } else {
        last_match(keys, values, key, k - 1)
    }
}

proof fn lemma_fields_agree(pieces: Seq<Seq<char>>, keys: Seq<Seq<char>>, values: Seq<Seq<char>>, key: Seq<char>, k: int)
    requires
        0 <= k <= keys.len(),
        keys.len() == values.len(),
        2 * keys.len() <= pieces.len(),
        forall|j: int| 0 <= j < keys.len() ==> keys[j] == lsblk_key(#[trigger] pieces[2 * j]),
        forall|j: int| 0 <= j < keys.len() ==> values[j] == #[trigger] pieces[2 * j + 1],
    ensures
        last_match(keys, values, key, k) == lsblk_field_upto(pieces, key, k),
    decreases k,
{
    if k > 0 {
        lemma_fields_agree(pieces, keys, values, key, k - 1);
        assert(keys[k - 1] == lsblk_key(pieces[2 * (k - 1)]));
        assert(values[k - 1] == pieces[2 * (k - 1) + 1]);
    }
}

fn is_pseudo_device(name: &str) -> (r: bool)
    ensures
        r == pseudo_device(name@),
{
    starts_with(name, "zram") || starts_with(name, "loop") || starts_with(name, "ram") || starts_with(name, "sr")
        || starts_with(name, "fd") || starts_with(name, "dm-") || starts_with(name, "md")
}

/// Parses one `lsblk -P` line into a `DiskInfo`, applying the install-target
/// filter. `None` for filtered-out or malformed lines.
pub fn parse_lsblk_line(line: &str) -> (r: Option<DiskInfo>)
    ensures
        match r {
            Some(d) => lsblk_disk(line@) == Some(d@),
            None => lsblk_disk(line@) is None,
        },
{
    let pieces = split_char(line, '"');
    let ghost pv = split_on(line@, '"');
    assert(pieces.deep_view().len() == pieces@.len());
    let npairs = pieces.len() / 2;
    let mut keys: Vec<String> = Vec::new();
    let mut values: Vec<String> = Vec::new();
    let mut j: usize = 0;
    while j < npairs
        invariant
            pieces.deep_view() == pv,
            pv.len() == pieces@.len(),
            npairs == pieces@.len() / 2,
            j <= npairs,
            keys@.len() == j,
            values@.len() == j,
            forall|m: int| 0 <= m < j ==> (#[trigger] keys@[m])@ == lsblk_key(pv[2 * m]),
            forall|m: int| 0 <= m < j ==> (#[trigger] values@[m])@ == pv[2 * m + 1],
        decreases npairs - j,
    {
        let len = pieces.len();
        assert(2 * j + 1 < pieces@.len()) by (nonlinear_arith)
            requires
                j < npairs,
                npairs == pieces@.len() / 2,
        ;
        assert(pieces.deep_view()[2 * j as int] == pieces@[2 * j as int]@);
        assert(pieces.deep_view()[2 * j + 1] == pieces@[2 * j + 1]@);
        let at: usize = 2 * j;
        let trimmed_key = trim(pieces[at].as_str());
        let key = trim_end_matches_char(trimmed_key.as_str(), '=');
        keys.push(key);
        values.push(to_owned_string(pieces[at + 1].as_str()));
        j = j + 1;
    }
    proof {
        assert forall|m: int| 0 <= m < keys.deep_view().len() implies keys.deep_view()[m] == lsblk_key(#[trigger] pv[2 * m]) by {
            assert(keys.deep_view()[m] == keys@[m]@);
        }
        assert forall|m: int| 0 <= m < values.deep_view().len() implies values.deep_view()[m] == #[trigger] pv[2 * m + 1] by {
            assert(values.deep_view()[m] == values@[m]@);
        }
        assert(keys.deep_view().len() == npairs);
        assert(values.deep_view().len() == npairs);
        lemma_fields_agree(pv, keys.deep_view(), values.deep_view(), "NAME"@, npairs as int);
        lemma_fields_agree(pv, keys.deep_view(), values.deep_view(), "SIZE"@, npairs as int);
        lemma_fields_agree(pv, keys.deep_view(), values.deep_view(), "TYPE"@, npairs as int);
        lemma_fields_agree(pv, keys.deep_view(), values.deep_view(), "RO"@, npairs as int);
        lemma_fields_agree(pv, keys.deep_view(), values.deep_view(), "MODEL"@, npairs as int);
    }
    let name = match field_value(&keys, &values, "NAME") {
        Some(n) => n,
        None => return None,
    };
    let size_text = match field_value(&keys, &values, "SIZE") {
        Some(s) => s,
        None => return None,
    };
    let size = match parse_u64(size_text.as_str()) {
        Some(n) => n,
        None => {
            proof {
                if lsblk_field(line@, "TYPE"@) is Some && lsblk_field(line@, "RO"@) is Some {
                }
            }
            return None;
        },
    };
    let kind = match field_value(&keys, &values, "TYPE") {
        Some(t) => t,
        None => return None,
    };
    let ro = match field_value(&keys, &values, "RO") {
        Some(t) => t,
        None => return None,
    };
    if !str_eq(kind.as_str(), "disk") || !str_eq(ro.as_str(), "0") || size == 0 || is_pseudo_device(name.as_str()) {
        return None;
    }
    let model = match field_value(&keys, &values, "MODEL") {
        Some(m) => trim(m.as_str()),
        None => String::new(),
    };
    let mut path = to_owned_string("/dev/");
    path.append(name.as_str());
    let model_text = if model.as_str().unicode_len() == 0 {
        to_owned_string("Disk")
    } else {
        model
    };
    Some(DiskInfo { path, model: model_text, size_bytes: size })
}

/// The disks `lsblk -P` lists, one per line, dropping lines that are not install targets.
pub open spec fn lsblk_disks_upto(ls: Seq<Seq<char>>, k: int) -> Seq<DiskInfoView>
    decreases k,
{
    if k <= 0 {
        Seq::empty()
    } else {
        let prev = lsblk_disks_upto(ls, k - 1);
        match lsblk_disk(ls[k - 1]) {
            Some(d) => prev.push(d),
            None => prev,
        }
    }
}

/// The install-target disks in the whole output of
/// `lsblk -b -d -n -P -o NAME,SIZE,MODEL,TYPE,RO`.
pub open spec fn lsblk_disks(output: Seq<char>) -> Seq<DiskInfoView> {
    lsblk_disks_upto(lines_of(output), lines_of(output).len() as int)
}

/// Candidate target disks in `lsblk -b -d -n -P -o NAME,SIZE,MODEL,TYPE,RO`
/// output: only writable whole disks, pseudo block devices left out.
pub fn disks_from_lsblk_output(output: &str) -> (disks: Vec<DiskInfo>)
    ensures
        disks@.map_values(|d: DiskInfo| d@) == lsblk_disks(output@),
{
    let ls = lines(output);
    let ghost lv = lines_of(output@);
    let mut disks: Vec<DiskInfo> = Vec::new();
    let mut i: usize = 0;
    assert(ls.deep_view().len() == ls@.len());
    while i < ls.len()
        invariant
            ls.deep_view() == lv,
            lv.len() == ls@.len(),
            i <= ls@.len(),
            disks@.map_values(|d: DiskInfo| d@) == lsblk_disks_upto(lv, i as int),
        decreases ls@.len() - i,
    {
        assert(ls.deep_view()[i as int] == ls@[i as int]@);
        match parse_lsblk_line(ls[i].as_str()) {
            Some(d) => {
                let ghost before = disks@.map_values(|d: DiskInfo| d@);
                disks.push(d);
                assert(disks@.map_values(|d: DiskInfo| d@) =~= before.push(d@));
            },
            None => {},
        }
        i = i + 1;
    }
    disks
}

} // verus!
