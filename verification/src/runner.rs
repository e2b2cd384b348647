//! Decisions around the privileged installer process: which target disks it
//! accepts, how its progress and failures are worded, and which of its
//! error lines are kept for the failure message.

use vstd::prelude::*;
use crate::i18n::gettext;
use crate::storage::{disks_view, find_disk, find_disk_upto, DiskSnapshot};
use crate::text::{
    decimal, i32_to_string, replace, replace_all, signed_decimal, split_char, split_on, str_eq,
    to_owned_string, u64_to_string,
};

verus! {

/// Upper bound for the request JSON read from stdin; anything larger is garbage.
pub const MAX_REQUEST_BYTES: u64 = 1048576;

/// How many trailing stderr lines of the runner are kept for the failure message.
pub const STDERR_TAIL: usize = 20;

/// The pieces of a path that name something: empty pieces (repeated or
/// trailing separators) and `.` are dropped, as std's `Path::components`
/// does after the root.
pub open spec fn named_parts_upto(pieces: Seq<Seq<char>>, k: int) -> Seq<Seq<char>>
    decreases k,
{
    if k <= 0 {
        Seq::empty()
    } else {
        let prev = named_parts_upto(pieces, k - 1);
        let p = pieces[k - 1];
        if p.len() == 0 || p == "."@ {
            prev
        } else {
            prev.push(p)
        }
    }
}

/// The named components of `path`.
pub open spec fn named_parts(path: Seq<char>) -> Seq<Seq<char>> {
    let pieces = split_on(path, '/');
    named_parts_upto(pieces, pieces.len() as int)
}

/// An absolute path under `/dev` with no `..` component.
pub open spec fn dev_path_ok(path: Seq<char>) -> bool {
    &&& path.len() > 0
    &&& path[0] == '/'
    &&& named_parts(path).len() > 0
    &&& named_parts(path)[0] == "dev"@
    &&& !named_parts(path).contains(".."@)
}

/// Accepts only absolute paths under `/dev`; rejects anything else and path
/// tricks such as `/dev/../etc/passwd`. The message is the translated
/// "target disk must be an absolute /dev path" with the path filled in.
pub fn validate_target_path(path: &str) -> (r: Result<(), String>)
    ensures
        r is Ok <==> dev_path_ok(path@),
{
    let pieces = split_char(path, '/');
    let ghost pv = split_on(path@, '/');
    assert(pieces.deep_view().len() == pieces@.len());
    let mut parts: Vec<String> = Vec::new();
    let mut i: usize = 0;
    while i < pieces.len()
        invariant
            pieces.deep_view() == pv,
            pv.len() == pieces@.len(),
            i <= pieces@.len(),
            parts.deep_view() == named_parts_upto(pv, i as int),
        decreases pieces@.len() - i,
    {
        assert(pieces.deep_view()[i as int] == pieces@[i as int]@);
        let p = pieces[i].as_str();
        if !(p.unicode_len() == 0 || str_eq(p, ".")) {
            let ghost before = parts.deep_view();
            parts.push(to_owned_string(p));
            assert(parts.deep_view() =~= before.push(pv[i as int]));
        }
        i = i + 1;
    }
    let ghost nv = parts.deep_view();
    assert(nv.len() == parts@.len());
    let absolute = path.unicode_len() > 0 && path.get_char(0) == '/';
    let mut ok = absolute && parts.len() > 0 && str_eq(parts[0].as_str(), "dev");
    if parts.len() > 0 {
        assert(nv[0] == parts@[0]@);
    }
    let mut j: usize = 0;
    while j < parts.len()
        invariant
            nv == parts.deep_view(),
            nv.len() == parts@.len(),
            j <= parts@.len(),
            ok ==> forall|m: int| 0 <= m < j ==> nv[m] != ".."@,
            ok ==> absolute && nv.len() > 0 && nv[0] == "dev"@,
            !ok ==> !(absolute && nv.len() > 0 && nv[0] == "dev"@ && !nv.contains(".."@)),
        decreases parts@.len() - j,
    {
        assert(nv[j as int] == parts@[j as int]@);
        if str_eq(parts[j].as_str(), "..") {
            ok = false;
        }
        j = j + 1;
    }
    if ok {
        Ok(())
    } else {
        proof {
            reveal_strlit("target disk must be an absolute /dev path: {path}");
            reveal_strlit("{path}");
        }
        let template = gettext("target disk must be an absolute /dev path: {path}");
        Err(replace(template.as_str(), "{path}", path))
    }
}

/// The live target must be one of the supported whole disks found, and must
/// have nothing mounted. The messages are translated, with the path filled in.
pub fn check_target_disk(path: &str, disks: &Vec<DiskSnapshot>) -> (r: Result<(), String>)
    ensures
        r is Ok <==> (find_disk_upto(disks_view(disks@), path@, disks@.len() as int) matches Some(d) && !d.in_use),
{
    proof {
        reveal_strlit("{path}");
        reveal_strlit("target is not a supported whole disk: {path}");
        reveal_strlit("target disk has mounted filesystems; unmount them before installing: {path}");
    }
    match find_disk(disks, path) {
        None => {
            let template = gettext("target is not a supported whole disk: {path}");
            Err(replace(template.as_str(), "{path}", path))
        },
        Some(disk) => {
            if disk.in_use {
                let template = gettext("target disk has mounted filesystems; unmount them before installing: {path}");
                Err(replace(template.as_str(), "{path}", path))
            } else {
                Ok(())
            }
        },
    }
}

/// The explanation of a runner exit status. pkexec reserves 126 (the
/// authorization dialog was dismissed) and 127 (not authorized, no polkit
/// agent, or the program could not run).
pub open spec fn exit_explanation(code: Option<i32>, via_pkexec: bool) -> Seq<char> {
    match code {
        Some(c) => if c == 126 && via_pkexec {
            "authorization dialog was dismissed (pkexec exit 126)"@
        } else if c == 127 && via_pkexec {
            "polkit authorization failed (pkexec exit 127) \u{2014} is a polkit authentication agent running in this session?"@
        } else {
            "installer exited with status "@ + signed_decimal(c as int)
        },
        None => "installer was killed by a signal"@,
    }
}

/// Human explanation for a runner exit status (`None`: killed by a signal).
pub fn explain_exit(code: Option<i32>, via_pkexec: bool) -> (s: String)
    ensures
        s@ == exit_explanation(code, via_pkexec),
{
    match code {
        Some(126) if via_pkexec => to_owned_string("authorization dialog was dismissed (pkexec exit 126)"),
        Some(127) if via_pkexec => to_owned_string(
            "polkit authorization failed (pkexec exit 127) \u{2014} is a polkit authentication agent running in this session?",
        ),
        Some(c) => {
            let mut s = to_owned_string("installer exited with status ");
            let n = i32_to_string(c);
            s.append(n.as_str());
            s
        },
        None => to_owned_string("installer was killed by a signal"),
    }
}

/// The tail after one more line: the line is appended, and the oldest line
/// dropped when the tail was full.
pub open spec fn tail_after(tail: Seq<Seq<char>>, line: Seq<char>, cap: nat) -> Seq<Seq<char>> {
    if tail.len() >= cap {
        tail.drop_first().push(line)
    } else {
        tail.push(line)
    }
}

/// The tail kept after the first `k` lines, starting from nothing.
pub open spec fn tail_of(lines: Seq<Seq<char>>, cap: nat, k: int) -> Seq<Seq<char>>
    decreases k,
{
    if k <= 0 {
        Seq::empty()
    } else {
        tail_after(tail_of(lines, cap, k - 1), lines[k - 1], cap)
    }
}

/// Record one more stderr line, keeping at most `cap` of the latest.
pub fn keep_tail(tail: &mut Vec<String>, line: String, cap: usize)
    requires
        cap > 0,
        old(tail)@.len() <= cap,
    ensures
        final(tail).deep_view() == tail_after(old(tail).deep_view(), line@, cap as nat),
        final(tail)@.len() <= cap,
{
    let ghost before = tail.deep_view();
    if tail.len() == cap {
        tail.remove(0);
        assert(tail.deep_view() =~= before.drop_first());
    }
    let ghost mid = tail.deep_view();
    tail.push(line);
    assert(tail.deep_view() =~= mid.push(line@));
}

/// Lines joined with `'\n'` between them.
pub open spec fn joined_lines(lines: Seq<Seq<char>>) -> Seq<char>
    decreases lines.len(),
{
    if lines.len() == 0 {
        Seq::empty()
    } else if lines.len() == 1 {
        lines[0]
    } else {
        joined_lines(lines.drop_last()) + "\n"@ + lines.last()
    }
}

/// The failure message: the exit explanation, then the kept stderr lines under a marker.
pub open spec fn failure_text(code: Option<i32>, via_pkexec: bool, tail: Seq<Seq<char>>) -> Seq<char> {
    if tail.len() == 0 {
        exit_explanation(code, via_pkexec)
    } else {
        exit_explanation(code, via_pkexec) + "\n--- stderr ---\n"@ + joined_lines(tail)
    }
}

/// The message reported when the runner exits unsuccessfully.
pub fn failure_message(code: Option<i32>, via_pkexec: bool, tail: &Vec<String>) -> (s: String)
    ensures
        s@ == failure_text(code, via_pkexec, tail.deep_view()),
{
    let mut message = explain_exit(code, via_pkexec);
    if tail.len() == 0 {
        assert(tail.deep_view().len() == 0);
        return message;
    }
    let ghost tv = tail.deep_view();
    assert(tv.len() == tail@.len());
    message.append("\n--- stderr ---\n");
    let ghost head = message@;
    assert(tv[0] == tail@[0]@);
    message.append(tail[0].as_str());
    assert(tv.subrange(0, 1).drop_last() =~= Seq::<Seq<char>>::empty());
    assert(message@ =~= head + joined_lines(tv.subrange(0, 1)));
    let mut i: usize = 1;
    while i < tail.len()
        invariant
            tv == tail.deep_view(),
            tv.len() == tail@.len(),
            1 <= i <= tail@.len(),
            message@ == head + joined_lines(tv.subrange(0, i as int)),
        decreases tail@.len() - i,
    {
        assert(tv[i as int] == tail@[i as int]@);
        assert(tv.subrange(0, i + 1).drop_last() =~= tv.subrange(0, i as int));
        assert(tv.subrange(0, i + 1).last() == tv[i as int]);
        message.append("\n");
        message.append(tail[i].as_str());
        assert(message@ =~= head + joined_lines(tv.subrange(0, i + 1)));
        i = i + 1;
    }
    assert(tv.subrange(0, tv.len() as int) =~= tv);
    message
}

/// A post-install step's progress line: `{name}`, `{index}` and `{total}`
/// replaced in the template.
pub open spec fn post_module_text(template: Seq<char>, name: Seq<char>, index: u64, total: u64) -> Seq<char> {
    replace_all(
        replace_all(replace_all(template, "{name}"@, name), "{index}"@, decimal(index as nat)),
        "{total}"@,
        decimal(total as nat),
    )
}

/// Fills a post-install progress template.
pub fn fill_post_module(template: &str, name: &str, index: u64, total: u64) -> (s: String)
    ensures
        s@ == post_module_text(template@, name@, index, total),
{
    proof {
        reveal_strlit("{name}");
        reveal_strlit("{index}");
        reveal_strlit("{total}");
    }
    let a = replace(template, "{name}", name);
    let i = u64_to_string(index);
    let b = replace(a.as_str(), "{index}", i.as_str());
    let t = u64_to_string(total);
    replace(b.as_str(), "{total}", t.as_str())
}

/// The translated progress line for post-install step `index` of `total`, named `name`:
/// the current locale's template for "post-install: {name} ({index}/{total})",
/// with `{name}`, `{index}` and `{total}` filled in.
pub fn post_module_message(name: &str, index: u64, total: u64) -> (s: String)
    ensures
        exists|template: Seq<char>| s@ == #[trigger] post_module_text(template, name@, index, total),
{
    proof {
        reveal_strlit("post-install: {name} ({index}/{total})");
    }
    let template = gettext("post-install: {name} ({index}/{total})");
    let s = fill_post_module(template.as_str(), name, index, total);
    assert(s@ == post_module_text(template@, name@, index, total));
    s
}

/// The kept tail is exactly the latest lines: after any number of lines it
/// holds the last `cap` of them (all of them while there are fewer), in order.
pub proof fn law_tail_keeps_latest_lines(lines: Seq<Seq<char>>, cap: nat, k: int)
    requires
        cap > 0,
        0 <= k <= lines.len(),
    ensures
        tail_of(lines, cap, k) == lines.subrange(if k > cap { k - cap } else { 0 }, k),
    decreases k,
{
    if k > 0 {
        law_tail_keeps_latest_lines(lines, cap, k - 1);
        let prev_start: int = if k - 1 > cap { k - 1 - cap } else { 0 };
        let start: int = if k > cap { k - cap } else { 0 };
        let prev = lines.subrange(prev_start, k - 1);
        if prev.len() >= cap {
            assert(prev.drop_first().push(lines[k - 1]) =~= lines.subrange(start, k));
        } else {
            assert(prev.push(lines[k - 1]) =~= lines.subrange(start, k));
        }
    }
}

} // verus!
