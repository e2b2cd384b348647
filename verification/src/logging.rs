//! Where the install log goes: a file named after the moment the install
//! started, in the system's temporary directory.

use vstd::prelude::*;
use crate::text::{decimal, to_owned_string, u64_to_string};

verus! {

/// The install log's file name for an install started `stamp` seconds after
/// the Unix epoch: `sirius-install-<stamp>.log`.
pub open spec fn log_file_text(stamp: u64) -> Seq<char> {
    "sirius-install-"@ + decimal(stamp as nat) + ".log"@
}

/// `name` placed in directory `dir` as `Path::join` places a relative name:
/// appended directly to an empty directory or one ending in `/`, after a
/// `/` otherwise.
pub open spec fn joined_path(dir: Seq<char>, name: Seq<char>) -> Seq<char> {
    if dir.len() == 0 || dir.last() == '/' {
        dir + name
    } else {
        dir + "/"@ + name
    }
}

/// The install log's file name for an install started at Unix time `stamp`.
pub fn log_file_name(stamp: u64) -> (s: String)
    ensures
        s@ == log_file_text(stamp),
{
    let mut s = to_owned_string("sirius-install-");
    let digits = u64_to_string(stamp);
    s.append(digits.as_str());
    s.append(".log");
    s
}

/// The install log's path: `sirius-install-<stamp>.log` in `tmp_dir`.
pub fn log_path(tmp_dir: &str, stamp: u64) -> (s: String)
    ensures
        s@ == joined_path(tmp_dir@, log_file_text(stamp)),
{
    let name = log_file_name(stamp);
    let mut s = to_owned_string(tmp_dir);
    let n = tmp_dir.unicode_len();
    if n != 0 && tmp_dir.get_char(n - 1) != '/' {
        s.append("/");
    }
    s.append(name.as_str());
    s
}

} // verus!
