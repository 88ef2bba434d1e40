//! Where artifacts are pinned: one directory per device and object under the
//! HID root of the BPF filesystem.

use crate::text::chars_of;
use vstd::prelude::*;
use vstd::string::StringExecFns;

verus! {

broadcast use vstd::string::group_string_axioms;

/// The character that stands for `c` in a path component: `:` and `.` become `_`.
pub open spec fn sanitized_char(c: char) -> char {
    if c == ':' || c == '.' {
        '_'
    } else {
        c
    }
}

/// `s` with every `:` and every `.` replaced by `_`.
pub open spec fn sanitized(s: Seq<char>) -> Seq<char> {
    s.map_values(|c: char| sanitized_char(c))
}

/// `dir` and `name` joined by one `/`.
pub open spec fn joined(dir: Seq<char>, name: Seq<char>) -> Seq<char> {
    dir + seq!['/'] + name
}

/// The directory of one object on one device:
/// `/sys/fs/bpf/hid/<sanitized sysname>/<sanitized object>`.
pub open spec fn bpffs_path(sysname: Seq<char>, object: Seq<char>) -> Seq<char> {
    joined(joined("/sys/fs/bpf/hid"@, sanitized(sysname)), sanitized(object))
}

/// Replaces every `:` and every `.` of `s` by `_`.
pub fn sanitize(s: &str) -> (out: String)
    ensures
        out@ == sanitized(s@),
{
    let chars = chars_of(s);
    let mut out = String::new();
    let mut i: usize = 0;
    while i < chars.len()
        invariant
            i <= chars.len(),
            out@ == sanitized(chars@.take(i as int)),
        decreases chars.len() - i,
    {
        let c = chars[i];
        if c == ':' || c == '.' {
            out.push('_');
        } else {
            out.push(c);
        }
        assert(chars@.take(i + 1).drop_last() =~= chars@.take(i as int));
        assert(sanitized(chars@.take(i + 1)) =~= sanitized(chars@.take(i as int)).push(
            sanitized_char(c),
        ));
        i += 1;
    }
    assert(chars@.take(i as int) =~= chars@);
    out
}

/// Joins `dir` and `name` with one `/`.
pub fn join(dir: &str, name: &str) -> (out: String)
    ensures
        out@ == joined(dir@, name@),
{
    proof {
        reveal_strlit("/");
    }
    let mut out = String::from_str(dir);
    out.append("/");
    out.append(name);
    assert("/"@ =~= seq!['/']);
    out
}

/// The directory under which everything of `object` is pinned for the device
/// `sysname`.
pub fn get_bpffs_path(sysname: &str, object: &str) -> (path: String)
    ensures
        path@ == bpffs_path(sysname@, object@),
{
    let device = sanitize(sysname);
    let unit = sanitize(object);
    let device_dir = join("/sys/fs/bpf/hid", device.as_str());
    join(device_dir.as_str(), unit.as_str())
}

} // verus!
