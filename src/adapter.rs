//! Conversions that every platform adapter needs between its own calling
//! conventions and the engine's paths and records.

use vstd::prelude::*;
use crate::utils::str_eq;
use crate::registry::{canonical, canonicalize};
use crate::responses::{FileStationItem, ShareAdditional};

verus! {

/// The path of the entry `name` inside the directory `parent`.
pub open spec fn child_path_of(parent: Seq<char>, name: Seq<char>) -> Seq<char> {
    canonical(parent + seq!['/'] + name)
}

/// The canonical path of the entry `name` inside the directory `parent`.
pub fn child_path(parent: &str, name: &str) -> (r: String)
    ensures
        r@ == child_path_of(parent@, name@),
{
    let mut joined = String::from_str(parent);
    joined.append("/");
    joined.append(name);
    proof {
        reveal_strlit("/");
        assert("/"@ =~= seq!['/']);
    }
    canonicalize(joined.as_str())
}

/// The number of blocks of `block_size` bytes that `size` bytes occupy.
pub fn size_to_blocks(size: u64, block_size: u32) -> (r: u64)
    requires
        block_size > 0,
    ensures
        r as int == (size as int + block_size as int - 1) / block_size as int,
{
    let b = block_size as u64;
    let q = size / b;
    let extra: u64 = if size % b == 0 { 0 } else { 1 };
    proof {
        let s = size as int;
        let bi = b as int;
        assert(s == bi * (s / bi) + s % bi) by (nonlinear_arith)
            requires bi > 0;
        assert((s + bi - 1) / bi == s / bi + (if s % bi == 0 { 0int } else { 1int })) by (nonlinear_arith)
            requires bi > 0, s >= 0, s == bi * (s / bi) + s % bi, 0 <= s % bi < bi;
        if s % bi != 0 {
            assert(bi >= 2);
            assert(s / bi < s) by (nonlinear_arith)
                requires bi >= 2, s > 0;
        }
    }
    q + extra
}

/// The capacity and free space of the first share with the largest total
/// capacity, scanning in order; zeros when no share has any capacity.
pub open spec fn disk_space_of(shares: Seq<FileStationItem<ShareAdditional>>) -> (u64, u64)
    decreases shares.len(),
{
    if shares.len() == 0 {
        (0, 0)
    } else {
        let (total, free) = disk_space_of(shares.drop_last());
        let v = shares.last().additional.volume_status;
        if total < v.totalspace {
            (v.totalspace, v.freespace)
        } else {
            (total, free)
        }
    }
}

/// The volume's size and free space as reported to the platform: those of
/// the largest share (see [`disk_space_of`]).
pub fn disk_free_space(shares: &Vec<FileStationItem<ShareAdditional>>) -> (r: (u64, u64))
    ensures
        r == disk_space_of(shares@),
{
    let mut total: u64 = 0;
    let mut free: u64 = 0;
    let mut i: usize = 0;
    while i < shares.len()
        invariant
            i <= shares@.len(),
            (total, free) == disk_space_of(shares@.subrange(0, i as int)),
        decreases shares@.len() - i,
    {
        assert(shares@.subrange(0, i as int + 1).drop_last() =~= shares@.subrange(0, i as int));
        let v = shares[i].additional.volume_status;
        if total < v.totalspace {
            total = v.totalspace;
            free = v.freespace;
        }
        i = i + 1;
    }
    assert(shares@.subrange(0, shares@.len() as int) =~= shares@);
    (total, free)
}

/// `s` with every backslash turned into a forward slash.
pub open spec fn slashes_of(s: Seq<char>) -> Seq<char> {
    s.map_values(|c: char| if c == '\\' { '/' } else { c })
}

/// A platform path written with backslashes, as a remote path.
pub fn to_remote_path(name: &str) -> (r: String)
    ensures
        r@ == slashes_of(name@),
{
    let n = name.unicode_len();
    let mut out = String::new();
    let mut i: usize = 0;
    while i < n
        invariant
            n == name@.len(),
            i <= n,
            out@ == slashes_of(name@.subrange(0, i as int)),
        decreases n - i,
    {
        let c = name.get_char(i);
        if c == '\\' {
            out.append("/");
        } else {
            out.append(name.substring_char(i, i + 1));
        }
        proof {
            reveal_strlit("/");
            assert(name@.subrange(i as int, i as int + 1) =~= seq![c]);
            assert(slashes_of(name@.subrange(0, i as int + 1)) =~= slashes_of(name@.subrange(0, i as int)).push(
                if c == '\\' { '/' } else { c },
            ));
        }
        i = i + 1;
    }
    assert(name@.subrange(0, n as int) =~= name@);
    out
}

/// The lower-case form of `s`.
pub uninterp spec fn lower_of(s: Seq<char>) -> Seq<char>;

/// Relies on str::to_lowercase: the lower-case form depends on the
/// characters alone.
#[verifier::external_body]
fn lowercase(s: &str) -> (r: String)
    ensures
        r@ == lower_of(s@),
{
    s.to_lowercase()
}

/// `needle` occurs in `hay` at position `i`.
pub open spec fn occurs_at(hay: Seq<char>, needle: Seq<char>, i: int) -> bool {
    0 <= i && i + needle.len() <= hay.len() && hay.subrange(i, i + needle.len()) == needle
}

/// `needle` occurs somewhere in `hay`.
pub open spec fn contains_seq(hay: Seq<char>, needle: Seq<char>) -> bool {
    exists|i: int| occurs_at(hay, needle, i)
}

/// Whether `needle` occurs in `hay`.
pub fn contains_str(hay: &str, needle: &str) -> (r: bool)
    ensures
        r == contains_seq(hay@, needle@),
{
    let n = hay.unicode_len();
    let m = needle.unicode_len();
    if m > n {
        assert forall|i: int| !occurs_at(hay@, needle@, i) by {}
        return false;
    }
    if m == 0 {
        assert(hay@.subrange(0, 0) =~= needle@);
        assert(occurs_at(hay@, needle@, 0));
        return true;
    }
    let mut i: usize = 0;
    while i <= n - m
        invariant
            n == hay@.len(),
            m == needle@.len(),
            1 <= m <= n,
            i <= n - m + 1,
            forall|k: int| 0 <= k < i ==> !occurs_at(hay@, needle@, k),
        decreases n - m + 1 - i,
    {
        let part = hay.substring_char(i, i + m);
        if str_eq(part, needle) {
            assert(occurs_at(hay@, needle@, i as int));
            return true;
        }
        i = i + 1;
    }
    assert forall|i: int| !occurs_at(hay@, needle@, i) by {}
    false
}

/// Whether a platform path whose lower-case form is `lowered` names one of
/// the files that the Windows shell probes for in every folder
/// (`desktop.ini` in any case, or `\\AutoRun.inf`), which the volume reports
/// as absent.
pub fn is_shell_probe_lowered(lowered: &str, name: &str) -> (r: bool)
    ensures
        r == (contains_seq(lowered@, "desktop.ini"@) || name@ == "\\AutoRun.inf"@),
{
    contains_str(lowered, "desktop.ini") || str_eq(name, "\\AutoRun.inf")
}

/// Whether the platform path `name` names a file that the Windows shell
/// probes for (see [`is_shell_probe_lowered`]).
pub fn is_shell_probe(name: &str) -> (r: bool)
    ensures
        r == (contains_seq(lower_of(name@), "desktop.ini"@) || name@ == "\\AutoRun.inf"@),
{
    let lowered = lowercase(name);
    is_shell_probe_lowered(lowered.as_str(), name)
}

} // verus!
