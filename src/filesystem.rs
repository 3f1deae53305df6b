//! The filesystem engine: metadata resolution over the three remote
//! addressing tiers, directory listing, and cursor-based enumeration.

use vstd::prelude::*;
use crate::entry::{has_times, is_file_entry, is_share_entry, FileSystemInfo};
use crate::error::FsError;
use crate::registry::{lemma_assign_round_trip, assign_spec, canonical, canonicalize, collapse_separators, path_of, paths_distinct, InodeRegistry};
use crate::cursor::{inos_of, lemma_cursor_visits_each_once, next_index, START_CURSOR};
use crate::cache::{cache_valid, download_meta, FileCache};
use crate::responses::{
    FileAdditional, FileStationItem, ListFilesResult, ListSharesResult, LoginResult, ShareAdditional, SynologyResult, Time,
};
use crate::memo::memo_hit;
use crate::station::{entry_url, base_url_of, login_outcome, FileStation};
use crate::utils::{epoch_from_seconds, str_eq};

verus! {

/// The identifier of the root, registered before any request is served.
pub const ROOT_INO: u64 = 1;

/// The permission bits reported for the root.
pub const ROOT_PERM: u16 = 0o755;

/// The three shapes of path that the remote service addresses differently.
#[derive(Clone, Copy, Debug, PartialEq, Eq, Structural)]
pub enum PathKind {
    /// The synthetic root `/`, which aggregates all shares.
    Root,
    /// A top-level share: a path with exactly one separator.
    Share,
    /// Anything below a share.
    Nested,
}

/// The number of separators in `s`.
pub open spec fn count_separators(s: Seq<char>) -> nat
    decreases s.len(),
{
    if s.len() == 0 {
        0
    } else {
        count_separators(s.drop_last()) + if s.last() == '/' { 1nat } else { 0nat }
    }
}

/// The tier that `s` belongs to.
pub open spec fn path_kind_of(s: Seq<char>) -> PathKind {
    kind_of_canonical(canonical(s))
}

/// The tier of the canonical path `s`.
pub open spec fn kind_of_canonical(s: Seq<char>) -> PathKind {
    if s == seq!['/'] {
        PathKind::Root
    } else if count_separators(s) == 1 {
        PathKind::Share
    } else {
        PathKind::Nested
    }
}

/// The tier that `path` belongs to, judged on its canonical form, which
/// decides what must be fetched to resolve it: the share list for the root
/// and for shares, the item's own metadata otherwise.
pub fn path_kind(path: &str) -> (r: PathKind)
    ensures
        r == path_kind_of(path@),
{
    let c = canonicalize(path);
    canonical_kind(c.as_str())
}

fn canonical_kind(path: &str) -> (r: PathKind)
    ensures
        r == kind_of_canonical(path@),
{
    let n = path.unicode_len();
    if n == 1 && path.get_char(0) == '/' {
        assert(path@ =~= seq!['/']);
        return PathKind::Root;
    }
    let mut count: usize = 0;
    let mut i: usize = 0;
    while i < n
        invariant
            n == path@.len(),
            i <= n,
            count == count_separators(path@.subrange(0, i as int)),
            count <= i,
        decreases n - i,
    {
        assert(path@.subrange(0, i as int + 1).drop_last() =~= path@.subrange(0, i as int));
        if path.get_char(i) == '/' {
            count = count + 1;
        }
        i = i + 1;
    }
    assert(path@.subrange(0, n as int) =~= path@);
    if count == 1 {
        PathKind::Share
    } else {
        PathKind::Nested
    }
}

/// The capacity and timestamps of the first share with the largest total
/// capacity, scanning in order; zero capacity and zero times when no share
/// has any capacity.
pub open spec fn root_pick(shares: Seq<FileStationItem<ShareAdditional>>) -> (u64, Time)
    decreases shares.len(),
{
    if shares.len() == 0 {
        (0, Time { atime: 0, mtime: 0, ctime: 0, crtime: 0 })
    } else {
        let (best, t) = root_pick(shares.drop_last());
        let s = shares.last();
        if best < s.additional.volume_status.totalspace {
            (s.additional.volume_status.totalspace, s.additional.time)
        } else {
            (best, t)
        }
    }
}

/// `e` is the root's record: identifier 1, path and name `/`, a directory of
/// size 0 with the default permission bits, timestamped like the share that
/// `root_pick` chooses.
pub open spec fn is_root_entry(e: FileSystemInfo, shares: Seq<FileStationItem<ShareAdditional>>) -> bool {
    &&& e.ino == ROOT_INO
    &&& e.path@ == seq!['/']
    &&& e.name@ == seq!['/']
    &&& e.is_dir
    &&& e.size == 0
    &&& e.perm == ROOT_PERM
    &&& has_times(e, root_pick(shares).1)
}

/// The root's record for the share list `shares`.
pub fn root_info(shares: &Vec<FileStationItem<ShareAdditional>>) -> (r: FileSystemInfo)
    ensures
        is_root_entry(r, shares@),
{
    let mut best: u64 = 0;
    let mut t = Time { atime: 0, mtime: 0, ctime: 0, crtime: 0 };
    let mut i: usize = 0;
    while i < shares.len()
        invariant
            i <= shares@.len(),
            (best, t) == root_pick(shares@.subrange(0, i as int)),
        decreases shares@.len() - i,
    {
        assert(shares@.subrange(0, i as int + 1).drop_last() =~= shares@.subrange(0, i as int));
        let share = &shares[i];
        if best < share.additional.volume_status.totalspace {
            best = share.additional.volume_status.totalspace;
            t = share.additional.time;
        }
        i = i + 1;
    }
    assert(shares@.subrange(0, shares@.len() as int) =~= shares@);
    let name = String::from_str("/");
    let path = String::from_str("/");
    proof {
        reveal_strlit("/");
    }
    assert(name@ =~= seq!['/']);
    assert(path@ =~= seq!['/']);
    FileSystemInfo {
        atime: epoch_from_seconds(t.atime),
        mtime: epoch_from_seconds(t.mtime),
        ctime: epoch_from_seconds(t.ctime),
        crtime: epoch_from_seconds(t.crtime),
        perm: ROOT_PERM,
        name,
        path,
        is_dir: true,
        size: 0,
        ino: ROOT_INO,
    }
}


/// What was fetched from the remote service for a resolution or a listing.
#[derive(Clone, Debug)]
pub enum Fetched {
    /// The list of all shares.
    Shares(ListSharesResult),
    /// The metadata of one item.
    Item(FileStationItem<FileAdditional>),
    /// The contents of one directory.
    Listing(ListFilesResult),
}

/// `i` is the first position in `shares` whose path is `path`.
pub open spec fn is_first_share_match(shares: Seq<FileStationItem<ShareAdditional>>, path: Seq<char>, i: int) -> bool {
    &&& 0 <= i < shares.len()
    &&& shares[i].path@ == path
    &&& forall|j: int| 0 <= j < i ==> shares[j].path@ != path
}

/// Some share in `shares` has path `path`.
pub open spec fn has_share(shares: Seq<FileStationItem<ShareAdditional>>, path: Seq<char>) -> bool {
    exists|i: int| 0 <= i < shares.len() && shares[i].path@ == path
}

/// The outcome of resolving `path` from `fetched`, on a registry that goes
/// from `before` to `after`.
pub open spec fn info_outcome(
    before: Seq<Seq<char>>,
    after: Seq<Seq<char>>,
    path: Seq<char>,
    fetched: Fetched,
    r: Result<FileSystemInfo, FsError>,
) -> bool {
    let (assigned, ino) = assign_spec(before, path);
    let c = canonical(path);
    match (path_kind_of(path), fetched) {
        (PathKind::Root, Fetched::Shares(l)) => after == before && match r {
            Ok(e) => is_root_entry(e, l.shares@),
            Err(_) => false,
        },
        (PathKind::Share, Fetched::Shares(l)) => if has_share(l.shares@, c) {
            after == assigned && match r {
                Ok(e) => exists|i: int| is_first_share_match(l.shares@, c, i) && is_share_entry(e, l.shares@[i], ino),
                Err(_) => false,
            }
        } else {
            after == before && r == Err::<FileSystemInfo, FsError>(FsError::NotFound)
        },
        (PathKind::Nested, Fetched::Item(item)) => after == assigned && match r {
            Ok(e) => is_file_entry(e, item, ino),
            Err(_) => false,
        },
        _ => after == before && r == Err::<FileSystemInfo, FsError>(FsError::ProtocolError),
    }
}

/// The registry after assigning each path of `ps` in turn.
pub open spec fn assign_all(reg: Seq<Seq<char>>, ps: Seq<Seq<char>>) -> Seq<Seq<char>>
    decreases ps.len(),
{
    if ps.len() == 0 {
        reg
    } else {
        assign_spec(assign_all(reg, ps.drop_last()), ps.last()).0
    }
}

/// The identifier that the `i`-th of `ps` receives when the paths of `ps`
/// are assigned in turn, starting from `reg`.
pub open spec fn ino_at(reg: Seq<Seq<char>>, ps: Seq<Seq<char>>, i: int) -> u64 {
    assign_spec(assign_all(reg, ps.take(i)), ps[i]).1
}

/// The paths of `shares`, in order.
pub open spec fn share_paths(shares: Seq<FileStationItem<ShareAdditional>>) -> Seq<Seq<char>> {
    shares.map_values(|s: FileStationItem<ShareAdditional>| s.path@)
}

/// The paths of `files`, in order.
pub open spec fn item_paths(files: Seq<FileStationItem<FileAdditional>>) -> Seq<Seq<char>> {
    files.map_values(|f: FileStationItem<FileAdditional>| f.path@)
}

/// The number of items in `fetched`.
pub open spec fn fetched_len(fetched: Fetched) -> nat {
    match fetched {
        Fetched::Shares(l) => l.shares@.len(),
        Fetched::Item(_) => 1,
        Fetched::Listing(l) => l.files@.len(),
    }
}

/// The outcome of listing `path` from `fetched`, on a registry that goes
/// from `before` to `after`: one record per share for the root, one per item
/// for any other directory, in the remote order, each item's path assigned
/// an identifier as it is produced.
pub open spec fn list_outcome(
    before: Seq<Seq<char>>,
    after: Seq<Seq<char>>,
    path: Seq<char>,
    fetched: Fetched,
    r: Result<Vec<FileSystemInfo>, FsError>,
) -> bool {
    match fetched {
        Fetched::Shares(l) if canonical(path) == seq!['/'] => {
            let ps = share_paths(l.shares@);
            &&& after == assign_all(before, ps)
            &&& match r {
                Ok(v) => v@.len() == l.shares@.len() && forall|k: int|
                    0 <= k < v@.len() ==> is_share_entry(#[trigger] v@[k], l.shares@[k], ino_at(before, ps, k)),
                Err(_) => false,
            }
        },
        Fetched::Listing(l) if canonical(path) != seq!['/'] => {
            let ps = item_paths(l.files@);
            &&& after == assign_all(before, ps)
            &&& match r {
                Ok(v) => v@.len() == l.files@.len() && forall|k: int|
                    0 <= k < v@.len() ==> is_file_entry(#[trigger] v@[k], l.files@[k], ino_at(before, ps, k)),
                Err(_) => false,
            }
        },
        _ => after == before && r == Err::<Vec<FileSystemInfo>, FsError>(FsError::ProtocolError),
    }
}

/// `a` is a prefix of `b`.
pub open spec fn is_prefix(a: Seq<Seq<char>>, b: Seq<Seq<char>>) -> bool {
    a.len() <= b.len() && forall|k: int| 0 <= k < a.len() ==> a[k] == b[k]
}

proof fn lemma_assign_all_grows(reg: Seq<Seq<char>>, ps: Seq<Seq<char>>)
    requires
        paths_distinct(reg),
    ensures
        paths_distinct(assign_all(reg, ps)),
        is_prefix(reg, assign_all(reg, ps)),
        assign_all(reg, ps).len() <= reg.len() + ps.len(),
        forall|k: int| 0 <= k < ps.len() ==> assign_all(reg, ps).contains(canonical(#[trigger] ps[k])),
    decreases ps.len(),
{
    if ps.len() > 0 {
        let prev = assign_all(reg, ps.drop_last());
        lemma_assign_all_grows(reg, ps.drop_last());
        let c = canonical(ps.last());
        let next = assign_spec(prev, ps.last()).0;
        if !prev.contains(c) {
            assert(next[prev.len() as int] == c);
        } else {
            let j = choose|j: int| 0 <= j < prev.len() && prev[j] == c;
        }
        assert(next.contains(c));
        assert forall|k: int| 0 <= k < ps.len() implies next.contains(canonical(#[trigger] ps[k])) by {
            if k < ps.len() - 1 {
                assert(ps.drop_last()[k] == ps[k]);
                let j = choose|j: int| 0 <= j < prev.len() && prev[j] == canonical(ps.drop_last()[k]);
                assert(next[j] == prev[j]);
            }
        }
    }
}

proof fn lemma_assign_all_prefix_of_whole(reg: Seq<Seq<char>>, ps: Seq<Seq<char>>, i: int)
    requires
        paths_distinct(reg),
        0 <= i <= ps.len(),
    ensures
        is_prefix(assign_all(reg, ps.take(i)), assign_all(reg, ps)),
    decreases ps.len(),
{
    if i < ps.len() {
        assert(ps.drop_last().take(i) =~= ps.take(i));
        lemma_assign_all_prefix_of_whole(reg, ps.drop_last(), i);
        lemma_assign_all_grows(reg, ps.drop_last());
    } else {
        assert(ps.take(i) =~= ps);
    }
}

proof fn lemma_assign_all_known(reg: Seq<Seq<char>>, ps: Seq<Seq<char>>)
    requires
        forall|k: int| 0 <= k < ps.len() ==> reg.contains(canonical(#[trigger] ps[k])),
    ensures
        assign_all(reg, ps) == reg,
    decreases ps.len(),
{
    if ps.len() > 0 {
        assert forall|k: int| 0 <= k < ps.drop_last().len() implies reg.contains(
            canonical(#[trigger] ps.drop_last()[k]),
        ) by {
            assert(ps.drop_last()[k] == ps[k]);
        }
        lemma_assign_all_known(reg, ps.drop_last());
        assert(reg.contains(canonical(ps[ps.len() - 1])));
    }
}

/// Listing the same paths a second time leaves the registry as the first
/// listing left it, and hands each path the identifier it received the
/// first time; so the root's listing keeps its identifiers while the shares
/// do not change.
pub proof fn lemma_listing_stable(reg: Seq<Seq<char>>, ps: Seq<Seq<char>>)
    requires
        paths_distinct(reg),
        reg.len() + ps.len() < u64::MAX,
    ensures
        ({
            let after = assign_all(reg, ps);
            &&& assign_all(after, ps) == after
            &&& forall|i: int| 0 <= i < ps.len() ==> #[trigger] ino_at(after, ps, i) == ino_at(reg, ps, i)
        }),
{
    let after = assign_all(reg, ps);
    lemma_assign_all_grows(reg, ps);
    lemma_assign_all_known(after, ps);
    assert forall|i: int| 0 <= i < ps.len() implies #[trigger] ino_at(after, ps, i) == ino_at(reg, ps, i) by {
        let before_i = assign_all(reg, ps.take(i));
        lemma_assign_all_grows(reg, ps.take(i));
        lemma_assign_all_prefix_of_whole(reg, ps, i);
        lemma_assign_all_prefix_of_whole(reg, ps, i + 1);
        assert(ps.take(i + 1).drop_last() =~= ps.take(i));
        assert(ps.take(i + 1).last() == ps[i]);
        let (next, ino) = assign_spec(before_i, ps[i]);
        assert(next == assign_all(reg, ps.take(i + 1)));
        lemma_assign_round_trip(before_i, ps[i]);
        let c = canonical(ps[i]);
        assert(next[ino - 1] == c);
        assert(after[ino - 1] == c);
        assert forall|k: int| 0 <= k < ps.take(i).len() implies after.contains(canonical(#[trigger] ps.take(i)[k])) by {
            assert(ps.take(i)[k] == ps[k]);
        }
        lemma_assign_all_known(after, ps.take(i));
        assert(after.contains(c));
        let j = choose|j: int| 0 <= j < after.len() && after[j] == c;
        assert(j == ino - 1);
    }
}

/// The paths of the items in `fetched`, in order.
pub open spec fn fetched_paths(fetched: Fetched) -> Seq<Seq<char>> {
    match fetched {
        Fetched::Shares(l) => share_paths(l.shares@),
        Fetched::Item(_) => Seq::empty(),
        Fetched::Listing(l) => item_paths(l.files@),
    }
}

proof fn lemma_ino_at_maps_back(reg: Seq<Seq<char>>, ps: Seq<Seq<char>>, k: int)
    requires
        paths_distinct(reg),
        reg.len() + ps.len() < u64::MAX,
        0 <= k < ps.len(),
    ensures
        path_of(assign_all(reg, ps), ino_at(reg, ps, k)) == Some(canonical(ps[k])),
{
    let before_k = assign_all(reg, ps.take(k));
    lemma_assign_all_grows(reg, ps.take(k));
    lemma_assign_all_prefix_of_whole(reg, ps, k + 1);
    assert(ps.take(k + 1).drop_last() =~= ps.take(k));
    assert(ps.take(k + 1).last() == ps[k]);
    let (next, ino) = assign_spec(before_k, ps[k]);
    assert(next == assign_all(reg, ps.take(k + 1)));
    lemma_assign_round_trip(before_k, ps[k]);
}

/// The identifier in a resolved record is never 0, and stands for the
/// canonical form of the resolved path in the registry that resolution
/// leaves.
pub proof fn lemma_resolved_ino_maps_back(
    before: Seq<Seq<char>>,
    after: Seq<Seq<char>>,
    path: Seq<char>,
    fetched: Fetched,
    e: FileSystemInfo,
)
    requires
        paths_distinct(before),
        before.len() < u64::MAX,
        before.len() >= 1,
        before[0] == seq!['/'],
        info_outcome(before, after, path, fetched, Ok(e)),
    ensures
        e.ino != 0,
        path_of(after, e.ino) == Some(canonical(path)),
{
    if path_kind_of(path) != PathKind::Root {
        lemma_assign_round_trip(before, path);
    }
}

/// Every record of a listing carries a nonzero identifier that stands for
/// the canonical form of its item's path in the registry that the listing
/// leaves.
pub proof fn lemma_listed_inos_map_back(
    before: Seq<Seq<char>>,
    after: Seq<Seq<char>>,
    path: Seq<char>,
    fetched: Fetched,
    v: Vec<FileSystemInfo>,
)
    requires
        paths_distinct(before),
        before.len() + fetched_len(fetched) < u64::MAX,
        list_outcome(before, after, path, fetched, Ok(v)),
    ensures
        v@.len() == fetched_paths(fetched).len(),
        forall|k: int|
            0 <= k < v@.len() ==> (#[trigger] v@[k]).ino != 0 && path_of(after, v@[k].ino) == Some(
                canonical(fetched_paths(fetched)[k]),
            ),
{
    let ps = fetched_paths(fetched);
    assert forall|k: int| 0 <= k < v@.len() implies (#[trigger] v@[k]).ino != 0 && path_of(after, v@[k].ino)
        == Some(canonical(ps[k])) by {
        lemma_ino_at_maps_back(before, ps, k);
        match fetched {
            Fetched::Shares(l) => {
                assert(is_share_entry(v@[k], l.shares@[k], ino_at(before, ps, k)));
            },
            Fetched::Listing(l) => {
                assert(is_file_entry(v@[k], l.files@[k], ino_at(before, ps, k)));
            },
            Fetched::Item(_) => {},
        }
    }
}

/// Where the items of a listing have distinct canonical paths, the
/// listing's records have distinct nonzero identifiers, so enumerating it
/// from the start cursor yields each record once, in order, and then the
/// exhausted signal.
pub proof fn lemma_listing_enumerates_once(
    before: Seq<Seq<char>>,
    after: Seq<Seq<char>>,
    path: Seq<char>,
    fetched: Fetched,
    v: Vec<FileSystemInfo>,
)
    requires
        paths_distinct(before),
        before.len() + fetched_len(fetched) < u64::MAX,
        list_outcome(before, after, path, fetched, Ok(v)),
        forall|i: int, j: int|
            0 <= i < j < fetched_paths(fetched).len() ==> canonical(fetched_paths(fetched)[i]) != canonical(
                fetched_paths(fetched)[j],
            ),
    ensures
        next_index(inos_of(v@), START_CURSOR) == (if v@.len() > 0 { Some(0int) } else { None }),
        forall|i: int|
            0 <= i < v@.len() ==> next_index(inos_of(v@), #[trigger] v@[i].ino) == (if i + 1 < v@.len() {
                Some(i + 1)
            } else {
                None
            }),
{
    lemma_listed_inos_map_back(before, after, path, fetched, v);
    let inos = inos_of(v@);
    let ps = fetched_paths(fetched);
    assert forall|i: int, j: int| 0 <= i < j < inos.len() implies inos[i] != inos[j] by {
        assert(path_of(after, v@[i].ino) == Some(canonical(ps[i])));
        assert(path_of(after, v@[j].ino) == Some(canonical(ps[j])));
    }
    assert forall|i: int| 0 <= i < inos.len() implies inos[i] != START_CURSOR by {
        assert(v@[i].ino != 0);
    }
    lemma_cursor_visits_each_once(inos);
    assert forall|i: int| 0 <= i < v@.len() implies next_index(inos, #[trigger] v@[i].ino) == (if i + 1 < v@.len() {
        Some(i + 1)
    } else {
        None
    }) by {
        assert(inos[i] == v@[i].ino);
    }
}

proof fn lemma_canonical_root()
    ensures
        canonical(seq!['/']) == seq!['/'],
{
    assert(seq!['/'].drop_last() =~= Seq::<char>::empty());
    assert(collapse_separators(Seq::<char>::empty()) == Seq::<char>::empty());
    assert(collapse_separators(seq!['/']) =~= seq!['/']);
}

/// Listing the root twice while the shares do not change gives one
/// directory record of size 0 per share each time, with the same identifier
/// for each share both times, and the second listing registers nothing new.
pub proof fn lemma_root_listing_repeatable(
    reg0: Seq<Seq<char>>,
    reg1: Seq<Seq<char>>,
    reg2: Seq<Seq<char>>,
    shares: ListSharesResult,
    v1: Vec<FileSystemInfo>,
    v2: Vec<FileSystemInfo>,
)
    requires
        paths_distinct(reg0),
        reg0.len() + shares.shares@.len() < u64::MAX,
        list_outcome(reg0, reg1, seq!['/'], Fetched::Shares(shares), Ok(v1)),
        list_outcome(reg1, reg2, seq!['/'], Fetched::Shares(shares), Ok(v2)),
    ensures
        reg2 == reg1,
        v1@.len() == shares.shares@.len(),
        v2@.len() == shares.shares@.len(),
        forall|k: int|
            0 <= k < v1@.len() ==> {
                &&& (#[trigger] v1@[k]).ino == v2@[k].ino
                &&& v1@[k].is_dir && v1@[k].size == 0
                &&& v2@[k].is_dir && v2@[k].size == 0
            },
{
    lemma_canonical_root();
    let ps = share_paths(shares.shares@);
    lemma_listing_stable(reg0, ps);
    assert forall|k: int| 0 <= k < v1@.len() implies {
        &&& (#[trigger] v1@[k]).ino == v2@[k].ino
        &&& v1@[k].is_dir && v1@[k].size == 0
        &&& v2@[k].is_dir && v2@[k].size == 0
    } by {
        assert(is_share_entry(v1@[k], shares.shares@[k], ino_at(reg0, ps, k)));
        assert(is_share_entry(v2@[k], shares.shares@[k], ino_at(reg1, ps, k)));
        assert(ino_at(reg1, ps, k) == ino_at(reg0, ps, k));
    }
}

/// Right after construction, identifier 1 stands for `/`, and resolving
/// that path from any share list gives the root's record, with path `/` and
/// identifier 1.
pub proof fn lemma_root_resolves_first(shares: ListSharesResult, after: Seq<Seq<char>>, r: Result<FileSystemInfo, FsError>)
    requires
        info_outcome(seq![seq!['/']], after, seq!['/'], Fetched::Shares(shares), r),
    ensures
        path_of(seq![seq!['/']], ROOT_INO) == Some(seq!['/']),
        r is Ok,
        r->Ok_0.path@ == seq!['/'],
        r->Ok_0.ino == ROOT_INO,
        after == seq![seq!['/']],
{
    lemma_canonical_root();
    assert(path_kind_of(seq!['/']) == PathKind::Root);
}

/// The metadata engine of one mounted volume: it owns the inode registry and
/// turns what the remote service answers into filesystem records.
pub struct FileStationFileSystem {
    filestation: FileStation,
    registry: InodeRegistry,
    file_cache: FileCache,
}

/// How a read proceeds once the file's metadata is known.
#[derive(Clone, Copy, Debug, PartialEq, Eq, Structural)]
pub enum ReadAction {
    /// The cached blob is valid: read from it.
    ServeCached,
    /// Download the whole file, write a fresh blob, record it, then read.
    Download,
}

/// How long, in seconds, the gateway reuses an answer to a read-only call.
pub const MEMO_LIFETIME_SECS: u64 = 5;

impl FileStationFileSystem {
    /// The registered paths; identifier `i + 1` stands for the `i`-th.
    pub closed spec fn inodes(&self) -> Seq<Seq<char>> {
        self.registry@
    }

    /// The gateway's state.
    pub closed spec fn station(&self) -> FileStation {
        self.filestation
    }

    /// The content cache's state.
    pub closed spec fn cache(&self) -> FileCache {
        self.file_cache
    }

    /// Paths are registered once, and the root holds identifier 1.
    pub open spec fn wf(&self) -> bool {
        &&& paths_distinct(self.inodes())
        &&& self.inodes().len() >= 1
        &&& self.inodes()[0] == seq!['/']
    }

    /// An engine for `hostname` on `port` (over HTTPS where `secured`) with
    /// the content cache `file_cache`, no session yet, and a registry that
    /// holds the root alone.
    pub fn new(hostname: &str, port: u16, secured: bool, file_cache: FileCache) -> (r: FileStationFileSystem)
        ensures
            r.wf(),
            r.inodes() == seq![seq!['/']],
            r.station().host() == hostname@,
            r.station().base() == base_url_of(hostname@, port, secured),
            r.station().lifetime() == MEMO_LIFETIME_SECS,
            r.station().session() is None,
            r.station().memo() == Map::<Seq<char>, (u64, Seq<char>)>::empty(),
            r.cache() == file_cache,
    {
        let mut registry = InodeRegistry::new();
        let root_ino = registry.assign("/");
        proof {
            reveal_strlit("/");
            assert("/"@ =~= seq!['/']);
            assert(seq!['/'].drop_last() =~= Seq::<char>::empty());
            assert(collapse_separators(Seq::<char>::empty()) == Seq::<char>::empty());
            assert(collapse_separators(seq!['/']) =~= seq!['/']);
            assert(canonical(seq!['/']) =~= seq!['/']);
            assert(registry@ =~= seq![seq!['/']]);
            assert(root_ino == ROOT_INO);
        }
        FileStationFileSystem {
            filestation: FileStation::new(hostname, port, secured, MEMO_LIFETIME_SECS),
            registry,
            file_cache,
        }
    }

    /// The number of registered paths.
    pub fn inode_count(&self) -> (r: usize)
        ensures
            r == self.inodes().len(),
    {
        self.registry.len()
    }

    /// The gateway.
    pub fn filestation(&self) -> (r: &FileStation)
        ensures
            *r == self.station(),
    {
        &self.filestation
    }

    /// The content cache.
    pub fn file_cache(&self) -> (r: &FileCache)
        ensures
            *r == self.cache(),
    {
        &self.file_cache
    }

    /// Opens the session that a login answer carries (see
    /// [`FileStation::login`]).
    pub fn login(&mut self, status: u16, answer: Option<SynologyResult<LoginResult>>) -> (r: Result<(), FsError>)
        requires
            old(self).wf(),
        ensures
            final(self).wf(),
            final(self).inodes() == old(self).inodes(),
            final(self).cache() == old(self).cache(),
            final(self).station().host() == old(self).station().host(),
            final(self).station().base() == old(self).station().base(),
            final(self).station().lifetime() == old(self).station().lifetime(),
            match login_outcome(status, answer) {
                Ok(sid) => r is Ok && final(self).station().session() == Some(sid),
                Err(e) => r == Err::<(), FsError>(e) && final(self).station().session() == old(self).station().session(),
            },
    {
        self.filestation.login(status, answer)
    }

    /// The URL that ends the session, which is closed for good (see
    /// [`FileStation::logout`]).
    pub fn logout(&mut self) -> (r: Result<String, FsError>)
        requires
            old(self).wf(),
        ensures
            final(self).wf(),
            final(self).inodes() == old(self).inodes(),
            final(self).cache() == old(self).cache(),
            final(self).station().host() == old(self).station().host(),
            final(self).station().base() == old(self).station().base(),
            final(self).station().lifetime() == old(self).station().lifetime(),
            final(self).station().memo() == old(self).station().memo(),
            final(self).station().session() is None,
            match old(self).station().session() {
                Some(sid) => r is Ok && r->Ok_0@ == entry_url(
                    old(self).station().base(),
                    "SYNO.API.Auth"@,
                    1,
                    "logout"@,
                    sid,
                    seq![("session"@, "FileStation"@)],
                ),
                None => r == Err::<String, FsError>(FsError::Unauthorized),
            },
    {
        self.filestation.logout()
    }

    /// Decides how a read of a file proceeds, from the outcome of resolving
    /// its metadata and whether its blob file exists. A failed resolution is
    /// returned as it is. Otherwise the blob is served where the catalog
    /// records it at the file's current modification time and it exists;
    /// else the file must be downloaded. The catalog is left as it is: a
    /// stale record stays until [`finish_download`](Self::finish_download)
    /// replaces it, so that a failed download leaves the earlier state.
    pub fn read_bytes(&self, resolved: &Result<FileSystemInfo, FsError>, blob_exists: bool) -> (r: Result<ReadAction, FsError>)
        ensures
            match *resolved {
                Err(e) => r == Err::<ReadAction, FsError>(e),
                Ok(info) => r == Ok::<ReadAction, FsError>(
                    if cache_valid(self.cache().catalog(), info.path@, info.mtime.secs, blob_exists) {
                        ReadAction::ServeCached
                    } else {
                        ReadAction::Download
                    },
                ),
            },
    {
        match resolved {
            Err(e) => Err(*e),
            Ok(info) => {
                let valid = match self.file_cache.lookup(info.path.as_str()) {
                    Some(m) => blob_exists && m.mtime == info.mtime.secs,
                    None => false,
                };
                if valid {
                    Ok(ReadAction::ServeCached)
                } else {
                    Ok(ReadAction::Download)
                }
            },
        }
    }

    /// Records the blob of `info`, fully written at time `now`, once its
    /// download is complete.
    pub fn finish_download(&mut self, info: &FileSystemInfo, now: u64)
        requires
            old(self).wf(),
        ensures
            final(self).wf(),
            final(self).inodes() == old(self).inodes(),
            final(self).station() == old(self).station(),
            final(self).cache().root_dir() == old(self).cache().root_dir(),
            final(self).cache().catalog() == old(self).cache().catalog().insert(info.path@, download_meta(*info, now)),
    {
        self.file_cache.create_file_cache(info, now);
    }

    /// The gateway's memoized answer to `url` at time `now` (see
    /// [`FileStation::cached_answer`]).
    pub fn cached_answer(&mut self, url: &str, now: u64, allow_cache: bool) -> (r: Option<String>)
        requires
            old(self).wf(),
        ensures
            final(self).wf(),
            final(self).inodes() == old(self).inodes(),
            final(self).cache() == old(self).cache(),
            final(self).station().session() == old(self).station().session(),
            final(self).station().base() == old(self).station().base(),
            final(self).station().lifetime() == old(self).station().lifetime(),
            !allow_cache ==> r is None && final(self).station().memo() == old(self).station().memo(),
            allow_cache ==> if memo_hit(old(self).station().memo(), url@, now, old(self).station().lifetime()) {
                r is Some && r->Some_0@ == old(self).station().memo()[url@].1
                    && final(self).station().memo() == old(self).station().memo()
            } else {
                r is None && final(self).station().memo() == old(self).station().memo().remove(url@)
            },
    {
        self.filestation.cached_answer(url, now, allow_cache)
    }

    /// Remembers `body` as the gateway's answer to `url`, fetched at `now`.
    pub fn remember(&mut self, url: &str, now: u64, body: &str)
        requires
            old(self).wf(),
        ensures
            final(self).wf(),
            final(self).inodes() == old(self).inodes(),
            final(self).cache() == old(self).cache(),
            final(self).station().session() == old(self).station().session(),
            final(self).station().base() == old(self).station().base(),
            final(self).station().lifetime() == old(self).station().lifetime(),
            final(self).station().memo() == old(self).station().memo().insert(url@, (now, body@)),
    {
        self.filestation.remember(url, now, body)
    }

    /// The local file that holds the blob of `info`.
    pub fn cache_path(&self, info: &FileSystemInfo) -> (r: String)
        ensures
            r@ == self.cache().root_dir() + info.path@,
    {
        self.file_cache.get_cache_path(info)
    }

    /// The record of `path`, from what was fetched for its tier (see
    /// [`path_kind`]): the root's record from the share list; a share's record
    /// from the first share whose path is the canonical form of `path`, or
    /// `NotFound`; any other item's
    /// record from its own metadata. The path is assigned an identifier,
    /// except for the root, which holds identifier 1. A fetch of the wrong
    /// shape is a protocol error.
    pub fn get_info(&mut self, path: &str, fetched: &Fetched) -> (r: Result<FileSystemInfo, FsError>)
        requires
            old(self).wf(),
            old(self).inodes().len() < usize::MAX,
        ensures
            final(self).wf(),
            info_outcome(old(self).inodes(), final(self).inodes(), path@, *fetched, r),
            final(self).station() == old(self).station(),
            final(self).cache() == old(self).cache(),
    {
        let c = canonicalize(path);
        let kind = canonical_kind(c.as_str());
        match (kind, fetched) {
            (PathKind::Root, Fetched::Shares(l)) => Ok(root_info(&l.shares)),
            (PathKind::Share, Fetched::Shares(l)) => {
                let mut i: usize = 0;
                while i < l.shares.len()
                    invariant
                        i <= l.shares@.len(),
                        *self == *old(self),
                        self.wf(),
                        self.inodes().len() < usize::MAX,
                        c@ == canonical(path@),
                        kind == path_kind_of(path@),
                        kind == PathKind::Share,
                        *fetched == Fetched::Shares(*l),
                        forall|j: int| 0 <= j < i ==> l.shares@[j].path@ != c@,
                    decreases l.shares@.len() - i,
                {
                    if str_eq(l.shares[i].path.as_str(), c.as_str()) {
                        let ino = self.registry.assign(path);
                        assert(self.inodes()[0] == old(self).inodes()[0]);
                        let e = FileSystemInfo::from_share(&l.shares[i], ino);
                        assert(is_first_share_match(l.shares@, c@, i as int));
                        assert(has_share(l.shares@, c@));
                        assert(is_share_entry(e, l.shares@[i as int], assign_spec(old(self).inodes(), path@).1));
                        return Ok(e);
                    }
                    i = i + 1;
                }
                Err(FsError::NotFound)
            },
            (PathKind::Nested, Fetched::Item(item)) => {
                let ino = self.registry.assign(path);
                assert(self.inodes()[0] == old(self).inodes()[0]);
                Ok(FileSystemInfo::from_item(item, ino))
            },
            _ => Err(FsError::ProtocolError),
        }
    }

    /// The records of the listing of `path`: the shares for the root, the
    /// directory's items otherwise, in the order fetched, each path assigned
    /// an identifier in turn. A fetch of the wrong shape is a protocol error.
    pub fn list_files(&mut self, path: &str, fetched: &Fetched) -> (r: Result<Vec<FileSystemInfo>, FsError>)
        requires
            old(self).wf(),
            old(self).inodes().len() + fetched_len(*fetched) < usize::MAX,
        ensures
            final(self).wf(),
            list_outcome(old(self).inodes(), final(self).inodes(), path@, *fetched, r),
            final(self).station() == old(self).station(),
            final(self).cache() == old(self).cache(),
    {
        let c = canonicalize(path);
        let is_root = c.as_str().unicode_len() == 1 && c.as_str().get_char(0) == '/';
        proof {
            if c@ == seq!['/'] {
                assert(is_root);
            }
            if is_root {
                assert(c@ =~= seq!['/']);
            }
        }
        match fetched {
            Fetched::Shares(l) => {
                if is_root {
                    Ok(self.share_entries(&l.shares))
                } else {
                    Err(FsError::ProtocolError)
                }
            },
            Fetched::Listing(l) => {
                if !is_root {
                    Ok(self.item_entries(&l.files))
                } else {
                    Err(FsError::ProtocolError)
                }
            },
            Fetched::Item(_) => Err(FsError::ProtocolError),
        }
    }

    fn share_entries(&mut self, shares: &Vec<FileStationItem<ShareAdditional>>) -> (r: Vec<FileSystemInfo>)
        requires
            old(self).wf(),
            old(self).inodes().len() + shares@.len() < usize::MAX,
        ensures
            final(self).wf(),
            final(self).inodes() == assign_all(old(self).inodes(), share_paths(shares@)),
            final(self).station() == old(self).station(),
            final(self).cache() == old(self).cache(),
            r@.len() == shares@.len(),
            forall|k: int|
                0 <= k < r@.len() ==> is_share_entry(
                    #[trigger] r@[k],
                    shares@[k],
                    ino_at(old(self).inodes(), share_paths(shares@), k),
                ),
    {
        let ghost before = self.inodes();
        let ghost ps = share_paths(shares@);
        let mut out: Vec<FileSystemInfo> = Vec::new();
        let mut i: usize = 0;
        while i < shares.len()
            invariant
                i <= shares@.len(),
                before == old(self).inodes(),
                self.station() == old(self).station(),
                self.cache() == old(self).cache(),
                ps == share_paths(shares@),
                self.wf(),
                self.inodes().len() <= before.len() + i,
                before.len() + shares@.len() < usize::MAX,
                self.inodes() == assign_all(before, ps.take(i as int)),
                out@.len() == i,
                forall|k: int|
                    0 <= k < i ==> is_share_entry(#[trigger] out@[k], shares@[k], ino_at(before, ps, k)),
            decreases shares@.len() - i,
        {
            let ghost prev = self.inodes();
            assert(ps.take(i as int + 1).drop_last() =~= ps.take(i as int));
            let ino = self.registry.assign(shares[i].path.as_str());
            assert(self.inodes()[0] == prev[0]);
            assert(ino == ino_at(before, ps, i as int));
            out.push(FileSystemInfo::from_share(&shares[i], ino));
            i = i + 1;
        }
        assert(ps.take(shares@.len() as int) =~= ps);
        out
    }

    fn item_entries(&mut self, files: &Vec<FileStationItem<FileAdditional>>) -> (r: Vec<FileSystemInfo>)
        requires
            old(self).wf(),
            old(self).inodes().len() + files@.len() < usize::MAX,
        ensures
            final(self).wf(),
            final(self).inodes() == assign_all(old(self).inodes(), item_paths(files@)),
            final(self).station() == old(self).station(),
            final(self).cache() == old(self).cache(),
            r@.len() == files@.len(),
            forall|k: int|
                0 <= k < r@.len() ==> is_file_entry(
                    #[trigger] r@[k],
                    files@[k],
                    ino_at(old(self).inodes(), item_paths(files@), k),
                ),
    {
        let ghost before = self.inodes();
        let ghost ps = item_paths(files@);
        let mut out: Vec<FileSystemInfo> = Vec::new();
        let mut i: usize = 0;
        while i < files.len()
            invariant
                i <= files@.len(),
                before == old(self).inodes(),
                self.station() == old(self).station(),
                self.cache() == old(self).cache(),
                ps == item_paths(files@),
                self.wf(),
                self.inodes().len() <= before.len() + i,
                before.len() + files@.len() < usize::MAX,
                self.inodes() == assign_all(before, ps.take(i as int)),
                out@.len() == i,
                forall|k: int|
                    0 <= k < i ==> is_file_entry(#[trigger] out@[k], files@[k], ino_at(before, ps, k)),
            decreases files@.len() - i,
        {
            let ghost prev = self.inodes();
            assert(ps.take(i as int + 1).drop_last() =~= ps.take(i as int));
            let ino = self.registry.assign(files[i].path.as_str());
            assert(self.inodes()[0] == prev[0]);
            assert(ino == ino_at(before, ps, i as int));
            out.push(FileSystemInfo::from_item(&files[i], ino));
            i = i + 1;
        }
        assert(ps.take(files@.len() as int) =~= ps);
        out
    }

    /// The path that `ino` stands for. An identifier that was never handed
    /// out is an internal inconsistency: every identifier that the engine
    /// surfaces is registered.
    pub fn get_path_for_ino(&self, ino: u64) -> (r: Result<String, FsError>)
        ensures
            match r {
                Ok(p) => path_of(self.inodes(), ino) == Some(p@),
                Err(e) => path_of(self.inodes(), ino) is None && e == FsError::InternalInconsistency,
            },
    {
        match self.registry.path_for(ino) {
            Some(p) => Ok(p),
            None => Err(FsError::InternalInconsistency),
        }
    }
}


} // verus!
