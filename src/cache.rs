//! The content cache's catalog: which remote paths have a local blob, and the
//! remote modification time each blob was downloaded at. Blobs and the
//! persisted catalog live on disk outside the library; the library decides
//! when a blob may be reused and how the catalog changes.

use vstd::prelude::*;
use crate::entry::FileSystemInfo;
use crate::utils::str_eq;

verus! {

/// The version of the persisted catalog's schema that this library writes.
pub const CACHE_SCHEMA_VERSION: u8 = 1;

/// What the catalog records of one cached path.
#[derive(Clone, Copy, Debug, PartialEq, Eq, Structural)]
pub struct CacheMeta {
    /// The remote modification time the blob was downloaded at.
    pub mtime: u64,
    /// The blob's size in bytes.
    pub size: u64,
    /// When the blob was last written, in seconds since the Unix epoch.
    pub last_access: u64,
}

/// One catalog record.
#[derive(Clone, Debug)]
pub struct CacheRecord {
    pub path: String,
    pub meta: CacheMeta,
}

/// The catalog that a sequence of records stands for; a later record of a
/// path supersedes an earlier one.
pub open spec fn catalog_of(records: Seq<CacheRecord>) -> Map<Seq<char>, CacheMeta>
    decreases records.len(),
{
    if records.len() == 0 {
        Map::empty()
    } else {
        catalog_of(records.drop_last()).insert(records.last().path@, records.last().meta)
    }
}

/// Whether the blob of `path` may be served: it exists on disk and the
/// catalog records it at the remote modification time `mtime`.
pub open spec fn cache_valid(catalog: Map<Seq<char>, CacheMeta>, path: Seq<char>, mtime: u64, blob_exists: bool) -> bool {
    blob_exists && catalog.contains_key(path) && catalog[path].mtime == mtime
}

/// The catalog record that downloading `info` at time `now` writes.
pub open spec fn download_meta(info: FileSystemInfo, now: u64) -> CacheMeta {
    CacheMeta { mtime: info.mtime.secs, size: info.size, last_access: now }
}

/// The directory under which the blobs of `hostname` are cached, inside the
/// user's cache directory `base`.
pub open spec fn cache_root_of(base: Seq<char>, hostname: Seq<char>) -> Seq<char> {
    base + "/Engineers for Exploration/synology-filestation-fuse/"@ + hostname
}

/// The directory under which the blobs of `hostname` are cached, inside the
/// user's cache directory `base`.
pub fn cache_root_for(base: &str, hostname: &str) -> (r: String)
    ensures
        r@ == cache_root_of(base@, hostname@),
{
    let mut p = String::from_str(base);
    p.append("/Engineers for Exploration/synology-filestation-fuse/");
    p.append(hostname);
    p
}

/// The schema version after the first migration has been applied to a
/// catalog at version `current`; a catalog that is already there stays.
pub fn schema_after_v1(current: u8) -> (r: u8)
    ensures
        r == if current >= 1 { current } else { 1u8 },
{
    if current >= 1 {
        current
    } else {
        1
    }
}

/// Whether a catalog at version `current` still needs the first migration
/// (creating the table of records).
pub fn needs_v1_migration(current: u8) -> (r: bool)
    ensures
        r == (current < 1),
{
    current < 1
}

/// The catalog of one host's content cache, rooted at a local directory.
pub struct FileCache {
    root: String,
    records: Vec<CacheRecord>,
}

impl FileCache {
    /// The local directory that holds this cache's blobs.
    pub closed spec fn root_dir(&self) -> Seq<char> {
        self.root@
    }

    /// The recorded metadata of each cached path.
    pub closed spec fn catalog(&self) -> Map<Seq<char>, CacheMeta> {
        catalog_of(self.records@)
    }

    /// An empty catalog for blobs under `root`.
    pub fn new(root: &str) -> (r: FileCache)
        ensures
            r.root_dir() == root@,
            r.catalog() == Map::<Seq<char>, CacheMeta>::empty(),
    {
        FileCache { root: String::from_str(root), records: Vec::new() }
    }

    /// The local directory that holds this cache's blobs.
    pub fn root(&self) -> (r: &str)
        ensures
            r@ == self.root_dir(),
    {
        self.root.as_str()
    }

    /// The catalog record of `path`, if any.
    pub fn lookup(&self, path: &str) -> (r: Option<CacheMeta>)
        ensures
            match r {
                Some(m) => self.catalog().contains_key(path@) && self.catalog()[path@] == m,
                None => !self.catalog().contains_key(path@),
            },
    {
        let mut i: usize = self.records.len();
        assert(self.records@.take(i as int) =~= self.records@);
        while i > 0
            invariant
                i <= self.records@.len(),
                catalog_of(self.records@.take(i as int)).contains_key(path@) == self.catalog().contains_key(path@),
                catalog_of(self.records@.take(i as int)).contains_key(path@) ==> catalog_of(self.records@.take(i as int))[path@] == self.catalog()[path@],
            decreases i,
        {
            assert(self.records@.take(i as int).drop_last() =~= self.records@.take(i as int - 1));
            if str_eq(self.records[i - 1].path.as_str(), path) {
                return Some(self.records[i - 1].meta);
            }
            i = i - 1;
        }
        assert(catalog_of(self.records@.take(0)) == Map::<Seq<char>, CacheMeta>::empty());
        None
    }

    /// Removes the record of `path`, if any.
    pub fn delete_cache_entry(&mut self, path: &str)
        ensures
            final(self).root_dir() == old(self).root_dir(),
            final(self).catalog() == old(self).catalog().remove(path@),
    {
        let ghost recs = self.records@;
        let mut kept: Vec<CacheRecord> = Vec::new();
        let mut i: usize = 0;
        while i < self.records.len()
            invariant
                recs == self.records@,
                i <= recs.len(),
                catalog_of(kept@) == catalog_of(recs.take(i as int)).remove(path@),
            decreases recs.len() - i,
        {
            assert(recs.take(i as int + 1).drop_last() =~= recs.take(i as int));
            let r = &self.records[i];
            if !str_eq(r.path.as_str(), path) {
                let ghost before = kept@;
                kept.push(CacheRecord { path: r.path.clone(), meta: r.meta });
                assert(kept@.drop_last() =~= before);
                assert(catalog_of(kept@) =~= catalog_of(recs.take(i as int + 1)).remove(path@));
            } else {
                assert(catalog_of(kept@) =~= catalog_of(recs.take(i as int + 1)).remove(path@));
            }
            i = i + 1;
        }
        assert(recs.take(recs.len() as int) =~= recs);
        self.records = kept;
    }

    /// Records `meta` for `path`, superseding any earlier record of it.
    pub fn restore_record(&mut self, path: &str, meta: CacheMeta)
        ensures
            final(self).root_dir() == old(self).root_dir(),
            final(self).catalog() == old(self).catalog().insert(path@, meta),
    {
        self.delete_cache_entry(path);
        let ghost before = self.records@;
        self.records.push(CacheRecord { path: String::from_str(path), meta });
        assert(self.records@.drop_last() =~= before);
        assert(self.catalog() =~= old(self).catalog().insert(path@, meta));
    }

    /// Whether the blob of `info` may be served (see [`cache_valid`]), given
    /// whether its blob file exists. A record that may not be served is
    /// purged, so that the next download replaces it.
    pub fn is_file_cached(&mut self, info: &FileSystemInfo, blob_exists: bool) -> (r: bool)
        ensures
            r == cache_valid(old(self).catalog(), info.path@, info.mtime.secs, blob_exists),
            final(self).root_dir() == old(self).root_dir(),
            final(self).catalog() == if r {
                old(self).catalog()
            } else {
                old(self).catalog().remove(info.path@)
            },
    {
        let found = self.lookup(info.path.as_str());
        match found {
            Some(m) => {
                if blob_exists && m.mtime == info.mtime.secs {
                    return true;
                }
            },
            None => {},
        }
        self.delete_cache_entry(info.path.as_str());
        false
    }

    /// Records the blob of `info`, fully written at time `now`, superseding
    /// any earlier record of its path.
    pub fn create_file_cache(&mut self, info: &FileSystemInfo, now: u64)
        ensures
            final(self).root_dir() == old(self).root_dir(),
            final(self).catalog() == old(self).catalog().insert(info.path@, download_meta(*info, now)),
    {
        self.restore_record(info.path.as_str(), CacheMeta { mtime: info.mtime.secs, size: info.size, last_access: now });
    }

    /// The local file to read `info` from, where its blob may be served (see
    /// [`is_file_cached`](FileCache::is_file_cached), whose purge this
    /// shares); `None` otherwise.
    pub fn get_file_cache(&mut self, info: &FileSystemInfo, blob_exists: bool) -> (r: Option<String>)
        ensures
            final(self).root_dir() == old(self).root_dir(),
            match r {
                Some(p) => cache_valid(old(self).catalog(), info.path@, info.mtime.secs, blob_exists)
                    && p@ == old(self).root_dir() + info.path@
                    && final(self).catalog() == old(self).catalog(),
                None => !cache_valid(old(self).catalog(), info.path@, info.mtime.secs, blob_exists)
                    && final(self).catalog() == old(self).catalog().remove(info.path@),
            },
    {
        if self.is_file_cached(info, blob_exists) {
            Some(self.get_cache_path(info))
        } else {
            None
        }
    }

    /// The local file that holds the blob of `info`: the remote path under
    /// the cache's root directory.
    pub fn get_cache_path(&self, info: &FileSystemInfo) -> (r: String)
        ensures
            r@ == self.root_dir() + info.path@,
    {
        let mut p = self.root.clone();
        p.append(info.path.as_str());
        p
    }
}

/// The bytes of `content` from `offset`, at most `length` of them: fewer
/// near the end, none from the end on.
pub open spec fn byte_range(content: Seq<u8>, offset: int, length: int) -> Seq<u8> {
    let start = if offset < content.len() { offset } else { content.len() as int };
    let end = if offset + length < content.len() { offset + length } else { content.len() as int };
    content.subrange(start, end)
}

/// The bytes of `content` from `offset`, at most `length` of them (see
/// [`byte_range`]).
pub fn read_range(content: &Vec<u8>, offset: u64, length: usize) -> (r: Vec<u8>)
    ensures
        r@ == byte_range(content@, offset as int, length as int),
{
    let n = content.len();
    let start: usize = if (offset as u128) < (n as u128) { offset as usize } else { n };
    let end: usize = if (start as u128) + (length as u128) < (n as u128) { start + length } else { n };
    let mut out: Vec<u8> = Vec::new();
    let mut i: usize = start;
    while i < end
        invariant
            start <= i <= end,
            end <= n,
            n == content@.len(),
            out@ == content@.subrange(start as int, i as int),
        decreases end - i,
    {
        out.push(content[i]);
        assert(content@.subrange(start as int, i as int + 1) =~= content@.subrange(start as int, i as int).push(content@[i as int]));
        i = i + 1;
    }
    out
}

/// Two reads that follow each other, `length1` bytes from `offset` and then
/// `length2` bytes from where the first ended, give together what one read of
/// both lengths gives: consecutive, non-overlapping ranges of one content.
pub proof fn lemma_consecutive_reads(content: Seq<u8>, offset: int, length1: int, length2: int)
    requires
        0 <= offset,
        0 <= length1,
        0 <= length2,
    ensures
        byte_range(content, offset, length1) + byte_range(content, offset + length1, length2)
            == byte_range(content, offset, length1 + length2),
{
    assert(byte_range(content, offset, length1) + byte_range(content, offset + length1, length2)
        =~= byte_range(content, offset, length1 + length2));
}

/// A blob recorded at one remote modification time is not served once the
/// remote file reports another: the check fails, so the file is downloaded
/// again.
pub proof fn lemma_stale_blob_refetched(
    catalog: Map<Seq<char>, CacheMeta>,
    info: FileSystemInfo,
    now: u64,
    new_mtime: u64,
    blob_exists: bool,
)
    requires
        new_mtime != info.mtime.secs,
    ensures
        !cache_valid(catalog.insert(info.path@, download_meta(info, now)), info.path@, new_mtime, blob_exists),
{
}

/// Right after a blob is downloaded and recorded, the same file at the same
/// modification time is served from the blob, without another download.
pub proof fn lemma_fresh_blob_served(catalog: Map<Seq<char>, CacheMeta>, info: FileSystemInfo, now: u64)
    ensures
        cache_valid(catalog.insert(info.path@, download_meta(info, now)), info.path@, info.mtime.secs, true),
{
}

} // verus!
