//! The metadata record that every resolution produces.

use vstd::prelude::*;
use crate::responses::{FileAdditional, FileStationItem, ShareAdditional, Time};
use crate::utils::{epoch_from_seconds, Timestamp};

verus! {

/// The metadata of one file, directory, share or of the root.
#[derive(Clone, Debug)]
pub struct FileSystemInfo {
    pub atime: Timestamp,
    pub mtime: Timestamp,
    pub ctime: Timestamp,
    pub crtime: Timestamp,
    pub perm: u16,
    pub name: String,
    pub path: String,
    pub is_dir: bool,
    pub size: u64,
    pub ino: u64,
}

/// The four timestamps of `e` are those of `t`.
pub open spec fn has_times(e: FileSystemInfo, t: Time) -> bool {
    &&& e.atime.secs == t.atime
    &&& e.mtime.secs == t.mtime
    &&& e.ctime.secs == t.ctime
    &&& e.crtime.secs == t.crtime
}

/// `e` describes `share` under identifier `ino`: a directory of size 0 with
/// the share's name, path, timestamps and permission bits.
pub open spec fn is_share_entry(e: FileSystemInfo, share: FileStationItem<ShareAdditional>, ino: u64) -> bool {
    &&& e.ino == ino
    &&& e.name@ == share.name@
    &&& e.path@ == share.path@
    &&& e.is_dir
    &&& e.size == 0
    &&& e.perm == share.additional.perm.posix
    &&& has_times(e, share.additional.time)
}

/// `e` describes `item` under identifier `ino`; a directory has size 0.
pub open spec fn is_file_entry(e: FileSystemInfo, item: FileStationItem<FileAdditional>, ino: u64) -> bool {
    &&& e.ino == ino
    &&& e.name@ == item.name@
    &&& e.path@ == item.path@
    &&& e.is_dir == item.isdir
    &&& e.size == (if item.isdir { 0 } else { item.additional.size })
    &&& e.perm == item.additional.perm.posix
    &&& has_times(e, item.additional.time)
}

/// `a` and `b` hold the same metadata.
pub open spec fn same_entry(a: FileSystemInfo, b: FileSystemInfo) -> bool {
    &&& a.atime == b.atime
    &&& a.mtime == b.mtime
    &&& a.ctime == b.ctime
    &&& a.crtime == b.crtime
    &&& a.perm == b.perm
    &&& a.name@ == b.name@
    &&& a.path@ == b.path@
    &&& a.is_dir == b.is_dir
    &&& a.size == b.size
    &&& a.ino == b.ino
}

impl FileSystemInfo {
    /// A copy of this record.
    pub fn duplicate(&self) -> (r: FileSystemInfo)
        ensures
            same_entry(r, *self),
    {
        FileSystemInfo {
            atime: self.atime,
            mtime: self.mtime,
            ctime: self.ctime,
            crtime: self.crtime,
            perm: self.perm,
            name: self.name.clone(),
            path: self.path.clone(),
            is_dir: self.is_dir,
            size: self.size,
            ino: self.ino,
        }
    }

    /// The record of `share` under identifier `ino`.
    pub fn from_share(share: &FileStationItem<ShareAdditional>, ino: u64) -> (r: FileSystemInfo)
        ensures
            is_share_entry(r, *share, ino),
    {
        let t = share.additional.time;
        FileSystemInfo {
            atime: epoch_from_seconds(t.atime),
            mtime: epoch_from_seconds(t.mtime),
            ctime: epoch_from_seconds(t.ctime),
            crtime: epoch_from_seconds(t.crtime),
            perm: share.additional.perm.posix,
            name: share.name.clone(),
            path: share.path.clone(),
            is_dir: true,
            size: 0,
            ino,
        }
    }

    /// The record of `item` under identifier `ino`.
    pub fn from_item(item: &FileStationItem<FileAdditional>, ino: u64) -> (r: FileSystemInfo)
        ensures
            is_file_entry(r, *item, ino),
    {
        let t = item.additional.time;
        let size: u64 = if item.isdir { 0 } else { item.additional.size };
        FileSystemInfo {
            atime: epoch_from_seconds(t.atime),
            mtime: epoch_from_seconds(t.mtime),
            ctime: epoch_from_seconds(t.ctime),
            crtime: epoch_from_seconds(t.crtime),
            perm: item.additional.perm.posix,
            name: item.name.clone(),
            path: item.path.clone(),
            is_dir: item.isdir,
            size,
            ino,
        }
    }
}

} // verus!
