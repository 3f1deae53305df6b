//! The payloads that the remote service answers with, as plain values.

use vstd::prelude::*;

verus! {

/// The envelope of every answer: whether the call succeeded, and its payload.
#[derive(Clone, Debug)]
pub struct SynologyResult<T> {
    pub success: bool,
    pub data: T,
}

/// The payload of a successful login: the session identifier.
#[derive(Clone, Debug, PartialEq, Eq)]
pub struct LoginResult {
    pub sid: String,
}

/// One file, directory or share as the remote service describes it.
#[derive(Clone, Debug)]
pub struct FileStationItem<T> {
    pub isdir: bool,
    pub name: String,
    pub path: String,
    pub additional: T,
}

/// The four timestamps of an item, in seconds since the Unix epoch.
#[derive(Clone, Copy, Debug, PartialEq, Eq, Structural)]
pub struct Time {
    pub atime: u64,
    pub mtime: u64,
    pub ctime: u64,
    pub crtime: u64,
}

/// The POSIX permission bits that the remote service reports.
#[derive(Clone, Copy, Debug, PartialEq, Eq, Structural)]
pub struct Perm {
    pub posix: u16,
}

/// Extra attributes of a file or directory.
#[derive(Clone, Copy, Debug, PartialEq, Eq, Structural)]
pub struct FileAdditional {
    pub size: u64,
    pub time: Time,
    pub perm: Perm,
}

/// Capacity figures of the volume that holds a share.
#[derive(Clone, Copy, Debug, PartialEq, Eq, Structural)]
pub struct VolumeStatus {
    pub freespace: u64,
    pub readonly: bool,
    pub totalspace: u64,
}

/// Extra attributes of a share.
#[derive(Clone, Copy, Debug, PartialEq, Eq, Structural)]
pub struct ShareAdditional {
    pub time: Time,
    pub volume_status: VolumeStatus,
    pub perm: Perm,
}

/// The answer to a listing of all shares.
#[derive(Clone, Debug)]
pub struct ListSharesResult {
    pub offset: i32,
    pub shares: Vec<FileStationItem<ShareAdditional>>,
    pub total: i32,
}

/// The answer to a listing of one directory, or to a metadata query.
#[derive(Clone, Debug)]
pub struct ListFilesResult {
    pub offset: Option<i32>,
    pub files: Vec<FileStationItem<FileAdditional>>,
    pub total: Option<i32>,
}

} // verus!
