//! A read-only virtual filesystem over a remote file-hosting service.
//!
//! The library holds the logic that turns remote listings and metadata into
//! filesystem entries: the inode/path registry, the three-tier metadata
//! resolution, cursor-based directory enumeration, the cache catalog that
//! decides when a local blob may be reused, and the construction and
//! classification of remote requests. Network, disk and platform glue live
//! outside the library and hand it plain values.

pub mod utils;
pub mod responses;
pub mod registry;
pub mod error;
pub mod entry;
pub mod filesystem;
pub mod cursor;
pub mod cache;
pub mod station;
pub mod adapter;
pub mod memo;

pub use cache::{read_range, CacheMeta, CacheRecord, FileCache};
pub use cursor::{next_dir_entry, DirStep};
pub use entry::FileSystemInfo;
pub use error::FsError;
pub use filesystem::{path_kind, FileStationFileSystem, Fetched, PathKind, ReadAction};
pub use registry::{canonicalize, InodeRegistry};
pub use responses::{
    FileAdditional, FileStationItem, ListFilesResult, ListSharesResult, LoginResult, Perm, ShareAdditional,
    SynologyResult, Time, VolumeStatus,
};
pub use station::FileStation;
pub use utils::{epoch_from_seconds, Timestamp};
