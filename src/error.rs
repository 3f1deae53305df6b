//! The kinds of failure that the library reports.

use vstd::prelude::*;

verus! {

/// Why an operation failed.
#[derive(Clone, Copy, Debug, PartialEq, Eq, Structural)]
pub enum FsError {
    /// The path or identifier has no remote counterpart.
    NotFound,
    /// There is no session, or the remote service rejected it.
    Unauthorized,
    /// The transport failed, or answered with this non-success status.
    RemoteUnavailable(u16),
    /// The remote answer did not have the expected shape.
    ProtocolError,
    /// Reading or writing the local cache failed.
    CacheIoError,
    /// An identifier that should be registered is not.
    InternalInconsistency,
    /// The remote service reported this error code.
    Remote(i64),
}

} // verus!
