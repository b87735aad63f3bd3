//! Read-only metadata driver for a content-addressed container image
//! filesystem in the RAFS v6 dialect, layered on the EROFS on-disk format.
//!
//! A bootstrap file is interpreted in place: every record is read through
//! bounds-checked accessors over the raw bytes, and the decoded structures
//! (inodes, directory blocks, inline extended attributes, chunk tables) are
//! exposed through typed handles. The current mapping, blob table and
//! superblock meta are published as one immutable state tuple; readers take a
//! snapshot and updates swap in a fresh tuple without blocking them.

use vstd::prelude::*;

pub mod blob;
pub mod chunkio;
pub mod dir;
pub mod inode;
pub mod layout;
pub mod lookup;
pub mod map;
pub mod meta;
pub mod names;
pub mod rafs;
pub mod state;
pub mod superblock;
pub mod xattr;

verus! {

/// Failure kinds of the metadata driver.
///
/// Every read through the mapping goes via containment-checked accessors, so
/// adversarial bootstraps surface as `InvalidData` instead of a fault.
#[derive(Clone, Copy, Debug, PartialEq, Eq, Structural)]
pub enum RafsError {
    /// An out-of-bounds read against the mapping or a malformed header.
    InvalidData,
    /// The inode uses a reserved or compressed data layout this driver does
    /// not implement; carries the offending format word.
    Incompatible(u16),
    /// Unknown child, unknown xattr, or unknown chunk address.
    NotFound,
    /// A directory operation was requested on a non-directory inode.
    NotDirectory,
    /// Caller misuse: an argument out of range or overflowing arithmetic.
    InvalidArgument,
    /// The operation is not available on this bootstrap, for example a
    /// chunk-count check on a chunk dictionary.
    Unsupported,
    /// The underlying file or mapping could not be produced.
    IoFailure,
}

/// Result type used throughout the driver.
pub type RafsResult<T> = Result<T, RafsError>;

/// Type for RAFS filesystem inode numbers (nids).
pub type Inode = u64;

} // verus!
