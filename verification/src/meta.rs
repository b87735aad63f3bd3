//! Value-typed superblock metadata: feature flags, cached superblock fields,
//! filesystem version and the metadata working mode.

use vstd::prelude::*;

verus! {

use vstd::string::StringSliceAdditionalSpecFns;

/// Superblock version word of the v5 dialect.
pub const RAFS_SUPER_VERSION_V5: u32 = 0x500;

/// Superblock version word of the v6 dialect, the one this driver serves.
pub const RAFS_SUPER_VERSION_V6: u32 = 0x600;

/// Block size reported by `get_attr()`.
pub const RAFS_ATTR_BLOCK_SIZE: u32 = 4096;

/// Maximum size of a file name.
pub const RAFS_MAX_NAME: usize = 255;

/// Maximum size of a blob identifier string.
pub const RAFS_BLOB_ID_MAX_LENGTH: usize = 64;

/// Maximum size of a bootstrap file.
pub const RAFS_MAX_METADATA_SIZE: usize = 0x8000_0000;

/// Flag: data chunks are not compressed.
pub const FLAG_COMPRESSION_NONE: u64 = 0x0000_0001;

/// Flag: data chunks are compressed with lz4_block.
pub const FLAG_COMPRESSION_LZ4: u64 = 0x0000_0002;

/// Flag: chunk digests use the blake3 algorithm.
pub const FLAG_HASH_BLAKE3: u64 = 0x0000_0004;

/// Flag: chunk digests use the sha256 algorithm.
pub const FLAG_HASH_SHA256: u64 = 0x0000_0008;

/// Flag: inodes carry explicit uid/gid fields.
pub const FLAG_EXPLICIT_UID_GID: u64 = 0x0000_0010;

/// Flag: inodes may carry extended attributes.
pub const FLAG_HAS_XATTR: u64 = 0x0000_0020;

/// Flag: data chunks are compressed with gzip.
pub const FLAG_COMPRESSION_GZIP: u64 = 0x0000_0040;

/// Flag: data chunks are compressed with zstd.
pub const FLAG_COMPRESSION_ZSTD: u64 = 0x0000_0080;

/// Feature flag word of a filesystem, one bit per feature.
#[derive(Clone, Copy, Debug, PartialEq, Eq, Structural)]
pub struct RafsSuperFlags {
    /// The raw flag bits.
    pub bits: u64,
}

impl RafsSuperFlags {
    /// True when every bit of `flag` is set in `self`.
    pub open spec fn spec_contains(self, flag: u64) -> bool {
        self.bits & flag == flag
    }

    /// The empty flag set.
    pub fn empty() -> (f: RafsSuperFlags)
        ensures
            f.bits == 0,
    {
        RafsSuperFlags { bits: 0 }
    }

    /// Wrap a raw flag word.
    pub fn from_bits(bits: u64) -> (f: RafsSuperFlags)
        ensures
            f.bits == bits,
    {
        RafsSuperFlags { bits }
    }

    /// True when every bit of `flag` is set in `self`.
    pub fn contains(&self, flag: u64) -> (c: bool)
        ensures
            c == self.spec_contains(flag),
    {
        self.bits & flag == flag
    }
}

/// Compression algorithm applied to chunk data.
#[derive(Clone, Copy, Debug, PartialEq, Eq, Structural)]
pub enum CompressAlgorithm {
    /// Chunks are stored uncompressed.
    NoCompression,
    /// Chunks are compressed with lz4 in block mode.
    Lz4Block,
    /// Chunks are compressed with gzip.
    GZip,
    /// Chunks are compressed with zstd.
    Zstd,
}

/// The compression algorithm a flag word selects: the first matching
/// compression bit wins, in the order none, lz4, gzip, zstd; a word with no
/// compression bit defaults to lz4.
pub open spec fn spec_compress_algorithm(f: RafsSuperFlags) -> CompressAlgorithm {
    if f.spec_contains(FLAG_COMPRESSION_NONE) {
        CompressAlgorithm::NoCompression
    } else if f.spec_contains(FLAG_COMPRESSION_LZ4) {
        CompressAlgorithm::Lz4Block
    } else if f.spec_contains(FLAG_COMPRESSION_GZIP) {
        CompressAlgorithm::GZip
    } else if f.spec_contains(FLAG_COMPRESSION_ZSTD) {
        CompressAlgorithm::Zstd
    } else {
        CompressAlgorithm::Lz4Block
    }
}

impl CompressAlgorithm {
    /// The compression algorithm selected by a flag word.
    pub fn from_flags(f: RafsSuperFlags) -> (a: CompressAlgorithm)
        ensures
            a == spec_compress_algorithm(f),
    {
        if f.contains(FLAG_COMPRESSION_NONE) {
            CompressAlgorithm::NoCompression
        } else if f.contains(FLAG_COMPRESSION_LZ4) {
            CompressAlgorithm::Lz4Block
        } else if f.contains(FLAG_COMPRESSION_GZIP) {
            CompressAlgorithm::GZip
        } else if f.contains(FLAG_COMPRESSION_ZSTD) {
            CompressAlgorithm::Zstd
        } else {
            CompressAlgorithm::Lz4Block
        }
    }
}

/// Digest algorithm used to validate chunk data.
#[derive(Clone, Copy, Debug, PartialEq, Eq, Structural)]
pub enum DigestAlgorithm {
    /// The blake3 hash.
    Blake3,
    /// The sha256 hash.
    Sha256,
}

/// The digest algorithm a flag word selects: blake3 wins over sha256, and a
/// word with neither bit defaults to blake3.
pub open spec fn spec_digest_algorithm(f: RafsSuperFlags) -> DigestAlgorithm {
    if f.spec_contains(FLAG_HASH_BLAKE3) {
        DigestAlgorithm::Blake3
    } else if f.spec_contains(FLAG_HASH_SHA256) {
        DigestAlgorithm::Sha256
    } else {
        DigestAlgorithm::Blake3
    }
}

impl DigestAlgorithm {
    /// The digest algorithm selected by a flag word.
    pub fn from_flags(f: RafsSuperFlags) -> (a: DigestAlgorithm)
        ensures
            a == spec_digest_algorithm(f),
    {
        if f.contains(FLAG_HASH_BLAKE3) {
            DigestAlgorithm::Blake3
        } else if f.contains(FLAG_HASH_SHA256) {
            DigestAlgorithm::Sha256
        } else {
            DigestAlgorithm::Blake3
        }
    }
}

/// Filesystem metadata cached from the on-disk super block.
#[derive(Clone, Copy, Debug, PartialEq, Eq, Structural)]
pub struct RafsSuperMeta {
    /// Filesystem magic number.
    pub magic: u32,
    /// Filesystem version number.
    pub version: u32,
    /// Size of the on-disk super block.
    pub sb_size: u32,
    /// Inode number of the root inode.
    pub root_inode: u64,
    /// Chunk size of regular file data, a power of two.
    pub chunk_size: u32,
    /// Number of inodes in the filesystem.
    pub inodes_count: u64,
    /// Feature flags.
    pub flags: RafsSuperFlags,
    /// V5: number of entries in the inode offset table.
    pub inode_table_entries: u32,
    /// V5: offset of the inode offset table.
    pub inode_table_offset: u64,
    /// Size of the blob information table.
    pub blob_table_size: u32,
    /// Offset of the blob information table.
    pub blob_table_offset: u64,
    /// V5: offset of the extended blob information table.
    pub extended_blob_table_offset: u64,
    /// V5: number of entries in the extended blob information table.
    pub extended_blob_table_entries: u32,
    /// Offset of the inode prefetch table.
    pub prefetch_table_offset: u64,
    /// Number of entries in the inode prefetch table.
    pub prefetch_table_entries: u32,
    /// Default attribute timeout in seconds.
    pub attr_timeout_secs: u64,
    /// Default entry timeout in seconds.
    pub entry_timeout_secs: u64,
    /// Whether this bootstrap is a chunk dictionary.
    pub is_chunk_dict: bool,
    /// V6: block address of the inode region, in 4 KiB units.
    pub meta_blkaddr: u32,
    /// V6: nid of the root inode.
    pub root_nid: u16,
    /// V6: offset of the sidecar chunk table.
    pub chunk_table_offset: u64,
    /// V6: size of the sidecar chunk table.
    pub chunk_table_size: u64,
}

impl RafsSuperMeta {
    /// True when the superblock is of the v5 dialect.
    pub fn is_v5(&self) -> (r: bool)
        ensures
            r == (self.version == RAFS_SUPER_VERSION_V5),
    {
        self.version == RAFS_SUPER_VERSION_V5
    }

    /// True when the superblock is of the v6 dialect.
    pub fn is_v6(&self) -> (r: bool)
        ensures
            r == (self.version == RAFS_SUPER_VERSION_V6),
    {
        self.version == RAFS_SUPER_VERSION_V6
    }

    /// True when this bootstrap is a chunk dictionary.
    pub fn is_chunk_dict(&self) -> (r: bool)
        ensures
            r == self.is_chunk_dict,
    {
        self.is_chunk_dict
    }

    /// True when inodes carry explicit uid/gid fields.
    pub fn explicit_uidgid(&self) -> (r: bool)
        ensures
            r == self.flags.spec_contains(FLAG_EXPLICIT_UID_GID),
    {
        self.flags.contains(FLAG_EXPLICIT_UID_GID)
    }

    /// True when inodes may carry extended attributes.
    pub fn has_xattr(&self) -> (r: bool)
        ensures
            r == self.flags.spec_contains(FLAG_HAS_XATTR),
    {
        self.flags.contains(FLAG_HAS_XATTR)
    }

    /// The compression algorithm of chunk data, from the feature flags; a
    /// superblock of no known dialect stores nothing compressed.
    pub fn get_compressor(&self) -> (a: CompressAlgorithm)
        ensures
            a == if self.version == RAFS_SUPER_VERSION_V5 || self.version
                == RAFS_SUPER_VERSION_V6 {
                spec_compress_algorithm(self.flags)
            } else {
                CompressAlgorithm::NoCompression
            },
    {
        if self.is_v5() || self.is_v6() {
            CompressAlgorithm::from_flags(self.flags)
        } else {
            CompressAlgorithm::NoCompression
        }
    }

    /// The digest algorithm of chunk data, from the feature flags; a
    /// superblock of no known dialect defaults to blake3.
    pub fn get_digester(&self) -> (a: DigestAlgorithm)
        ensures
            a == if self.version == RAFS_SUPER_VERSION_V5 || self.version
                == RAFS_SUPER_VERSION_V6 {
                spec_digest_algorithm(self.flags)
            } else {
                DigestAlgorithm::Blake3
            },
    {
        if self.is_v5() || self.is_v6() {
            DigestAlgorithm::from_flags(self.flags)
        } else {
            DigestAlgorithm::Blake3
        }
    }
}

impl RafsSuperMeta {
    /// The all-zero metadata of an unloaded superblock, with one-second
    /// default timeouts.
    pub open spec fn spec_default() -> RafsSuperMeta {
        RafsSuperMeta {
            magic: 0,
            version: 0,
            sb_size: 0,
            root_inode: 0,
            chunk_size: 0,
            inodes_count: 0,
            flags: RafsSuperFlags { bits: 0 },
            inode_table_entries: 0,
            inode_table_offset: 0,
            blob_table_size: 0,
            blob_table_offset: 0,
            extended_blob_table_offset: 0,
            extended_blob_table_entries: 0,
            prefetch_table_offset: 0,
            prefetch_table_entries: 0,
            attr_timeout_secs: 1,
            entry_timeout_secs: 1,
            is_chunk_dict: false,
            meta_blkaddr: 0,
            root_nid: 0,
            chunk_table_offset: 0,
            chunk_table_size: 0,
        }
    }
}

impl Default for RafsSuperMeta {
    /// The all-zero metadata of an unloaded superblock, with one-second
    /// default timeouts.
    fn default() -> (m: Self)
        ensures
            m == RafsSuperMeta::spec_default(),
    {
        RafsSuperMeta {
            magic: 0,
            version: 0,
            sb_size: 0,
            root_inode: 0,
            chunk_size: 0,
            inodes_count: 0,
            flags: RafsSuperFlags { bits: 0 },
            inode_table_entries: 0,
            inode_table_offset: 0,
            blob_table_size: 0,
            blob_table_offset: 0,
            extended_blob_table_offset: 0,
            extended_blob_table_entries: 0,
            prefetch_table_offset: 0,
            prefetch_table_entries: 0,
            attr_timeout_secs: 1,
            entry_timeout_secs: 1,
            is_chunk_dict: false,
            meta_blkaddr: 0,
            root_nid: 0,
            chunk_table_offset: 0,
            chunk_table_size: 0,
        }
    }
}

/// RAFS filesystem versions.
#[derive(Clone, Copy, Debug, PartialEq, Eq, Structural)]
pub enum RafsVersion {
    /// The v5 dialect, not served by this driver.
    V5,
    /// The v6 dialect.
    V6,
}

impl Default for RafsVersion {
    /// Versions default to v5, matching the superblock loader's probe order.
    fn default() -> (v: Self)
        ensures
            v == RafsVersion::V5,
    {
        RafsVersion::V5
    }
}

impl RafsVersion {
    /// The version a superblock version word selects, or `InvalidData` for
    /// any word that is neither dialect.
    pub fn try_from(version: u32) -> (r: crate::RafsResult<RafsVersion>)
        ensures
            version == RAFS_SUPER_VERSION_V5 ==> r == Ok::<_, crate::RafsError>(RafsVersion::V5),
            version == RAFS_SUPER_VERSION_V6 ==> r == Ok::<_, crate::RafsError>(RafsVersion::V6),
            version != RAFS_SUPER_VERSION_V5 && version != RAFS_SUPER_VERSION_V6 ==> r == Err::<
                RafsVersion,
                _,
            >(crate::RafsError::InvalidData),
    {
        if version == RAFS_SUPER_VERSION_V5 {
            Ok(RafsVersion::V5)
        } else if version == RAFS_SUPER_VERSION_V6 {
            Ok(RafsVersion::V6)
        } else {
            Err(crate::RafsError::InvalidData)
        }
    }

    /// True when this is the v5 dialect.
    pub fn is_v5(&self) -> (r: bool)
        ensures
            r == (*self == RafsVersion::V5),
    {
        matches!(self, RafsVersion::V5)
    }

    /// True when this is the v6 dialect.
    pub fn is_v6(&self) -> (r: bool)
        ensures
            r == (*self == RafsVersion::V6),
    {
        matches!(self, RafsVersion::V6)
    }
}

/// Metadata working mode.
#[derive(Clone, Copy, Debug, PartialEq, Eq, Structural)]
pub enum RafsMode {
    /// Access metadata directly through the mapped bootstrap.
    Direct,
    /// Read metadata into memory before use; only the v5 dialect supports it.
    Cached,
}

impl Default for RafsMode {
    /// The working mode defaults to direct mapping.
    fn default() -> (m: Self)
        ensures
            m == RafsMode::Direct,
    {
        RafsMode::Direct
    }
}

impl RafsMode {
    /// The mode a configuration string selects: exactly `"direct"` or
    /// `"cached"`; anything else is `InvalidArgument`.
    pub fn from_str(s: &str) -> (r: crate::RafsResult<RafsMode>)
        ensures
            r == if s.spec_bytes() == "direct".spec_bytes() {
                Ok::<_, crate::RafsError>(RafsMode::Direct)
            } else if s.spec_bytes() == "cached".spec_bytes() {
                Ok::<_, crate::RafsError>(RafsMode::Cached)
            } else {
                Err::<RafsMode, _>(crate::RafsError::InvalidArgument)
            },
    {
        if matches!(crate::names::compare_names(s.as_bytes(), "direct".as_bytes()),
            crate::names::NameOrder::Equal) {
            Ok(RafsMode::Direct)
        } else if matches!(crate::names::compare_names(s.as_bytes(), "cached".as_bytes()),
            crate::names::NameOrder::Equal) {
            Ok(RafsMode::Cached)
        } else {
            Err(crate::RafsError::InvalidArgument)
        }
    }

    /// The configuration string of this mode.
    pub fn to_string(&self) -> (r: String)
        ensures
            *self == RafsMode::Direct ==> r@ == "direct"@,
            *self == RafsMode::Cached ==> r@ == "cached"@,
    {
        match self {
            RafsMode::Direct => "direct".to_string(),
            RafsMode::Cached => "cached".to_string(),
        }
    }
}

/// Result codes for the directory walk: whether iteration goes on.
#[derive(Clone, Copy, Debug, PartialEq, Eq, Structural)]
pub enum RafsInodeWalkAction {
    /// Keep iterating.
    Continue,
    /// Stop iterating.
    Break,
}

/// POSIX attributes of an inode, as the front-end reports them.
#[derive(Clone, Copy, Debug, PartialEq, Eq, Structural, Default)]
pub struct Attr {
    /// Inode number.
    pub ino: u64,
    /// Content size in bytes.
    pub size: u64,
    /// Number of 512-byte blocks the content covers.
    pub blocks: u64,
    /// Modification time, seconds part.
    pub mtime: u64,
    /// Modification time, nanoseconds part.
    pub mtimensec: u32,
    /// POSIX mode word.
    pub mode: u32,
    /// Link count.
    pub nlink: u32,
    /// Owner uid.
    pub uid: u32,
    /// Owner gid.
    pub gid: u32,
    /// Device number, for special files.
    pub rdev: u32,
    /// Preferred I/O block size.
    pub blksize: u32,
}

/// A lookup entry: an inode's attributes with its cache timeouts.
#[derive(Clone, Copy, Debug, PartialEq, Eq, Structural, Default)]
pub struct Entry {
    /// The inode's attributes.
    pub attr: Attr,
    /// Inode number.
    pub inode: u64,
    /// Entry generation number, always 0 here.
    pub generation: u64,
    /// Seconds the attributes may be cached.
    pub attr_timeout_secs: u64,
    /// Seconds the entry may be cached.
    pub entry_timeout_secs: u64,
}

} // verus!
