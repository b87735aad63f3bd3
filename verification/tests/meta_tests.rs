use rafs::meta::{
    CompressAlgorithm, DigestAlgorithm, RafsMode, RafsSuperFlags, RafsVersion,
    FLAG_COMPRESSION_GZIP, FLAG_COMPRESSION_LZ4, FLAG_COMPRESSION_NONE, FLAG_COMPRESSION_ZSTD,
    FLAG_HASH_BLAKE3, FLAG_HASH_SHA256, RAFS_SUPER_VERSION_V5, RAFS_SUPER_VERSION_V6,
};

#[test]
fn test_rafs_mode() {
    assert!(RafsMode::from_str("").is_err());
    assert!(RafsMode::from_str("directed").is_err());
    assert!(RafsMode::from_str("Direct").is_err());
    assert!(RafsMode::from_str("Cached").is_err());
    assert_eq!(RafsMode::from_str("direct").unwrap(), RafsMode::Direct);
    assert_eq!(RafsMode::from_str("cached").unwrap(), RafsMode::Cached);
    assert_eq!(&RafsMode::Direct.to_string(), "direct");
    assert_eq!(&RafsMode::Cached.to_string(), "cached");
}

#[test]
fn test_rafs_compressor() {
    assert_eq!(
        CompressAlgorithm::from_flags(RafsSuperFlags::from_bits(FLAG_COMPRESSION_NONE)),
        CompressAlgorithm::NoCompression
    );
    assert_eq!(
        CompressAlgorithm::from_flags(RafsSuperFlags::from_bits(FLAG_COMPRESSION_GZIP)),
        CompressAlgorithm::GZip
    );
    assert_eq!(
        CompressAlgorithm::from_flags(RafsSuperFlags::from_bits(FLAG_COMPRESSION_LZ4)),
        CompressAlgorithm::Lz4Block
    );
    assert_eq!(
        CompressAlgorithm::from_flags(RafsSuperFlags::from_bits(FLAG_COMPRESSION_ZSTD)),
        CompressAlgorithm::Zstd
    );
    assert_eq!(
        CompressAlgorithm::from_flags(RafsSuperFlags::from_bits(
            FLAG_COMPRESSION_ZSTD | FLAG_COMPRESSION_LZ4
        )),
        CompressAlgorithm::Lz4Block
    );
    assert_eq!(
        CompressAlgorithm::from_flags(RafsSuperFlags::empty()),
        CompressAlgorithm::Lz4Block
    );
}

#[test]
fn test_rafs_digestor() {
    assert_eq!(
        DigestAlgorithm::from_flags(RafsSuperFlags::from_bits(FLAG_HASH_BLAKE3)),
        DigestAlgorithm::Blake3
    );
    assert_eq!(
        DigestAlgorithm::from_flags(RafsSuperFlags::from_bits(FLAG_HASH_SHA256)),
        DigestAlgorithm::Sha256
    );
    assert_eq!(
        DigestAlgorithm::from_flags(RafsSuperFlags::from_bits(FLAG_HASH_SHA256 | FLAG_HASH_BLAKE3)),
        DigestAlgorithm::Blake3
    );
    assert_eq!(
        DigestAlgorithm::from_flags(RafsSuperFlags::empty()),
        DigestAlgorithm::Blake3
    );
}

#[test]
fn test_rafs_version() {
    assert_eq!(RafsVersion::try_from(RAFS_SUPER_VERSION_V5).unwrap(), RafsVersion::V5);
    assert_eq!(RafsVersion::try_from(RAFS_SUPER_VERSION_V6).unwrap(), RafsVersion::V6);
    assert!(RafsVersion::try_from(0x700).is_err());
    assert!(RafsVersion::try_from(RAFS_SUPER_VERSION_V5).unwrap().is_v5());
    assert!(RafsVersion::try_from(RAFS_SUPER_VERSION_V6).unwrap().is_v6());
    assert_eq!(RafsVersion::default(), RafsVersion::V5);
}

#[test]
fn test_super_meta_flags() {
    let mut meta = rafs::meta::RafsSuperMeta::default();
    meta.version = RAFS_SUPER_VERSION_V6;
    assert!(meta.is_v6());
    assert!(!meta.is_v5());
    assert!(!meta.is_chunk_dict());
    assert!(!meta.explicit_uidgid());
    assert!(!meta.has_xattr());
    meta.flags = RafsSuperFlags::from_bits(
        rafs::meta::FLAG_EXPLICIT_UID_GID | rafs::meta::FLAG_HAS_XATTR,
    );
    assert!(meta.explicit_uidgid());
    assert!(meta.has_xattr());
    assert_eq!(meta.get_compressor(), CompressAlgorithm::Lz4Block);
    assert_eq!(meta.get_digester(), DigestAlgorithm::Blake3);
}
