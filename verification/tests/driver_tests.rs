use rafs::meta::{RafsSuperMeta, RAFS_SUPER_VERSION_V6};
use rafs::rafs::RafsSuper;
use rafs::RafsError;

const BLOCK: usize = 4096;
const LEN: usize = 40 * BLOCK;
const CHUNK: u32 = 0x10_0000;

fn w16(b: &mut [u8], off: usize, v: u16) {
    b[off..off + 2].copy_from_slice(&v.to_le_bytes());
}

fn w32(b: &mut [u8], off: usize, v: u32) {
    b[off..off + 4].copy_from_slice(&v.to_le_bytes());
}

fn w64(b: &mut [u8], off: usize, v: u64) {
    b[off..off + 8].copy_from_slice(&v.to_le_bytes());
}

fn slot(nid: u64) -> usize {
    2 * BLOCK + 32 * nid as usize
}

/// Write a compact (32-byte) inode record.
fn write_inode(b: &mut [u8], nid: u64, format: u16, mode: u16, size: u32, union: u32, xattrs: u16) {
    let off = slot(nid);
    w16(b, off, format);
    w16(b, off + 2, xattrs);
    w16(b, off + 4, mode);
    w16(b, off + 6, 1); // nlink
    w32(b, off + 8, size);
    w32(b, off + 16, union);
    w32(b, off + 20, nid as u32);
    w16(b, off + 24, 0);
    w16(b, off + 26, 0);
}

/// Lay out one directory block at byte offset `bo`: a dirent array followed
/// by densely packed names.
fn write_dir_block(b: &mut [u8], bo: usize, entries: &[(u64, &[u8], u8)]) -> usize {
    let count = entries.len();
    let mut name_off = 12 * count;
    for (i, (nid, name, ft)) in entries.iter().enumerate() {
        let off = bo + 12 * i;
        w64(b, off, *nid);
        w16(b, off + 8, name_off as u16);
        b[off + 10] = *ft;
        b[bo + name_off..bo + name_off + name.len()].copy_from_slice(name);
        name_off += name.len();
    }
    name_off
}

fn test_meta() -> RafsSuperMeta {
    let mut meta = RafsSuperMeta::default();
    meta.version = RAFS_SUPER_VERSION_V6;
    meta.chunk_size = CHUNK;
    meta.meta_blkaddr = 2;
    meta.root_nid = 1;
    meta.blob_table_offset = 4096;
    meta.blob_table_size = 256;
    meta.chunk_table_offset = 20 * BLOCK as u64;
    meta.chunk_table_size = 160;
    meta
}

/// Build the shared test bootstrap image.
fn build_image() -> Vec<u8> {
    let mut b = vec![0u8; LEN];

    // Blob table: two blobs at offset 4096.
    for (i, id) in [b"blob-a".as_slice(), b"blob-b".as_slice()].iter().enumerate() {
        let off = 4096 + 128 * i;
        b[off..off + id.len()].copy_from_slice(id);
        w32(&mut b, off + 64, i as u32); // blob_index
        w32(&mut b, off + 68, CHUNK); // chunk_size
        w32(&mut b, off + 72, 16); // chunk_count
        w32(&mut b, off + 76, 0); // features
        w64(&mut b, off + 80, 0x10_0000); // compressed_size
        w64(&mut b, off + 88, 0x100_0000); // uncompressed_size
    }

    // Root directory, nid 1: {., .., a, b, dir} in one block at block 10.
    let used = write_dir_block(
        &mut b,
        10 * BLOCK,
        &[(1, b".", 2), (1, b"..", 2), (100, b"a", 1), (101, b"b", 1), (3, b"dir", 2)],
    );
    write_inode(&mut b, 1, 0, 0x41ed, used as u32, 10, 0);

    // Big directory, nid 3: 300 entries across blocks 11..13.
    let names0: Vec<Vec<u8>> = (0..100).map(|i| format!("a{:02}", i).into_bytes()).collect();
    let mut entries0: Vec<(u64, &[u8], u8)> = vec![(3, b".", 2), (1, b"..", 2)];
    for (i, n) in names0.iter().enumerate() {
        entries0.push((1000 + i as u64, n.as_slice(), 1));
    }
    write_dir_block(&mut b, 11 * BLOCK, &entries0);
    let names1: Vec<Vec<u8>> = (0..100).map(|i| format!("b{:02}", i).into_bytes()).collect();
    let entries1: Vec<(u64, &[u8], u8)> =
        names1.iter().enumerate().map(|(i, n)| (1100 + i as u64, n.as_slice(), 1)).collect();
    write_dir_block(&mut b, 12 * BLOCK, &entries1);
    let names2: Vec<Vec<u8>> = (0..100).map(|i| format!("c{:02}", i).into_bytes()).collect();
    let entries2: Vec<(u64, &[u8], u8)> =
        names2.iter().enumerate().map(|(i, n)| (1200 + i as u64, n.as_slice(), 1)).collect();
    let used2 = write_dir_block(&mut b, 13 * BLOCK, &entries2);
    write_inode(&mut b, 3, 0, 0x41ed, (2 * BLOCK + used2) as u32, 11, 0);

    // Short-last-block directory, nid 4: one full block at 14, a 1 KiB tail
    // at 15 holding two entries, the last name NUL-padded to the limit.
    let mut entries3: Vec<(u64, &[u8], u8)> = vec![(4, b".", 2), (1, b"..", 2)];
    let fill: Vec<Vec<u8>> = (0..5).map(|i| format!("m{:02}", i).into_bytes()).collect();
    for (i, n) in fill.iter().enumerate() {
        entries3.push((1500 + i as u64, n.as_slice(), 1));
    }
    write_dir_block(&mut b, 14 * BLOCK, &entries3);
    write_dir_block(&mut b, 15 * BLOCK, &[(1600, b"t1", 1), (1601, b"t2", 1)]);
    write_inode(&mut b, 4, 0, 0x41ed, (BLOCK + 1024) as u32, 14, 0);

    // Chunk-based regular file, nid 5: 12 MiB, chunk addresses at the slot
    // right after the inode; blob pattern B0 B0 B0 B1 B1 B0 ... B0.
    write_inode(&mut b, 5, 4 << 1, 0x81a4, 0xc0_0000, 0, 0);
    let blobs = [0u16, 0, 0, 1, 1, 0, 0, 0, 0, 0, 0, 0];
    for i in 0..12usize {
        let off = slot(5) + 32 + 8 * i;
        w16(&mut b, off, blobs[i]);
        w16(&mut b, off + 2, i as u16);
        w32(&mut b, off + 4, (i as u32) * 256);
    }

    // Inline symlink, nid 9: 13 NUL-free bytes right after the inode.
    write_inode(&mut b, 9, 2 << 1, 0xa1ff, 13, 0, 0);
    let target = b"symlink-dest!";
    let soff = slot(9) + 32;
    b[soff..soff + target.len()].copy_from_slice(target);

    // Regular file with one trusted xattr, nid 11: header + one record
    // (name suffix "foo", value [0x01]).
    write_inode(&mut b, 11, 0, 0x81a4, 0, 0, 3);
    let xoff = slot(11) + 32 + 12;
    b[xoff] = 3; // name_len
    b[xoff + 1] = 4; // name_index: trusted.
    w16(&mut b, xoff + 2, 1); // value_size
    b[xoff + 4..xoff + 7].copy_from_slice(b"foo");
    b[xoff + 7] = 0x01;

    // Reserved data layout (compressed, rejected), nid 13.
    write_inode(&mut b, 13, 1 << 1, 0x41ed, 4096, 16, 0);

    // Reserved format bits set, nid 14.
    write_inode(&mut b, 14, 1 << 4, 0x41ed, 4096, 16, 0);

    // Chunk table at block 20: two rows, keyed to chunks 0 and 3 of nid 5.
    let t = 20 * BLOCK;
    for (r, (blob, ci)) in [(0u32, 0u32), (1u32, 3u32)].iter().enumerate() {
        let off = t + 80 * r;
        for j in 0..32 {
            b[off + j] = (16 * r + 1) as u8; // digest pattern
        }
        w32(&mut b, off + 32, *blob); // blob_index
        w32(&mut b, off + 36, if r == 1 { 1 } else { 0 }); // flags
        w32(&mut b, off + 40, 0x8_0000); // compressed_size
        w32(&mut b, off + 44, 0x10_0000); // uncompressed_size
        w64(&mut b, off + 48, (*ci as u64) * 0x8_0000); // compressed_offset
        w64(&mut b, off + 56, (*ci as u64) * 0x10_0000); // uncompressed_offset
        w64(&mut b, off + 64, (*ci as u64) * 0x10_0000); // file_offset
        w32(&mut b, off + 72, *ci); // index
    }

    b
}

fn load_super() -> RafsSuper {
    let mut rs = RafsSuper::new("direct", false).unwrap();
    rs.load(test_meta(), build_image()).unwrap();
    rs
}

#[test]
fn root_readdir() {
    let rs = load_super();
    let root = rs.get_inode(1, true).unwrap();
    let entries = root.walk_children_inodes(0).unwrap();
    let expect: Vec<(&[u8], u64)> =
        vec![(b".", 1), (b"..", 1), (b"a", 100), (b"b", 101), (b"dir", 3)];
    assert_eq!(entries.len(), expect.len());
    for (i, (name, nid)) in expect.iter().enumerate() {
        assert_eq!(entries[i].name.as_slice(), *name);
        assert_eq!(entries[i].nid, *nid);
        assert_eq!(entries[i].next_offset, i as u64 + 1);
    }
}

#[test]
fn readdir_resume() {
    let rs = load_super();
    let root = rs.get_inode(1, true).unwrap();
    let full = root.walk_children_inodes(0).unwrap();
    for k in 0..=full.len() {
        let rest = root.walk_children_inodes(k as u64).unwrap();
        assert_eq!(rest.len(), full.len() - k);
        for (i, e) in rest.iter().enumerate() {
            assert_eq!(e.name, full[k + i].name);
            assert_eq!(e.nid, full[k + i].nid);
        }
    }
    // An offset past the end yields nothing.
    assert_eq!(root.walk_children_inodes(99).unwrap().len(), 0);
}

#[test]
fn name_lookup_across_blocks() {
    let rs = load_super();
    let dir = rs.get_inode(3, true).unwrap();
    let hit = dir.get_child_by_name(b"b42").unwrap();
    assert_eq!(hit.nid, 1142);
    assert_eq!(hit.name.as_slice(), b"b42");
    let first = dir.get_child_by_name(b".").unwrap();
    assert_eq!(first.nid, 3);
    let last = dir.get_child_by_name(b"c99").unwrap();
    assert_eq!(last.nid, 1299);
    assert!(matches!(dir.get_child_by_name(b"zzz"), Err(RafsError::NotFound)));
    assert!(matches!(dir.get_child_by_name(b"b425"), Err(RafsError::NotFound)));
}

#[test]
fn lookup_agrees_with_walk() {
    let rs = load_super();
    let dir = rs.get_inode(3, true).unwrap();
    let entries = dir.walk_children_inodes(0).unwrap();
    assert_eq!(entries.len(), 302);
    for e in entries.iter() {
        let hit = dir.get_child_by_name(e.name.as_slice()).unwrap();
        assert_eq!(hit.nid, e.nid);
    }
}

#[test]
fn short_last_block() {
    let rs = load_super();
    let dir = rs.get_inode(4, true).unwrap();
    let entries = dir.walk_children_inodes(0).unwrap();
    assert_eq!(entries.len(), 9);
    assert_eq!(entries[7].name.as_slice(), b"t1");
    assert_eq!(entries[7].nid, 1600);
    assert_eq!(entries[8].name.as_slice(), b"t2");
    assert_eq!(entries[8].nid, 1601);
    let count = dir.get_child_count().unwrap();
    assert_eq!(count, 7);
}

#[test]
fn child_by_index_skips_dots() {
    let rs = load_super();
    let root = rs.get_inode(1, true).unwrap();
    assert_eq!(root.get_child_count().unwrap(), 3);
    assert_eq!(root.get_child_by_index(0).unwrap().name.as_slice(), b"a");
    assert_eq!(root.get_child_by_index(1).unwrap().name.as_slice(), b"b");
    let third = root.get_child_by_index(2).unwrap();
    assert_eq!(third.name.as_slice(), b"dir");
    assert_eq!(third.nid, 3);
    assert!(matches!(root.get_child_by_index(3), Err(RafsError::NotFound)));
}

#[test]
fn chunked_read_across_blobs() {
    let rs = load_super();
    let file = rs.get_inode(5, true).unwrap();
    let vecs = file.alloc_bio_vecs(512 * 1024, 8 * 1024 * 1024, true).unwrap();
    assert_eq!(vecs.len(), 3);

    assert_eq!(vecs[0].blob_index, 0);
    let v0: Vec<(u16, u32, u32)> =
        vecs[0].bi_vec.iter().map(|d| (d.chunk_index, d.offset, d.size)).collect();
    assert_eq!(v0, vec![(0, 512 * 1024, 512 * 1024), (1, 0, CHUNK), (2, 0, CHUNK)]);

    assert_eq!(vecs[1].blob_index, 1);
    let v1: Vec<(u16, u32, u32)> =
        vecs[1].bi_vec.iter().map(|d| (d.chunk_index, d.offset, d.size)).collect();
    assert_eq!(v1, vec![(3, 0, CHUNK), (4, 0, CHUNK)]);

    assert_eq!(vecs[2].blob_index, 0);
    let v2: Vec<(u16, u32, u32)> =
        vecs[2].bi_vec.iter().map(|d| (d.chunk_index, d.offset, d.size)).collect();
    assert_eq!(v2, vec![(5, 0, CHUNK), (6, 0, CHUNK), (7, 0, CHUNK), (8, 0, 512 * 1024)]);

    // The descriptors cover the window exactly.
    let total: u64 =
        vecs.iter().flat_map(|v| v.bi_vec.iter()).map(|d| d.size as u64).sum();
    assert_eq!(total, 8 * 1024 * 1024);

    // A window at the very end yields nothing.
    assert_eq!(file.alloc_bio_vecs(0xc0_0000, 4096, true).unwrap().len(), 0);
}

#[test]
fn inline_symlink() {
    let rs = load_super();
    let link = rs.get_inode(9, true).unwrap();
    assert!(link.is_symlink());
    assert_eq!(link.get_symlink_size(), 13);
    assert_eq!(link.get_symlink().unwrap().as_slice(), b"symlink-dest!");
}

#[test]
fn xattr_trusted_prefix() {
    let rs = load_super();
    let file = rs.get_inode(11, true).unwrap();
    assert!(file.has_xattr());
    let names = file.get_xattrs().unwrap();
    assert_eq!(names.len(), 1);
    assert_eq!(names[0].as_slice(), b"trusted.foo");
    assert_eq!(file.get_xattr(b"trusted.foo").unwrap(), vec![0x01]);
    assert!(matches!(file.get_xattr(b"user.foo"), Err(RafsError::NotFound)));
}

#[test]
fn xattr_roundtrip_all_names() {
    let rs = load_super();
    let file = rs.get_inode(11, true).unwrap();
    for name in file.get_xattrs().unwrap() {
        assert!(file.get_xattr(name.as_slice()).is_ok());
    }
}

#[test]
fn ino_offset_roundtrip() {
    let rs = load_super();
    for nid in [1u64, 3, 4, 5, 9, 11] {
        let w = rs.get_inode(nid, true).unwrap();
        assert_eq!(w.ino(), nid);
    }
}

#[test]
fn attrs_and_kinds() {
    let rs = load_super();
    let root = rs.get_inode(1, true).unwrap();
    assert!(root.is_dir() && !root.is_reg() && !root.is_symlink());
    let attr = root.get_attr();
    assert_eq!(attr.ino, 1);
    assert_eq!(attr.size, 68);
    assert_eq!(attr.blocks, 1);
    assert_eq!(attr.blksize, 4096);
    assert_eq!(attr.nlink, 1);
    let entry = root.get_entry();
    assert_eq!(entry.inode, 1);
    assert_eq!(entry.generation, 0);
    let file = rs.get_inode(5, true).unwrap();
    assert!(file.is_reg());
    assert_eq!(file.size(), 0xc0_0000);
    assert_eq!(file.get_chunk_count().unwrap(), 12);
    assert_eq!(file.get_attr().blocks, 0xc0_0000 / 512);
}

#[test]
fn validate_rules() {
    let rs = load_super();
    let max = rs.get_max_ino();
    assert!(rs.get_inode(1, true).unwrap().validate(max, CHUNK as u64).is_ok());
    assert!(rs.get_inode(5, true).unwrap().validate(max, CHUNK as u64).is_ok());

    // A chunk dictionary refuses chunk-count validation of regular files.
    let mut meta = test_meta();
    meta.is_chunk_dict = true;
    let mut rs2 = RafsSuper::new("direct", false).unwrap();
    rs2.load(meta, build_image()).unwrap();
    assert_eq!(
        rs2.get_inode(5, true).unwrap().validate(max, CHUNK as u64).unwrap_err(),
        RafsError::Unsupported
    );
}

#[test]
fn error_kinds() {
    let rs = load_super();
    // Reserved data layout: incompatible.
    let bad = rs.get_inode(13, true).unwrap();
    assert!(matches!(bad.get_symlink(), Err(RafsError::Incompatible(2))));
    // Reserved format bits: incompatible.
    let bad2 = rs.get_inode(14, true).unwrap();
    assert!(matches!(bad2.walk_children_inodes(0), Err(RafsError::Incompatible(16))));
    // Directory operations on a file.
    let file = rs.get_inode(5, true).unwrap();
    assert!(matches!(file.walk_children_inodes(0), Err(RafsError::NotDirectory)));
    // A nid whose slot lies outside the mapping.
    assert!(matches!(rs.get_inode(1 << 40, true), Err(RafsError::InvalidData)));
}

#[test]
fn path_resolution() {
    let rs = load_super();
    assert_eq!(rs.ino_from_path(b"/").unwrap(), 1);
    assert_eq!(rs.ino_from_path(b"/dir").unwrap(), 3);
    assert_eq!(rs.ino_from_path(b"/dir/b42").unwrap(), 1142);
    assert_eq!(rs.ino_from_path(b"//dir//b42").unwrap(), 1142);
    assert_eq!(rs.ino_from_path(b"relative").unwrap_err(), RafsError::InvalidArgument);
    assert_eq!(rs.ino_from_path(b"").unwrap_err(), RafsError::InvalidArgument);
    assert_eq!(rs.ino_from_path(b"/nope").unwrap_err(), RafsError::NotFound);
}

#[test]
fn path_from_ino_walks_parents() {
    let rs = load_super();
    assert_eq!(rs.path_from_ino(1).unwrap().as_slice(), b"/");
    assert_eq!(rs.path_from_ino(3).unwrap().as_slice(), b"/dir");
}

#[test]
fn extended_inode_parent_and_name() {
    let rs = load_super();
    let root = rs.get_extended_inode(1, false).unwrap();
    assert_eq!(root.parent().unwrap(), 1);
    assert_eq!(root.name().unwrap().as_slice(), b"/");
    assert_eq!(root.get_name_size(), 1);
    let dir = rs.get_extended_inode(3, false).unwrap();
    assert_eq!(dir.parent().unwrap(), 1);
    assert_eq!(dir.name().unwrap().as_slice(), b"dir");
}

#[test]
fn blob_table_contents() {
    let rs = load_super();
    let blobs = rs.superblock.get_blob_infos();
    assert_eq!(blobs.len(), 2);
    assert_eq!(blobs[0].blob_id.as_slice(), b"blob-a");
    assert_eq!(blobs[1].blob_id.as_slice(), b"blob-b");
    assert_eq!(blobs[0].chunk_size, CHUNK);
    assert_eq!(blobs[1].blob_index, 1);
}

#[test]
fn sidecar_chunk_info() {
    let rs = load_super();
    let ci = rs.superblock.get_chunk_info(1).unwrap();
    assert_eq!(ci.blob_index(), 1);
    assert_eq!(ci.id(), 3);
    assert!(ci.is_compressed());
    assert_eq!(ci.uncompressed_offset(), 3 * 0x10_0000);
    assert_eq!(ci.chunk_id()[0], 17);
    assert!(rs.superblock.get_chunk_info(2).is_err());
}

#[test]
fn lazy_chunk_index_join() {
    let mut rs = load_super();
    let file = rs.get_inode(5, true).unwrap();
    let c0 = rs.superblock.get_inode_chunk_info(&file, 0).unwrap();
    assert_eq!(c0.blob_index(), 0);
    assert_eq!(c0.id(), 0);
    assert!(!c0.is_compressed());
    let c3 = rs.superblock.get_inode_chunk_info(&file, 3).unwrap();
    assert_eq!(c3.blob_index(), 1);
    assert_eq!(c3.id(), 3);
    assert_eq!(c3.compressed_offset(), 3 * 0x8_0000);
    // A chunk with no sidecar row.
    assert!(matches!(
        rs.superblock.get_inode_chunk_info(&file, 1),
        Err(RafsError::NotFound)
    ));
}

#[test]
fn hot_swap_isolation() {
    let mut rs = load_super();
    let old_root = rs.get_inode(1, true).unwrap();
    assert_eq!(old_root.walk_children_inodes(0).unwrap().len(), 5);

    // Second image: the root holds a single child `z`.
    let mut b2 = build_image();
    let used = write_dir_block(
        &mut b2,
        10 * BLOCK,
        &[(1, b".", 2), (1, b"..", 2), (300, b"z", 1)],
    );
    write_inode(&mut b2, 1, 0, 0x41ed, used as u32, 10, 0);
    rs.update(b2).unwrap();

    // The old handle still reads its own snapshot.
    let old_entries = old_root.walk_children_inodes(0).unwrap();
    assert_eq!(old_entries.len(), 5);
    assert_eq!(old_entries[4].name.as_slice(), b"dir");

    // New handles see the new state.
    let new_root = rs.get_inode(1, true).unwrap();
    let new_entries = new_root.walk_children_inodes(0).unwrap();
    assert_eq!(new_entries.len(), 3);
    assert_eq!(new_entries[2].name.as_slice(), b"z");
    assert_eq!(new_entries[2].nid, 300);
}

#[test]
fn walk_and_collect() {
    let rs = load_super();
    let tree = rs.walk_directory(1).unwrap();
    assert_eq!(tree[0].0, 1);
    assert!(tree.iter().any(|(nid, path)| *nid == 3 && path.as_slice() == b"/dir"));

    let mut files: Vec<u64> = Vec::new();
    rs.collect_descendants_inodes(1, &mut files).unwrap();
    // nid 5 and 11 are not linked below the root, so nothing qualifies.
    assert!(files.is_empty());
}

#[test]
fn load_validations() {
    let mut rs = RafsSuper::new("direct", false).unwrap();
    let mut meta = test_meta();
    meta.version = 0x500;
    assert_eq!(rs.load(meta, build_image()).unwrap_err(), RafsError::InvalidData);

    let mut rs2 = RafsSuper::new("direct", false).unwrap();
    let mut meta2 = test_meta();
    meta2.blob_table_offset = 8; // inside the reserved first block
    assert_eq!(rs2.load(meta2, build_image()).unwrap_err(), RafsError::InvalidData);

    let mut rs3 = RafsSuper::new("direct", false).unwrap();
    assert_eq!(rs3.load(test_meta(), vec![0u8; 4096]).unwrap_err(), RafsError::InvalidData);
}
