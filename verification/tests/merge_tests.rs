//! Tests for the I/O merge planner.

use blobcache::device::{BlobInfo, BlobIoDesc, ChunkInfo, BLOB_FEATURE_V5_NO_EXT_BLOB_TABLE};
use blobcache::merge::BlobIoMergeState;

fn chunk(index: u32, compressed_offset: u64, compressed_size: u32, uncompressed_offset: u64) -> ChunkInfo {
    ChunkInfo {
        index,
        blob_index: 1,
        compressed_offset,
        compressed_size,
        uncompressed_offset,
        uncompressed_size: 0x1000,
        is_compressed: false,
        digest: [0u8; 32],
    }
}

fn desc(chunkinfo: ChunkInfo) -> BlobIoDesc {
    BlobIoDesc { blob_index: 1, chunkinfo, offset: 0, size: 0x1000, user_io: true }
}

#[test]
fn test_io_merge_state_new() {
    let blob_info = BlobInfo::new(
        1,
        "test1".to_owned(),
        0x200000,
        0x100000,
        0x100000,
        512,
        BLOB_FEATURE_V5_NO_EXT_BLOB_TABLE,
    );
    let chunk1 = chunk(0, 0, 0x800, 0);
    let chunk2 = chunk(1, 0x800, 0x800, 0x1000);
    let chunk3 = chunk(1, 0x1000, 0x800, 0x1000);

    let desc1 = BlobIoDesc {
        blob_index: blob_info.blob_index,
        chunkinfo: chunk1,
        offset: 0,
        size: 0x1000,
        user_io: true,
    };
    let mut state = BlobIoMergeState::new(&desc1);
    assert_eq!(state.size(), 0x800);
    assert_eq!(state.bios.len(), 1);

    let desc2 = BlobIoDesc {
        blob_index: blob_info.blob_index,
        chunkinfo: chunk2,
        offset: 0,
        size: 0x1000,
        user_io: true,
    };
    state.push(&desc2);
    assert_eq!(state.size, 0x1000);
    assert_eq!(state.bios.len(), 2);

    state.issue();
    assert_eq!(state.size(), 0x0);
    assert_eq!(state.bios.len(), 0);

    let desc3 = BlobIoDesc {
        blob_index: blob_info.blob_index,
        chunkinfo: chunk3,
        offset: 0,
        size: 0x1000,
        user_io: true,
    };
    state.push(&desc3);
    assert_eq!(state.size, 0x800);
    assert_eq!(state.bios.len(), 1);

    state.issue();
    assert_eq!(state.size(), 0x0);
    assert_eq!(state.bios.len(), 0);

    let descs = vec![desc1.clone(), desc2.clone(), desc3.clone()];
    let ranges = BlobIoMergeState::merge_and_issue(&descs, 0x4000);
    assert_eq!(ranges.len(), 1);

    let ranges = BlobIoMergeState::merge_and_issue(&descs, 0x1000);
    assert_eq!(ranges.len(), 2);

    let descs13 = vec![desc1.clone(), desc3.clone()];
    let ranges = BlobIoMergeState::merge_and_issue(&descs13, 0x4000);
    assert_eq!(ranges.len(), 2);

    assert!(desc1.is_continuous(&desc2, 0));
    assert!(!desc1.is_continuous(&desc3, 0));
}

#[test]
fn test_merge_contiguous() {
    let descs = vec![
        desc(chunk(0, 0, 0x800, 0)),
        desc(chunk(1, 0x800, 0x800, 0x1000)),
        desc(chunk(2, 0x1000, 0x800, 0x2000)),
    ];
    let ranges = BlobIoMergeState::merge_and_issue(&descs, 0x4000);
    assert_eq!(ranges.len(), 1);
    assert_eq!(ranges[0].blob_offset, 0);
    assert_eq!(ranges[0].blob_size, 0x1800);
    assert_eq!(ranges[0].chunks.len(), 3);
    assert_eq!(ranges[0].chunks[0].index, 0);
    assert_eq!(ranges[0].chunks[1].index, 1);
    assert_eq!(ranges[0].chunks[2].index, 2);
}

#[test]
fn test_merge_capped() {
    let descs = vec![
        desc(chunk(0, 0, 0x800, 0)),
        desc(chunk(1, 0x800, 0x800, 0x1000)),
        desc(chunk(2, 0x1000, 0x800, 0x2000)),
    ];
    let ranges = BlobIoMergeState::merge_and_issue(&descs, 0x1000);
    assert_eq!(ranges.len(), 2);
    assert_eq!(ranges[0].blob_offset, 0);
    assert_eq!(ranges[0].blob_size, 0x1000);
    assert_eq!(ranges[0].chunks.len(), 2);
    assert_eq!(ranges[1].blob_offset, 0x1000);
    assert_eq!(ranges[1].blob_size, 0x800);
    assert_eq!(ranges[1].chunks.len(), 1);
}

#[test]
fn test_discontinuity_split() {
    let descs = vec![desc(chunk(0, 0, 0x800, 0)), desc(chunk(1, 0x1000, 0x800, 0x1000))];
    let ranges = BlobIoMergeState::merge_and_issue(&descs, 0x4000);
    assert_eq!(ranges.len(), 2);
    assert_eq!(ranges[0].blob_offset, 0);
    assert_eq!(ranges[0].blob_size, 0x800);
    assert_eq!(ranges[1].blob_offset, 0x1000);
    assert_eq!(ranges[1].blob_size, 0x800);
}

#[test]
fn test_empty_descriptor_list() {
    let descs: Vec<BlobIoDesc> = Vec::new();
    let ranges = BlobIoMergeState::merge_and_issue(&descs, 0x100000);
    assert_eq!(ranges.len(), 0);
}

#[test]
fn test_max_bytes_zero_one_range_per_descriptor() {
    let descs = vec![
        desc(chunk(0, 0, 0x800, 0)),
        desc(chunk(1, 0x800, 0x800, 0x1000)),
        desc(chunk(2, 0x1000, 0x800, 0x2000)),
    ];
    let ranges = BlobIoMergeState::merge_and_issue(&descs, 0);
    assert_eq!(ranges.len(), 3);
    for (i, r) in ranges.iter().enumerate() {
        assert_eq!(r.chunks.len(), 1);
        assert_eq!(r.chunks[0].index, i as u32);
        assert_eq!(r.blob_size, 0x800);
    }
}

#[test]
fn test_merge_covers_input_in_order() {
    let descs = vec![
        desc(chunk(0, 0, 0x200, 0)),
        desc(chunk(1, 0x200, 0x300, 0x1000)),
        desc(chunk(2, 0x600, 0x100, 0x2000)),
        desc(chunk(3, 0x700, 0x100, 0x3000)),
    ];
    let ranges = BlobIoMergeState::merge_and_issue(&descs, 0x10000);
    let mut covered: Vec<u32> = Vec::new();
    for r in &ranges {
        // Within one range, consecutive chunks are continuous: no gap.
        for w in r.chunks.windows(2) {
            assert_eq!(w[0].compressed_offset + w[0].compressed_size as u64, w[1].compressed_offset);
        }
        for c in &r.chunks {
            covered.push(c.index);
        }
    }
    assert_eq!(covered, vec![0, 1, 2, 3]);
    assert_eq!(ranges.len(), 2);
}
