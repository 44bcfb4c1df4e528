use helix::block::mapper::{ChangeMap, FileBlockMapper};

#[test]
fn test_block_range() {
    let mapper = FileBlockMapper::new(4096);
    assert_eq!(mapper.file_to_block_range(0, 100), (0, 0));
    assert_eq!(mapper.file_to_block_range(0, 4096), (0, 0));
    assert_eq!(mapper.file_to_block_range(0, 4097), (0, 1));
    assert_eq!(mapper.file_to_block_range(4096, 1), (1, 1));
}

#[test]
fn test_blocks_for_size() {
    let mapper = FileBlockMapper::new(4096);
    assert_eq!(mapper.blocks_for_size(0), 0);
    assert_eq!(mapper.blocks_for_size(1), 1);
    assert_eq!(mapper.blocks_for_size(4096), 1);
    assert_eq!(mapper.blocks_for_size(4097), 2);
}

#[test]
fn test_change_map() {
    let mut cm = ChangeMap::new(4096);
    cm.record_change(0, vec![0; 4096]);
    cm.record_change(5, vec![1; 4096]);
    assert_eq!(cm.changed_block_count(), 2);
}

#[test]
fn offset_splits_into_block_and_position() {
    let mapper = FileBlockMapper::new(512);
    let offset = 5000u64;
    let (start, _) = mapper.file_to_block_range(offset, 1);
    assert_eq!(start, 9);
    assert_eq!(mapper.offset_in_block(offset), 392);
    assert_eq!(mapper.block_to_offset(start) + mapper.offset_in_block(offset), offset);
}

#[test]
fn block_to_offset_multiplies() {
    let mapper = FileBlockMapper::new(4096);
    assert_eq!(mapper.block_to_offset(0), 0);
    assert_eq!(mapper.block_to_offset(3), 12288);
}

#[test]
fn set_file_size_keeps_block_size() {
    let mut mapper = FileBlockMapper::new(1024);
    mapper.set_file_size(10_000);
    assert_eq!(mapper.blocks_for_size(10_000), 10);
}

#[test]
fn change_map_replaces_and_sums() {
    let mut cm = ChangeMap::new(4096);
    cm.record_change(7, vec![1; 10]);
    cm.record_change(2, vec![2; 5]);
    cm.record_change(7, vec![3; 3]);
    assert_eq!(cm.changed_block_count(), 2);
    assert_eq!(cm.total_changed_data_size(), 8);
    let keys: Vec<u64> = cm.get_changed_blocks().keys().copied().collect();
    assert_eq!(keys, vec![2, 7]);
    assert_eq!(cm.get_changed_blocks().get(&7), Some(&vec![3u8; 3]));
}

#[test]
fn change_map_clear_and_into() {
    let mut cm = ChangeMap::new(512);
    cm.record_change(1, vec![9; 4]);
    cm.clear();
    assert_eq!(cm.changed_block_count(), 0);
    assert_eq!(cm.total_changed_data_size(), 0);
    cm.record_change(4, vec![1, 2]);
    let m = cm.into_changed_blocks();
    assert_eq!(m.len(), 1);
    assert_eq!(m.get(&4), Some(&vec![1u8, 2]));
}

#[test]
fn empty_range_after_the_start() {
    let mapper = FileBlockMapper::new(4096);
    assert_eq!(mapper.file_to_block_range(4096, 0), (1, 0));
    assert_eq!(mapper.file_to_block_range(5000, 0), (1, 1));
}
