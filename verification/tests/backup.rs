use helix::backup::engine::{BackupEngine, DetectAction, DetectEvent};
use helix::backup::full::FullBackup;
use helix::backup::incremental::IncrementalBackup;
use helix::block::hasher::BlockHasher;
use helix::repository::layout::BackupSnapshot;

fn snap(id: &str, kind: &str) -> BackupSnapshot {
    BackupSnapshot {
        id: id.to_string(),
        timestamp: String::new(),
        backup_type: kind.to_string(),
        block_count: 0,
        total_size: 0,
        label: String::new(),
        parent_id: None,
    }
}

#[test]
fn detection_steps() {
    let engine = BackupEngine::new(4096).unwrap();
    assert_eq!(engine.block_size(), 4096);
    assert!(matches!(engine.detect_step(DetectEvent::Start), DetectAction::QueryTracker));
    match engine.detect_step(DetectEvent::TrackerReported(vec![4, 2])) {
        DetectAction::Finish(v) => assert_eq!(v, vec![4, 2]),
        _ => panic!("expected the tracker's blocks"),
    }
    assert!(matches!(engine.detect_step(DetectEvent::TrackerReported(vec![])), DetectAction::ListBackups));
    match engine.detect_step(DetectEvent::BackupsListed(vec![snap("full-1", "full"), snap("incremental-2", "incremental")])) {
        DetectAction::LoadManifest(id) => assert_eq!(id, "full-1"),
        _ => panic!("expected a manifest load"),
    }
    match engine.detect_step(DetectEvent::BackupsListed(vec![snap("incremental-2", "incremental")])) {
        DetectAction::Finish(v) => assert!(v.is_empty()),
        _ => panic!("expected no blocks"),
    }
    match engine.detect_step(DetectEvent::ManifestLoaded(vec![])) {
        DetectAction::Finish(v) => assert!(v.is_empty()),
        _ => panic!("expected no blocks"),
    }
    let hasher = BlockHasher::new();
    let hashes = vec![hasher.hash_block_with_number(0, &[1u8; 8])];
    assert!(matches!(engine.detect_step(DetectEvent::ManifestLoaded(hashes)), DetectAction::ReadAllBlocks));
}

#[test]
fn hash_comparison_finds_changed_blocks() {
    let engine = BackupEngine::new(4096).unwrap();
    let hasher = BlockHasher::new();
    let hashes = vec![
        hasher.hash_block_with_number(0, &[0u8; 8]),
        hasher.hash_block_with_number(1, &[1u8; 8]),
        hasher.hash_block_with_number(1, &[9u8; 8]),
    ];
    let blocks = vec![(0u64, vec![0u8; 8]), (1, vec![1u8; 8]), (2, vec![2u8; 8])];
    assert_eq!(engine.changed_blocks_by_hash(&hashes, &blocks), vec![1, 2]);
    match engine.detect_step(DetectEvent::BlocksRead(hashes, blocks)) {
        DetectAction::Finish(v) => assert_eq!(v, vec![1, 2]),
        _ => panic!("expected the changed blocks"),
    }
}

#[test]
fn labels_and_block_hashes() {
    let engine = BackupEngine::new(512).unwrap();
    assert_eq!(engine.backup_label(None, false), "full-backup");
    assert_eq!(engine.backup_label(None, true), "incremental-backup");
    assert_eq!(engine.backup_label(Some("mine"), true), "mine");
    let blocks = vec![(0u64, vec![1u8; 512]), (7, vec![2u8; 100])];
    let full = FullBackup::new(512).block_hashes(&blocks);
    assert_eq!(full.len(), 2);
    assert_eq!(full[1].block_number, 7);
    assert_eq!(full[1].block_size, 100);
    let inc = IncrementalBackup::new(512);
    assert!(!inc.has_changes(&[]));
    assert!(inc.has_changes(&[3]));
    assert_eq!(inc.block_hashes(&blocks), full);
}
