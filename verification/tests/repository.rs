use helix::block::hasher::BlockHasher;
use helix::repository::block_records::{blocks_map_from_bytes, decode_block_records, encode_block_records};
use helix::repository::layout::{
    latest_full_id, list_backups, new_snapshot_id, restore_chain_ends, snapshot_subdir, sort_by_time, BackupSnapshot,
    Repository,
};
use helix::repository::manifest::Manifest;
use helix::HelixError;

fn snap(id: &str, ts: &str, kind: &str, parent: Option<&str>) -> BackupSnapshot {
    BackupSnapshot {
        id: id.to_string(),
        timestamp: ts.to_string(),
        backup_type: kind.to_string(),
        block_count: 0,
        total_size: 0,
        label: String::new(),
        parent_id: parent.map(|p| p.to_string()),
    }
}

#[test]
fn records_round_trip() {
    let blocks = vec![(3u64, vec![1u8, 2, 3]), (0, vec![]), (3, vec![9])];
    let bytes = encode_block_records(&blocks);
    assert_eq!(bytes.len(), 12 * 3 + 4);
    assert_eq!(&bytes[..12], &[3, 0, 0, 0, 0, 0, 0, 0, 3, 0, 0, 0]);
    assert_eq!(decode_block_records(&bytes), blocks);
    let map = blocks_map_from_bytes(&bytes);
    assert_eq!(map.len(), 2);
    assert_eq!(map.get(&3), Some(&vec![9u8]));
}

#[test]
fn decoding_stops_at_a_torn_record() {
    let mut bytes = encode_block_records(&[(1, vec![5u8; 4])]);
    bytes.extend_from_slice(&[2, 0, 0, 0, 0, 0, 0, 0, 100, 0, 0, 0, 1, 2]);
    assert_eq!(decode_block_records(&bytes), vec![(1u64, vec![5u8; 4])]);
    assert!(decode_block_records(&[1, 2, 3]).is_empty());
}

#[test]
fn restore_chain_follows_parents() {
    let repo = Repository::from_parts("/repo".to_string(), 4096);
    let links = vec![
        ("full-1".to_string(), None),
        ("incremental-2".to_string(), Some("full-1".to_string())),
        ("incremental-3".to_string(), Some("incremental-2".to_string())),
    ];
    assert_eq!(
        repo.build_restore_chain("incremental-3", &links).unwrap(),
        vec!["full-1".to_string(), "incremental-2".to_string(), "incremental-3".to_string()]
    );
    assert_eq!(repo.build_restore_chain("full-1", &links).unwrap(), vec!["full-1".to_string()]);
    match repo.build_restore_chain("nope", &links) {
        Err(HelixError::NotFound(m)) => assert_eq!(m, "Snapshot 'nope' not found"),
        other => panic!("unexpected {:?}", other),
    }
    let broken = vec![("incremental-9".to_string(), Some("full-0".to_string()))];
    match repo.build_restore_chain("incremental-9", &broken) {
        Err(HelixError::NotFound(m)) => assert_eq!(m, "Snapshot 'full-0' not found"),
        other => panic!("unexpected {:?}", other),
    }
    let circle = vec![("a".to_string(), Some("b".to_string())), ("b".to_string(), Some("a".to_string()))];
    assert!(!restore_chain_ends("a", &circle));
    assert!(restore_chain_ends("incremental-3", &links));
    assert!(restore_chain_ends("nope", &links));
    assert!(restore_chain_ends("incremental-9", &broken));
}

#[test]
fn latest_full_backup() {
    let list = vec![
        snap("full-a", "1", "full", None),
        snap("full-b", "2", "full", None),
        snap("incremental-c", "3", "incremental", Some("full-b")),
    ];
    assert_eq!(latest_full_id(&list), Some("full-b".to_string()));
    assert_eq!(latest_full_id(&vec![snap("incremental-x", "1", "incremental", None)]), None);
}

#[test]
fn snapshot_ids_and_directories() {
    let id = new_snapshot_id("full");
    assert_eq!(id.len(), 13);
    assert!(id.starts_with("full-"));
    assert!(id[5..].chars().all(|c| c.is_ascii_hexdigit() && !c.is_ascii_uppercase()));
    assert_eq!(snapshot_subdir("full"), "Full");
    assert_eq!(snapshot_subdir("incremental"), "Incremental");
}

#[test]
fn create_snapshot_plans_parent() {
    let repo = Repository::from_parts("/repo".to_string(), 8192);
    let existing = vec![snap("full-1", "2024", "full", None), snap("incremental-2", "2025", "incremental", Some("full-1"))];
    let plan = repo.create_snapshot("nightly", "incremental", &existing);
    assert!(plan.id.starts_with("incremental-"));
    assert_eq!(plan.subdir, "Incremental");
    assert_eq!(plan.snapshot.parent_id.as_deref(), Some("full-1"));
    assert_eq!(plan.manifest.parent_id.as_deref(), Some("full-1"));
    assert_eq!(plan.manifest.block_size, 8192);
    assert_eq!(plan.manifest.label, "nightly");
    assert_eq!(plan.manifest.snapshot_id, plan.id);
    let full = repo.create_snapshot("base", "full", &existing);
    assert_eq!(full.subdir, "Full");
    assert!(full.snapshot.parent_id.is_none());
}

#[test]
fn listing_is_ordered_by_time_and_stable() {
    let sorted = sort_by_time(vec![
        snap("c", "2024-03", "full", None),
        snap("a", "2024-01", "full", None),
        snap("b1", "2024-02", "full", None),
        snap("b2", "2024-02", "incremental", None),
    ]);
    let ids: Vec<&str> = sorted.iter().map(|s| s.id.as_str()).collect();
    assert_eq!(ids, vec!["a", "b1", "b2", "c"]);

    let mut m1 = Manifest::new("full-1", "full", 4096);
    m1.created_at = "2024-05-01".to_string();
    m1.label = "x".to_string();
    let mut m2 = Manifest::new("incremental-2", "incremental", 4096);
    m2.created_at = "2024-04-01".to_string();
    m2.parent_id = Some("full-1".to_string());
    let listing = list_backups(&vec![m1], &vec![m2]);
    assert_eq!(listing.len(), 2);
    assert_eq!(listing[0].id, "incremental-2");
    assert_eq!(listing[0].backup_type, "incremental");
    assert_eq!(listing[0].parent_id.as_deref(), Some("full-1"));
    assert_eq!(listing[1].backup_type, "full");
    assert_eq!(listing[1].label, "x");
}

#[test]
fn validation_reports_missing_files() {
    let repo = Repository::from_parts("/repo".to_string(), 4096);
    let list = vec![snap("full-1", "1", "full", None), snap("incremental-2", "2", "incremental", None)];
    let ok = repo.validate(false, true, &list, &vec![true, true]).unwrap();
    assert!(ok.is_ok());
    assert!(ok.issues().is_empty());
    let bad = repo.validate(true, false, &list, &vec![true, false]).unwrap();
    assert!(!bad.is_ok());
    assert_eq!(
        bad.issues(),
        &["metadata.json not found".to_string(), "Missing manifest for snapshot: incremental-2".to_string()]
    );
}

#[test]
fn manifest_accumulates_hashes() {
    let hasher = BlockHasher::new();
    let mut m = Manifest::new("full-1", "full", 4096);
    assert_eq!(m.version, 1);
    assert!(!m.completed);
    m.add_block_hash(hasher.hash_block_with_number(0, &[1u8; 100]));
    m.add_block_hash(hasher.hash_block_with_number(1, &[1u8; 50]));
    assert_eq!(m.block_count, 2);
    assert_eq!(m.total_size, 150);
    m.store_block_hashes(&[hasher.hash_block_with_number(2, &[0u8; 10])]);
    assert_eq!(m.block_count, 3);
    assert_eq!(m.block_hashes[2].block_number, 2);
    m.finalize();
    assert!(m.completed);
    assert_eq!(Repository::from_parts("/r".to_string(), 512).block_size(), 512);
}

#[test]
fn hidden_entries_do_not_block_initialisation() {
    let hidden = vec![".git".to_string(), ".keep".to_string()];
    assert!(helix::repository::layout::only_hidden_entries(&hidden));
    assert!(helix::repository::layout::only_hidden_entries(&vec![]));
    let visible = vec![".git".to_string(), "data".to_string()];
    assert!(!helix::repository::layout::only_hidden_entries(&visible));
    assert!(!helix::repository::layout::only_hidden_entries(&vec![String::new()]));
}

#[test]
fn repository_metadata_counts_snapshots() {
    let mut m = helix::repository::layout::RepositoryMetadata::new(5, true);
    assert_eq!(m.version, 1);
    assert_eq!(m.block_size, 4096);
    assert_eq!(m.compression_level, 5);
    assert!(m.encrypted);
    assert_eq!(m.total_snapshots, 0);
    m.record_snapshot();
    m.record_snapshot();
    assert_eq!(m.total_snapshots, 2);
}
