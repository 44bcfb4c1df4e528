use helix::repository::block_records::encode_block_records;
use helix::repository::layout::BackupSnapshot;
use helix::restore::engine::{RestoreEngine, RestoreKind};
use helix::restore::full::FullRestore;
use helix::restore::incremental::IncrementalRestore;
use helix::HelixError;

fn snap(id: &str, kind: &str) -> BackupSnapshot {
    BackupSnapshot {
        id: id.to_string(),
        timestamp: String::new(),
        backup_type: kind.to_string(),
        block_count: 0,
        total_size: 0,
        label: String::new(),
        parent_id: None,
    }
}

#[test]
fn full_restore_writes_in_block_order() {
    let data = encode_block_records(&[(9, vec![1]), (2, vec![2]), (9, vec![3])]);
    let writes = FullRestore.block_writes(&data);
    assert_eq!(writes, vec![(2u64, vec![2u8]), (9, vec![3])]);
}

#[test]
fn incremental_restore_applies_chain_in_order() {
    let base = encode_block_records(&[(0, vec![0]), (1, vec![1]), (2, vec![2])]);
    let later = encode_block_records(&[(1, vec![11]), (5, vec![55])]);
    let writes = IncrementalRestore.block_writes(&vec![base, later]);
    assert_eq!(
        writes,
        vec![(0u64, vec![0u8]), (1, vec![1]), (2, vec![2]), (1, vec![11]), (5, vec![55])]
    );
    let mut image = std::collections::BTreeMap::new();
    for (b, d) in writes {
        image.insert(b, d);
    }
    assert_eq!(image.get(&1), Some(&vec![11u8]));
    assert_eq!(image.len(), 4);
}

#[test]
fn restore_point_selection() {
    let engine = RestoreEngine::new().unwrap();
    let list = vec![snap("full-1", "full"), snap("incremental-2", "incremental")];
    assert_eq!(
        engine.select_restore(None, &list).unwrap(),
        Some(("incremental-2".to_string(), RestoreKind::Incremental))
    );
    assert_eq!(
        engine.select_restore(Some("latest"), &list).unwrap(),
        Some(("incremental-2".to_string(), RestoreKind::Incremental))
    );
    assert_eq!(engine.select_restore(Some("full-1"), &list).unwrap(), Some(("full-1".to_string(), RestoreKind::Full)));
    match engine.select_restore(Some("x"), &list) {
        Err(HelixError::NotFound(m)) => assert_eq!(m, "Snapshot 'x' not found"),
        other => panic!("unexpected {:?}", other),
    }
    match engine.select_restore(None, &vec![]) {
        Err(HelixError::NotFound(m)) => assert_eq!(m, "No backup snapshots found"),
        other => panic!("unexpected {:?}", other),
    }
    assert_eq!(engine.select_restore(None, &vec![snap("odd-1", "odd")]).unwrap(), None);
    assert_eq!(
        engine.select_restore(Some("odd-1"), &vec![snap("odd-1", "odd")]).unwrap(),
        Some(("odd-1".to_string(), RestoreKind::Incremental))
    );
}
