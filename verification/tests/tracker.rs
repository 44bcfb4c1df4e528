use helix::tracker::bitmap::BitmapTracker;
use helix::tracker::linux::DmEraTracker;
use helix::tracker::macos::FseventsTracker;
use helix::tracker::ordered::sorted_members;
use helix::tracker::{create_tracker, ChangeTracker, PlatformTracker};
use helix::HelixError;
use std::collections::BTreeSet;

#[test]
fn test_bitmap_basic() {
    let mut tracker = BitmapTracker::new(4096).unwrap();
    tracker.mark_dirty(10);
    tracker.mark_dirty(20);
    tracker.mark_dirty(30);

    let blocks = tracker.get_changed_blocks(None).unwrap();
    assert_eq!(blocks.len(), 3);
    assert!(blocks.contains(&10));
}

#[test]
fn test_checkpoint_clears() {
    let mut tracker = BitmapTracker::new(4096).unwrap();
    tracker.mark_dirty(5);
    let cp = tracker.create_checkpoint().unwrap();
    assert_eq!(cp.block_count, 1);

    let blocks = tracker.get_changed_blocks(None).unwrap();
    assert!(blocks.is_empty());
}

#[test]
fn bitmap_lists_in_order_once() {
    let mut t = BitmapTracker::new(512).unwrap();
    t.mark_dirty(9);
    t.mark_range_dirty(3, 5);
    t.mark_dirty(4);
    t.mark_range_dirty(8, 7);
    assert_eq!(t.get_changed_blocks(None).unwrap(), vec![3, 4, 5, 9]);
    t.mark_range_dirty(u64::MAX - 1, u64::MAX);
    assert_eq!(t.get_changed_blocks(None).unwrap(), vec![3, 4, 5, 9, u64::MAX - 1, u64::MAX]);
}

#[test]
fn bitmap_checkpoints_and_reset() {
    let mut t = BitmapTracker::new(4096).unwrap();
    assert!(t.get_current_checkpoint().unwrap().is_none());
    t.mark_range_dirty(0, 9);
    t.set_total_blocks(100);
    let cp = t.create_checkpoint().unwrap();
    assert_eq!(cp.block_count, 10);
    assert_eq!(cp.tracking_method, "bitmap");
    assert_eq!(cp.id.len(), 36);
    let current = t.get_current_checkpoint().unwrap().unwrap();
    assert_eq!(current.id, cp.id);
    t.mark_dirty(1);
    t.reset_tracking().unwrap();
    assert!(t.get_changed_blocks(None).unwrap().is_empty());
    assert_eq!(t.get_current_checkpoint().unwrap().unwrap().id, cp.id);
}

#[test]
fn sorted_members_of_a_set() {
    let s: BTreeSet<u64> = [5u64, 1, 3].into_iter().collect();
    assert_eq!(sorted_members(&s), vec![1, 3, 5]);
}

#[test]
fn dm_era_without_devices_reports_nothing() {
    let mut t = DmEraTracker::new().unwrap();
    assert!(t.get_changed_blocks(None).unwrap().is_empty());
    let cp = t.create_checkpoint().unwrap();
    assert_eq!(cp.tracking_method, "dm-era");
    assert_eq!(cp.block_count, 0);
    assert!(t.reset_tracking().is_ok());
    assert!(t.get_current_checkpoint().unwrap().is_none());
}

#[test]
fn dm_era_devices_are_found_by_name() {
    let entries = vec![
        ("root".to_string(), "/dev/mapper/root".to_string()),
        ("data-era".to_string(), "/dev/mapper/data-era".to_string()),
        ("era".to_string(), "/dev/mapper/era".to_string()),
        ("x-era-y".to_string(), "/dev/mapper/x-era-y".to_string()),
    ];
    assert_eq!(
        DmEraTracker::find_dm_era_devices(&entries),
        vec!["/dev/mapper/data-era".to_string(), "/dev/mapper/x-era-y".to_string()]
    );
    let mut t = DmEraTracker::new().unwrap();
    t.refresh_devices(&entries);
    match t.get_changed_blocks(None) {
        Err(HelixError::Unsupported(m)) => assert_eq!(
            m,
            "dm-era query not implemented. Requires kernel support and appropriate permissions."
        ),
        other => panic!("unexpected {:?}", other),
    }
}

#[test]
fn fsevents_watches_each_path_once() {
    let mut t = FseventsTracker::new().unwrap();
    t.watch_path("/a").unwrap();
    t.watch_path("/b").unwrap();
    t.watch_path("/a").unwrap();
    assert!(t.get_changed_blocks(None).unwrap().is_empty());
    let cp = t.create_checkpoint().unwrap();
    assert_eq!(cp.tracking_method, "fsevents");
    assert_eq!(cp.block_count, 0);
    assert!(t.get_current_checkpoint().unwrap().is_none());
}

#[test]
fn platform_trackers() {
    assert!(matches!(create_tracker("linux").unwrap(), PlatformTracker::DmEra(_)));
    assert!(matches!(create_tracker("macos").unwrap(), PlatformTracker::Fsevents(_)));
    let mut t = create_tracker("windows").unwrap();
    assert!(matches!(t, PlatformTracker::Bitmap(_)));
    let cp = t.create_checkpoint().unwrap();
    assert_eq!(cp.tracking_method, "bitmap");
    assert_eq!(cp.block_count, 0);
    assert!(t.get_changed_blocks(None).unwrap().is_empty());
}

#[test]
fn checkpoint_ids_are_version_four_uuids() {
    let mut t = BitmapTracker::new(4096).unwrap();
    let id = t.create_checkpoint().unwrap().id;
    let c: Vec<char> = id.chars().collect();
    assert_eq!(c[14], '4');
    assert!(matches!(c[19], '8' | '9' | 'a' | 'b'));
}
