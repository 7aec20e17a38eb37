use chrono::{TimeZone, Utc};
use photo_viewer::apply_to_media_list::{
    apply_to_media_list, find_uri, ui_media_list_cap, ChangeSource, DomainEvent, ListConfig,
};
use photo_viewer::calendar::Timestamp;
use photo_viewer::media::{
    compare_media_order, section_key_for_item, thumbnail_request_mtime, GroupBy, MediaItem,
    MediaOrder,
};
use photo_viewer::media_list::{media_item_at, MediaList};

fn item(id: i64, uri: &str) -> MediaItem {
    item_at(id, uri, 2026, 6, 25, 12)
}

fn item_at(id: i64, uri: &str, year: i32, month: u32, day: u32, hour: u32) -> MediaItem {
    let dt = Utc.with_ymd_and_hms(year, month, day, hour, 0, 0).unwrap();
    MediaItem {
        id,
        uri: uri.to_string(),
        path: uri.trim_start_matches("file://").to_string(),
        folder_path: "/tmp".to_string(),
        mime_type: "image/jpeg".to_string(),
        media_subkind: "standard".to_string(),
        media_attributes: "{}".to_string(),
        width: Some(64),
        height: Some(48),
        video_duration_secs: None,
        taken_at: None,
        file_mtime: Timestamp::new(dt.timestamp(), 0).unwrap(),
        file_size: 1,
        blake3_hash: "h".to_string(),
        is_favorite: false,
        trashed_at: None,
    }
}

fn list_with(items: Vec<MediaItem>) -> MediaList {
    let mut list = MediaList::new();
    for it in items {
        list.append(it);
    }
    list.clear_edits();
    list
}

fn nth_uri(list: &MediaList, idx: u32) -> String {
    list.item(idx).unwrap().uri.clone()
}

fn cap() -> u32 {
    ui_media_list_cap(&ListConfig { ui_media_list_cap: 10_000 })
}

fn upsert(list: &mut MediaList, source: ChangeSource, items: Vec<MediaItem>) {
    apply_to_media_list(list, &DomainEvent::MediaUpserted { source, items }, cap());
}

fn remove(list: &mut MediaList, source: ChangeSource, uris: Vec<String>) {
    apply_to_media_list(list, &DomainEvent::MediaRemoved { source, ids: Vec::new(), uris }, cap());
}

#[test]
fn upserted_places_older_absent_item_at_end() {
    let mut list = list_with(vec![item_at(1, "file:///tmp/a.jpg", 2026, 6, 25, 12)]);
    upsert(
        &mut list,
        ChangeSource::FilesystemWatcher,
        vec![item_at(2, "file:///tmp/b.jpg", 2026, 6, 24, 12)],
    );
    assert_eq!(list.n_items(), 2);
    assert_eq!(nth_uri(&list, 0), "file:///tmp/a.jpg");
    assert_eq!(nth_uri(&list, 1), "file:///tmp/b.jpg");
}

#[test]
fn upserted_inserts_new_item_by_global_photo_order() {
    let mut list = list_with(vec![
        item_at(1, "file:///tmp/newer.jpg", 2026, 6, 25, 12),
        item_at(2, "file:///tmp/older.jpg", 2026, 6, 23, 12),
    ]);
    upsert(
        &mut list,
        ChangeSource::FilesystemWatcher,
        vec![item_at(3, "file:///tmp/middle.jpg", 2026, 6, 24, 12)],
    );
    assert_eq!(nth_uri(&list, 0), "file:///tmp/newer.jpg");
    assert_eq!(nth_uri(&list, 1), "file:///tmp/middle.jpg");
    assert_eq!(nth_uri(&list, 2), "file:///tmp/older.jpg");
}

#[test]
fn upserted_batch_merges_replaces_and_sorts_with_one_splice() {
    let mut list = list_with(vec![
        item_at(1, "file:///tmp/newer.jpg", 2026, 6, 25, 12),
        item_at(2, "file:///tmp/older.jpg", 2026, 6, 23, 12),
    ]);
    let mut updated = item_at(2, "file:///tmp/older.jpg", 2026, 6, 26, 12);
    updated.blake3_hash = "updated".to_string();
    upsert(
        &mut list,
        ChangeSource::UserInteractive,
        vec![item_at(3, "file:///tmp/middle.jpg", 2026, 6, 24, 12), updated],
    );
    assert_eq!(list.n_items(), 3);
    assert_eq!(nth_uri(&list, 0), "file:///tmp/older.jpg");
    assert_eq!(nth_uri(&list, 1), "file:///tmp/newer.jpg");
    assert_eq!(nth_uri(&list, 2), "file:///tmp/middle.jpg");
    assert_eq!(list.item(0).unwrap().blake3_hash, "updated");
}

#[test]
fn upserted_batch_caps_ui_model_to_recent_items() {
    let mut list = list_with(Vec::new());
    let mut items = Vec::new();
    for id in 0..(cap() as i64 + 10) {
        items.push(item_at(id, &format!("file:///tmp/{id}.jpg"), 2026, 6, 25, 12));
    }
    upsert(&mut list, ChangeSource::StartupScan, items);
    assert_eq!(list.n_items(), cap());
}

#[test]
fn startup_scan_batch_after_cap_does_not_rebuild_ui_model() {
    let initial_len = cap().saturating_sub(1).min(200);
    let mut list = list_with(
        (0..initial_len as i64)
            .map(|id| item_at(id, &format!("file:///tmp/{id}.jpg"), 2026, 6, 24, 12))
            .collect(),
    );
    upsert(
        &mut list,
        ChangeSource::StartupScan,
        vec![item_at(10_000, "file:///tmp/newest-from-scan.jpg", 2026, 6, 26, 12)],
    );
    assert_eq!(list.n_items(), initial_len + 1);
    assert_eq!(nth_uri(&list, 0), "file:///tmp/newest-from-scan.jpg");
}

#[test]
fn startup_scan_new_items_insert_without_removing_existing_rows() {
    let mut list = list_with(vec![item_at(1, "file:///tmp/existing.jpg", 2026, 6, 24, 12)]);
    upsert(
        &mut list,
        ChangeSource::StartupScan,
        vec![item_at(2, "file:///tmp/newer.jpg", 2026, 6, 25, 12)],
    );
    assert_eq!(nth_uri(&list, 0), "file:///tmp/newer.jpg");
    assert_eq!(nth_uri(&list, 1), "file:///tmp/existing.jpg");
    let removed_total: u32 = list.signals().iter().map(|signal| signal.1).sum();
    assert_eq!(
        removed_total, 0,
        "startup scan insertions should not look like a full model replacement to MediaGrid"
    );
}

#[test]
fn filesystem_watcher_new_items_insert_without_full_model_replacement() {
    let mut list = list_with(vec![
        item_at(1, "file:///tmp/existing-newer.jpg", 2026, 6, 25, 12),
        item_at(2, "file:///tmp/existing-older.jpg", 2026, 6, 23, 12),
    ]);
    upsert(
        &mut list,
        ChangeSource::FilesystemWatcher,
        vec![item_at(3, "file:///tmp/newest.jpg", 2026, 6, 26, 12)],
    );
    assert_eq!(list.n_items(), 3);
    assert_eq!(nth_uri(&list, 0), "file:///tmp/newest.jpg");
    assert_eq!(
        list.signals(),
        vec![(0, 0, 1)],
        "a watcher-only insert must not emit the full replacement that makes MediaGrid rebuild all tiles"
    );
}

#[test]
fn upserted_item_trims_ui_model_after_insert() {
    let mut list = list_with(
        (0..200)
            .map(|id| item_at(id, &format!("file:///tmp/{id}.jpg"), 2026, 6, 24, 12))
            .collect(),
    );
    upsert(
        &mut list,
        ChangeSource::FilesystemWatcher,
        vec![item_at(10_000, "file:///tmp/newest.jpg", 2026, 6, 26, 12)],
    );
    assert_eq!(list.n_items(), 201);
    assert_eq!(nth_uri(&list, 0), "file:///tmp/newest.jpg");
}

#[test]
fn upserted_replaces_in_place_when_uri_present() {
    let mut list = list_with(vec![
        item(1, "file:///tmp/a.jpg"),
        item(2, "file:///tmp/b.jpg"),
        item(3, "file:///tmp/c.jpg"),
    ]);
    let mut updated = item(2, "file:///tmp/b.jpg");
    updated.blake3_hash = "new-hash".to_string();
    upsert(&mut list, ChangeSource::FilesystemWatcher, vec![updated]);
    assert_eq!(list.n_items(), 3, "upsert must not change list length");
    assert_eq!(nth_uri(&list, 1), "file:///tmp/b.jpg");
    assert_eq!(list.item(1).unwrap().blake3_hash, "new-hash");
}

#[test]
fn upserted_existing_item_does_not_emit_full_model_replacement() {
    let mut list = list_with(vec![
        item(1, "file:///tmp/a.jpg"),
        item(2, "file:///tmp/b.jpg"),
        item(3, "file:///tmp/c.jpg"),
    ]);
    let mut updated = item(2, "file:///tmp/b.jpg");
    updated.blake3_hash = "new-hash".to_string();
    upsert(&mut list, ChangeSource::FilesystemWatcher, vec![updated]);
    assert_eq!(
        list.signals(),
        vec![(1, 1, 0), (1, 0, 1)],
        "updating one existing URI should remove/insert that row only, not replace the full visible model"
    );
}

#[test]
fn upserted_moves_existing_item_when_sort_time_changes() {
    let mut list = list_with(vec![
        item_at(1, "file:///tmp/a.jpg", 2026, 6, 25, 12),
        item_at(2, "file:///tmp/b.jpg", 2026, 6, 24, 12),
        item_at(3, "file:///tmp/c.jpg", 2026, 6, 23, 12),
    ]);
    let mut updated = item_at(3, "file:///tmp/c.jpg", 2026, 6, 26, 12);
    updated.blake3_hash = "new-hash".to_string();
    upsert(&mut list, ChangeSource::FilesystemWatcher, vec![updated]);
    assert_eq!(list.n_items(), 3);
    assert_eq!(nth_uri(&list, 0), "file:///tmp/c.jpg");
    assert_eq!(nth_uri(&list, 1), "file:///tmp/a.jpg");
    assert_eq!(nth_uri(&list, 2), "file:///tmp/b.jpg");
    assert_eq!(list.item(0).unwrap().blake3_hash, "new-hash");
}

#[test]
fn removed_deletes_when_uri_present() {
    let mut list = list_with(vec![item(1, "file:///tmp/a.jpg"), item(2, "file:///tmp/b.jpg")]);
    remove(&mut list, ChangeSource::FilesystemWatcher, vec!["file:///tmp/b.jpg".to_string()]);
    assert_eq!(list.n_items(), 1);
    assert_eq!(nth_uri(&list, 0), "file:///tmp/a.jpg");
}

#[test]
fn removed_is_noop_when_uri_absent() {
    let mut list = list_with(vec![item(1, "file:///tmp/a.jpg")]);
    remove(
        &mut list,
        ChangeSource::FilesystemWatcher,
        vec!["file:///tmp/missing.jpg".to_string()],
    );
    assert_eq!(list.n_items(), 1);
    assert_eq!(nth_uri(&list, 0), "file:///tmp/a.jpg");
}

#[test]
fn removed_batch_deletes_contiguous_block_with_one_splice() {
    let mut list = list_with(vec![
        item(1, "file:///tmp/a.jpg"),
        item(2, "file:///tmp/b.jpg"),
        item(3, "file:///tmp/c.jpg"),
        item(4, "file:///tmp/d.jpg"),
    ]);
    remove(
        &mut list,
        ChangeSource::StartupScan,
        vec![
            "file:///tmp/b.jpg".to_string(),
            "file:///tmp/c.jpg".to_string(),
            "file:///tmp/elsewhere.jpg".to_string(),
        ],
    );
    assert_eq!(list.n_items(), 2);
    assert_eq!(nth_uri(&list, 0), "file:///tmp/a.jpg");
    assert_eq!(nth_uri(&list, 1), "file:///tmp/d.jpg");
    assert_eq!(
        list.signals(),
        vec![(1, 2, 0)],
        "a contiguous removal block must coalesce into one items-changed emission"
    );
}

#[test]
fn removed_batch_deletes_scattered_items_preserving_order() {
    let mut list = list_with(vec![
        item(1, "file:///tmp/a.jpg"),
        item(2, "file:///tmp/b.jpg"),
        item(3, "file:///tmp/c.jpg"),
        item(4, "file:///tmp/d.jpg"),
        item(5, "file:///tmp/e.jpg"),
    ]);
    remove(
        &mut list,
        ChangeSource::FilesystemWatcher,
        vec![
            "file:///tmp/a.jpg".to_string(),
            "file:///tmp/c.jpg".to_string(),
            "file:///tmp/e.jpg".to_string(),
        ],
    );
    assert_eq!(list.n_items(), 2);
    assert_eq!(nth_uri(&list, 0), "file:///tmp/b.jpg");
    assert_eq!(nth_uri(&list, 1), "file:///tmp/d.jpg");
}

#[test]
fn removed_batch_is_noop_and_emits_nothing_when_none_match() {
    let mut list = list_with(vec![item(1, "file:///tmp/a.jpg"), item(2, "file:///tmp/b.jpg")]);
    let uris: Vec<String> = (0..50_000).map(|i| format!("file:///tmp/gone/{i}.jpg")).collect();
    remove(&mut list, ChangeSource::StartupScan, uris);
    assert_eq!(list.n_items(), 2, "no visible item matched, list unchanged");
    assert!(
        list.signals().is_empty(),
        "a no-op removal must not emit any items-changed (no per-uri churn)"
    );
}

#[test]
fn full_list_ignores_startup_scan_batches() {
    let mut list = list_with(vec![item_at(1, "a", 2026, 6, 24, 12), item_at(2, "b", 2026, 6, 23, 12)]);
    let event = DomainEvent::MediaUpserted {
        source: ChangeSource::StartupScan,
        items: vec![item_at(3, "c", 2026, 6, 26, 12)],
    };
    apply_to_media_list(&mut list, &event, 2);
    assert_eq!(list.n_items(), 2);
    assert!(list.signals().is_empty());
}

#[test]
fn watcher_batches_push_the_oldest_item_out_of_a_full_list() {
    let mut list = list_with(vec![item_at(1, "a", 2026, 6, 24, 12), item_at(2, "b", 2026, 6, 23, 12)]);
    let event = DomainEvent::MediaUpserted {
        source: ChangeSource::FilesystemWatcher,
        items: vec![item_at(3, "c", 2026, 6, 26, 12)],
    };
    apply_to_media_list(&mut list, &event, 2);
    assert_eq!(list.n_items(), 2);
    assert_eq!(nth_uri(&list, 0), "c");
    assert_eq!(nth_uri(&list, 1), "a");
}

#[test]
fn trashed_items_leave_the_list_and_other_events_do_nothing() {
    let mut list = list_with(vec![item(1, "a"), item(2, "b")]);
    let trashed = DomainEvent::MediaMovedToTrash {
        source: ChangeSource::UserInteractive,
        items: vec![item(2, "b")],
    };
    apply_to_media_list(&mut list, &trashed, cap());
    assert_eq!(list.n_items(), 1);
    assert_eq!(nth_uri(&list, 0), "a");
    list.clear_edits();
    apply_to_media_list(&mut list, &DomainEvent::AlbumsChanged, cap());
    apply_to_media_list(&mut list, &DomainEvent::ThumbnailStatsDirty, cap());
    assert_eq!(list.n_items(), 1);
    assert!(list.signals().is_empty());
}

#[test]
fn items_are_found_by_position_and_uri() {
    let list = list_with(vec![item(1, "a"), item(2, "b")]);
    assert_eq!(media_item_at(&list, 1).unwrap().id, 2);
    assert!(media_item_at(&list, 2).is_none());
    assert_eq!(find_uri(&list, &"b".to_string()), Some(1));
    assert_eq!(find_uri(&list, &"c".to_string()), None);
}

#[test]
fn newest_photos_come_first_and_ids_break_ties() {
    let older = item_at(1, "a", 2026, 6, 24, 12);
    let newer = item_at(2, "b", 2026, 6, 25, 12);
    let same_time = item_at(3, "c", 2026, 6, 25, 12);
    assert_eq!(compare_media_order(&newer, &older), MediaOrder::Before);
    assert_eq!(compare_media_order(&older, &newer), MediaOrder::After);
    assert_eq!(compare_media_order(&newer, &newer), MediaOrder::Same);
    assert_ne!(compare_media_order(&newer, &same_time), MediaOrder::Same);
}

#[test]
fn photos_fall_into_the_section_of_their_utc_date() {
    let mut photo = item_at(1, "a", 2024, 2, 29, 23);
    let day = section_key_for_item(&photo, GroupBy::Day);
    assert_eq!((day.year, day.month, day.day), (Some(2024), Some(2), Some(29)));
    let month = section_key_for_item(&photo, GroupBy::Month);
    assert_eq!((month.year, month.month, month.day), (Some(2024), Some(2), None));
    let year = section_key_for_item(&photo, GroupBy::Year);
    assert_eq!((year.year, year.month, year.day), (Some(2024), None, None));
    photo.taken_at = Some(Timestamp::new(-1, 999_999_999).unwrap());
    let before_epoch = section_key_for_item(&photo, GroupBy::Day);
    assert_eq!(
        (before_epoch.year, before_epoch.month, before_epoch.day),
        (Some(1969), Some(12), Some(31))
    );
}

#[test]
fn instants_that_no_date_has_are_refused() {
    assert!(Timestamp::new(i64::MAX, 0).is_none());
    assert!(Timestamp::new(0, 2_000_000_000).is_none());
    assert!(Timestamp::new(1, 0).unwrap().is_after(&Timestamp::new(0, 5).unwrap()));
}

fn indexed_photo() -> MediaItem {
    let indexed = Utc.with_ymd_and_hms(2024, 1, 2, 3, 4, 5).unwrap();
    let mut photo = item(99, "photo.jpg");
    photo.file_mtime = Timestamp::new(indexed.timestamp(), 0).unwrap();
    photo
}

#[test]
fn media_grid_thumbnail_request_mtime_uses_indexed_file_mtime_without_stat() {
    let indexed = Utc.with_ymd_and_hms(2024, 1, 2, 3, 4, 5).unwrap();
    let mtime = thumbnail_request_mtime(&indexed_photo());
    assert_eq!(
        (mtime.secs(), mtime.nanos()),
        (indexed.timestamp(), 0),
        "thumbnail requests should reuse the indexed mtime instead of stat-ing on the UI thread"
    );
}

#[test]
fn tests_thumbnail_request_mtime_uses_indexed_file_mtime_without_stat() {
    let photo = indexed_photo();
    assert!(
        thumbnail_request_mtime(&photo) == photo.file_mtime,
        "thumbnail requests should reuse the indexed mtime instead of stat-ing on the UI thread"
    );
}

#[test]
fn applying_a_batch_twice_changes_nothing_more() {
    for source in [
        ChangeSource::StartupScan,
        ChangeSource::FilesystemWatcher,
        ChangeSource::UserInteractive,
    ] {
        let batch = || {
            let mut changed = item_at(2, "file:///tmp/two.jpg", 2026, 6, 27, 12);
            changed.blake3_hash = "changed".to_string();
            vec![item_at(3, "file:///tmp/three.jpg", 2026, 6, 24, 12), changed]
        };
        let mut list = list_with(vec![
            item_at(1, "file:///tmp/one.jpg", 2026, 6, 25, 12),
            item_at(2, "file:///tmp/two.jpg", 2026, 6, 23, 12),
        ]);
        upsert(&mut list, source, batch());
        let once: Vec<(String, String)> =
            list.items().iter().map(|it| (it.uri.clone(), it.blake3_hash.clone())).collect();
        let uris: Vec<&str> = once.iter().map(|it| it.0.as_str()).collect();
        assert_eq!(
            uris,
            vec!["file:///tmp/two.jpg", "file:///tmp/one.jpg", "file:///tmp/three.jpg"]
        );
        assert_eq!(once[0].1, "changed");
        upsert(&mut list, source, batch());
        let twice: Vec<(String, String)> =
            list.items().iter().map(|it| (it.uri.clone(), it.blake3_hash.clone())).collect();
        assert_eq!(twice, once);
    }
}

#[test]
fn applying_a_batch_twice_keeps_the_same_items_below_the_cap() {
    let batch = || {
        vec![
            item_at(3, "file:///tmp/three.jpg", 2026, 6, 26, 12),
            item_at(4, "file:///tmp/four.jpg", 2026, 6, 21, 12),
        ]
    };
    let mut list = list_with(vec![
        item_at(1, "file:///tmp/one.jpg", 2026, 6, 25, 12),
        item_at(2, "file:///tmp/two.jpg", 2026, 6, 23, 12),
    ]);
    for _ in 0..2 {
        let event = DomainEvent::MediaUpserted {
            source: ChangeSource::FilesystemWatcher,
            items: batch(),
        };
        apply_to_media_list(&mut list, &event, 2);
        assert_eq!(list.n_items(), 2);
        assert_eq!(nth_uri(&list, 0), "file:///tmp/three.jpg");
        assert_eq!(nth_uri(&list, 1), "file:///tmp/one.jpg");
    }
}
