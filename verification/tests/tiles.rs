use photo_viewer::calendar::Timestamp;
use photo_viewer::media::{GroupBy, MediaItem, ThumbnailSize, ThumbnailTier};
use photo_viewer::media_grid::render::{
    build_photo_picture, format_tile_duration, library_stats_text, prepare_reused_tile,
    sync_flow_child_visibility_for_tile, thumbnail_request, MediaKind,
};
use photo_viewer::media_grid::spec_for_mode;
use photo_viewer::media_list::MediaList;

fn sample_item(id: i64, name: &str) -> MediaItem {
    MediaItem {
        id,
        uri: format!("file:///tmp/{name}"),
        path: format!("/tmp/{name}"),
        folder_path: "/tmp".to_string(),
        mime_type: "image/jpeg".to_string(),
        media_subkind: "standard".to_string(),
        media_attributes: "{}".to_string(),
        width: Some(64),
        height: Some(48),
        video_duration_secs: None,
        taken_at: None,
        file_mtime: Timestamp::new(1_780_000_000, 0).unwrap(),
        file_size: 1,
        blake3_hash: "h".to_string(),
        is_favorite: false,
        trashed_at: None,
    }
}

const PHOTO: MediaKind = MediaKind { is_motion_photo: false, is_video: false };

/// Seconds as a tile shows them: a length that is no number is not shown.
fn duration(seconds: f64) -> Option<String> {
    let whole = if seconds.is_finite() && seconds >= 0.0 {
        Some(seconds.round() as u64)
    } else {
        None
    };
    format_tile_duration(whole)
}

fn check_durations() {
    assert_eq!(duration(83.2).as_deref(), Some("01:23"));
    assert_eq!(duration(3_661.0).as_deref(), Some("1:01:01"));
    assert_eq!(duration(f64::NAN), None);
}

#[test]
fn media_grid_tile_duration_formats_minutes_and_hours() {
    check_durations();
}

#[test]
fn tests_tile_duration_formats_minutes_and_hours() {
    check_durations();
}

#[test]
fn media_grid_library_stats_text_clamps_generated_to_total() {
    assert_eq!(library_stats_text(20, 7), "媒体 20 项 · 缩略图 7/20");
    assert_eq!(library_stats_text(20, 99), "媒体 20 项 · 缩略图 20/20");
}

#[test]
fn tests_library_stats_text_clamps_generated_to_total() {
    assert_eq!(library_stats_text(20, 7), "媒体 20 项 · 缩略图 7/20");
    assert_eq!(library_stats_text(20, 99), "媒体 20 项 · 缩略图 20/20");
}

fn check_cached_tile() {
    let item = sample_item(7, "cached.png");
    let tile = build_photo_picture(spec_for_mode(GroupBy::Day), &item, PHOTO, 0, Some(None), true);
    assert!(
        !tile.loading,
        "cached thumbnails should paint immediately instead of flashing the loading placeholder"
    );
}

#[test]
fn media_grid_mem_cached_thumbnail_tile_is_built_without_loading_class() {
    check_cached_tile();
}

#[test]
fn tests_mem_cached_thumbnail_tile_is_built_without_loading_class() {
    check_cached_tile();
}

fn check_uncached_tile() {
    let item = sample_item(8, "uncached.png");
    let mut tile = build_photo_picture(spec_for_mode(GroupBy::Day), &item, PHOTO, 0, None, true);
    assert!(
        tile.loading,
        "uncached thumbnails must wait so that they are hidden until generation finishes"
    );
    assert!(
        !sync_flow_child_visibility_for_tile(&tile),
        "uncached thumbnails should hide the cell as well as the tile"
    );
    tile.finish_thumbnail(None);
    assert!(!tile.loading, "thumbnail success or failure should reveal the tile");
    assert!(
        sync_flow_child_visibility_for_tile(&tile),
        "thumbnail success or failure should reveal the cell"
    );
}

#[test]
fn media_grid_uncached_thumbnail_tile_stays_hidden_until_result_arrives() {
    check_uncached_tile();
}

#[test]
fn tests_uncached_thumbnail_tile_stays_hidden_until_result_arrives() {
    check_uncached_tile();
}

#[test]
fn uncached_existing_thumbnail_keeps_its_loading_border_visible() {
    let item = sample_item(9, "existing.png");
    let mut tile = build_photo_picture(spec_for_mode(GroupBy::Day), &item, PHOTO, 0, None, false);
    assert!(tile.loading);
    assert!(tile.placeholder);
    assert!(
        sync_flow_child_visibility_for_tile(&tile),
        "existing uncached media should show its loading border before the thumbnail arrives"
    );
    tile.finish_thumbnail(Some(None));
    assert!(!tile.loading);
    assert!(!tile.placeholder);
}

#[test]
fn badges_show_in_the_day_view_alone() {
    let mut item = sample_item(1, "clip.mp4");
    item.is_favorite = true;
    item.video_duration_secs = Some(59);
    let kind = MediaKind { is_motion_photo: true, is_video: true };
    let day = build_photo_picture(spec_for_mode(GroupBy::Day), &item, kind, 0, None, true);
    assert!(day.motion_badge && day.favorite_badge);
    assert_eq!(day.duration.as_deref(), Some("00:59"));
    let month = build_photo_picture(spec_for_mode(GroupBy::Month), &item, kind, 0, None, true);
    assert!(!month.motion_badge && !month.favorite_badge);
    assert_eq!(month.duration, None);
    item.video_duration_secs = None;
    let unknown = build_photo_picture(spec_for_mode(GroupBy::Day), &item, kind, 0, None, true);
    assert_eq!(unknown.duration.as_deref(), Some("--:--"));
}

#[test]
fn reused_tiles_take_the_new_view_and_ask_for_nothing() {
    let item = sample_item(1, "a.jpg");
    let mut tile =
        build_photo_picture(spec_for_mode(GroupBy::Day), &item, PHOTO, 0, Some(Some(true)), true);
    prepare_reused_tile(&mut tile, spec_for_mode(GroupBy::Year), &item, PHOTO);
    assert_eq!(tile.target, 90);
    assert_eq!(tile.background_is_light, Some(true));
    let list = MediaList::with_items(vec![sample_item(1, "a.jpg")]);
    assert!(tile.request_thumbnail(&list).is_none());
    let key = tile.cache_key.unwrap();
    assert_eq!(key.uri, "file:///tmp/a.jpg");
    assert_eq!(key.size, spec_for_mode(GroupBy::Year).thumb_size);
}

#[test]
fn a_thumbnail_is_asked_for_once_and_for_the_photo_at_the_place() {
    let item = sample_item(1, "a.jpg");
    let list = MediaList::with_items(vec![sample_item(2, "b.jpg")]);
    let spec = spec_for_mode(GroupBy::Day);
    let mut tile = build_photo_picture(spec, &item, PHOTO, 0, None, true);
    assert_eq!(tile.cache_key.as_ref().unwrap().uri, "file:///tmp/a.jpg");
    let request = tile.request_thumbnail(&list).unwrap();
    assert_eq!(request.media_id, 2);
    assert_eq!(request.key.uri, "file:///tmp/b.jpg");
    assert_eq!(request.key.size, ThumbnailSize::Medium);
    assert_eq!(request.key.mtime, Timestamp::new(1_780_000_000, 0).unwrap());
    assert_eq!(request.tier, ThumbnailTier::Boost);
    assert_eq!(tile.cache_key.as_ref().unwrap().uri, "file:///tmp/b.jpg");
    assert!(tile.request_thumbnail(&list).is_none());
    assert!(tile.request_thumbnail(&MediaList::new()).is_none());
    assert_eq!(tile.cache_key.as_ref().unwrap().uri, "file:///tmp/b.jpg");
    let mut behind = build_photo_picture(spec, &item, PHOTO, 5, None, true);
    let request = behind.request_thumbnail(&list).unwrap();
    assert_eq!(request.media_id, 1);
    assert_eq!(request.key.uri, "file:///tmp/a.jpg");
    assert!(behind.finish_thumbnail(Some(Some(false))));
    assert_eq!(behind.background_is_light, Some(false));
}

#[test]
fn requests_carry_the_size_of_the_view() {
    let item = sample_item(4, "d.jpg");
    for mode in [GroupBy::Year, GroupBy::Month, GroupBy::Day] {
        let spec = spec_for_mode(mode);
        let request = thumbnail_request(spec, &item);
        assert_eq!(request.media_id, 4);
        assert_eq!(request.key.uri, "file:///tmp/d.jpg");
        assert_eq!(request.key.size, spec.thumb_size);
        assert_eq!(request.key.mtime, item.file_mtime);
        assert_eq!(request.tier, ThumbnailTier::Boost);
    }
}
