use photo_viewer::albums::album::MediaQuery;
use photo_viewer::calendar::Timestamp;
use photo_viewer::empty_states::{
    empty_trash, loading, no_album_photos, no_albums, no_photos, scan_error, StatusText,
};
use photo_viewer::media::{MediaItem, ThumbnailSize};
use photo_viewer::media_window_model::{MediaPage, MediaWindowModel};
use photo_viewer::photo_tile::{PhotoTile, DEFAULT_TILE_SIZE};

fn photo(id: i64) -> MediaItem {
    MediaItem {
        id,
        uri: format!("file:///tmp/{id}.jpg"),
        path: format!("/tmp/{id}.jpg"),
        folder_path: "/tmp".to_string(),
        mime_type: "image/jpeg".to_string(),
        media_subkind: "standard".to_string(),
        media_attributes: "{}".to_string(),
        width: Some(100),
        height: Some(100),
        video_duration_secs: None,
        taken_at: None,
        file_mtime: Timestamp::new(77, 0).unwrap(),
        file_size: 100,
        blake3_hash: "h".to_string(),
        is_favorite: false,
        trashed_at: None,
    }
}

fn check_new_tile() {
    let tile = PhotoTile::new();
    assert_eq!(tile.picture_size, DEFAULT_TILE_SIZE);
    assert!(!tile.motion_badge_visible);
    assert!(!tile.has_picture);
}

#[test]
fn photo_tile_photo_tile_template_loads_motion_badge_child() {
    check_new_tile();
}

#[test]
fn tests_photo_tile_template_loads_motion_badge_child() {
    check_new_tile();
}

#[test]
fn tiles_show_the_picture_asked_for_last() {
    let mut tile = PhotoTile::new();
    let first = tile.set_item(photo(1), true, ThumbnailSize::Medium, 200);
    assert!(tile.motion_badge_visible);
    assert_eq!(tile.picture_size, 200);
    assert_eq!(first.uri, "file:///tmp/1.jpg");
    assert_eq!(first.mtime.secs(), 77);
    let second = tile.set_item(photo(2), false, ThumbnailSize::Medium, 200);
    assert!(!tile.picture_arrived(first.token, true));
    assert!(!tile.has_picture);
    assert!(!tile.picture_arrived(second.token, false));
    assert!(tile.picture_arrived(second.token, true));
    assert!(tile.has_picture);
    tile.set_placeholder();
    assert!(!tile.has_picture);
}

#[test]
fn empty_views_say_so() {
    let photos = no_photos();
    assert_eq!(photos.icon_name, Some("image-x-generic-symbolic"));
    assert!(photos.compact);
    assert_eq!(no_albums().title_key, "empty.no_albums.title");
    assert_eq!(empty_trash().icon_name, Some("user-trash-symbolic"));
    assert!(matches!(
        no_album_photos().description,
        StatusText::Key("empty.no_album_photos.description")
    ));
    match scan_error("no access to /tmp").description {
        StatusText::Literal(text) => assert_eq!(text, "no access to /tmp"),
        _ => panic!("the reason should be shown"),
    }
    assert!(matches!(loading().description, StatusText::Absent));
}

#[test]
fn windows_show_the_page_that_was_read() {
    let mut model = MediaWindowModel::new(MediaQuery::Favorites, 2);
    assert_eq!(model.page_query().1, 2);
    model.select(40);
    let page = MediaPage { start: 10, total: 30, items: vec![photo(4), photo(5)] };
    assert!(model.load_sync(Ok(page)).is_ok());
    assert_eq!((model.window_start(), model.total()), (10, 30));
    assert_eq!(model.id_at_window_index(1), Some(5));
    assert_eq!(model.id_at_window_index(2), None);
    assert_eq!(model.store().n_items(), 2);
    assert!(model.is_selected(40) && !model.is_selected(4));
    assert!(model.generation_is_current_for_tests(1));
    assert_eq!(model.load_sync(Err("busy".to_string())), Err("busy".to_string()));
    assert_eq!(model.window_start(), 10);
    assert!(model.generation_is_current_for_tests(1));
    assert_eq!(model.next_generation_for_tests(), 2);
    assert!(!model.generation_is_current_for_tests(1));
}
