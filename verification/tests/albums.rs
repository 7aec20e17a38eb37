use chrono::{TimeZone, Utc};
use photo_viewer::albums::album::{
    album_refresh_load_limit, filtered_items_for_album_limited, items_in_folder,
    media_query_for_album, Album, AlbumKind, MediaAttribute, MediaQuery,
};
use photo_viewer::albums::browser::AlbumBrowserPage;
use photo_viewer::albums::cover::{AlbumCover, CoverPicture};
use photo_viewer::albums::detail::{
    apply_pure_insertions, index_for_media_id, media_uri_for_id, navigate_viewer,
    refresh_media_list, remove_media_item_by_id, AlbumContent, AlbumDetailPage, ViewerOpening,
    ViewerStep,
};
use photo_viewer::albums::page::{count_label, AlbumsPage};
use photo_viewer::albums::picker::{
    folder_name, AlbumOpMode, AlbumPickerDialog, AlbumRows, PickerPage,
};
use photo_viewer::apply_to_media_list::ListConfig;
use photo_viewer::calendar::Timestamp;
use photo_viewer::media::{MediaItem, ThumbnailSize, ThumbnailTier};
use photo_viewer::media_list::MediaList;

fn moment() -> Timestamp {
    let dt = Utc.with_ymd_and_hms(2026, 6, 23, 12, 0, 0).unwrap();
    Timestamp::new(dt.timestamp(), 0).unwrap()
}

fn sample(id: i64, mime_type: &str, folder: &str) -> MediaItem {
    let ext = if mime_type.starts_with("video/") { "mp4" } else { "jpg" };
    MediaItem {
        id,
        uri: format!("file://{folder}/{id}.{ext}"),
        path: format!("{folder}/{id}.{ext}"),
        folder_path: folder.to_string(),
        mime_type: mime_type.to_string(),
        media_subkind: "standard".to_string(),
        media_attributes: "{}".to_string(),
        width: Some(100),
        height: Some(100),
        video_duration_secs: None,
        taken_at: Some(moment()),
        file_mtime: moment(),
        file_size: 100,
        blake3_hash: format!("hash-{id}"),
        is_favorite: false,
        trashed_at: None,
    }
}

fn sample_item(id: i64) -> MediaItem {
    sample(id, "image/jpeg", "/tmp")
}

fn list_of(ids: &[i64]) -> MediaList {
    MediaList::with_items(ids.iter().map(|id| sample_item(*id)).collect())
}

fn ids(list: &MediaList) -> Vec<i64> {
    list.items().iter().map(|item| item.id).collect()
}

fn album(folder: &str, kind: AlbumKind, is_virtual: bool, photo_count: i64) -> Album {
    Album {
        folder_path: folder.to_string(),
        name: "album".to_string(),
        cover_uri: None,
        photo_count,
        last_modified: moment(),
        is_virtual,
        kind,
    }
}

fn check_removal_by_id() {
    let mut list = list_of(&[1, 2]);
    assert!(remove_media_item_by_id(&mut list, 1));
    assert_eq!(list.n_items(), 1);
    assert!(!remove_media_item_by_id(&mut list, 3));
}

#[test]
fn album_detail_page_remove_media_item_by_id_updates_shared_master_list() {
    check_removal_by_id();
}

#[test]
fn tests_remove_media_item_by_id_updates_shared_master_list() {
    check_removal_by_id();
}

fn check_virtual_album_takes_what_the_library_has() {
    let videos = album("videos://", AlbumKind::Videos, true, 1);
    assert!(matches!(media_query_for_album(&videos), MediaQuery::Videos));
    let master = list_of(&[1]);
    let answer = vec![sample(2, "video/mp4", "/tmp")];
    let items = filtered_items_for_album_limited(&videos, &master, answer, u32::MAX);
    assert_eq!(items.len(), 1);
    assert!(items[0].mime_type.starts_with("video/"));
}

#[test]
fn album_detail_page_video_virtual_album_uses_database_when_master_window_has_no_videos() {
    check_virtual_album_takes_what_the_library_has();
}

#[test]
fn tests_video_virtual_album_uses_database_when_master_window_has_no_videos() {
    check_virtual_album_takes_what_the_library_has();
}

fn check_virtual_album_stops_at_the_limit() {
    let videos = album("videos://", AlbumKind::Videos, true, 3);
    let master = list_of(&[]);
    let answer = vec![
        sample(1, "video/mp4", "/tmp"),
        sample(2, "video/mp4", "/tmp"),
        sample(3, "video/mp4", "/tmp"),
    ];
    let items = filtered_items_for_album_limited(&videos, &master, answer, 2);
    assert_eq!(items.len(), 2);
    assert_eq!(items[1].id, 2);
}

#[test]
fn album_detail_page_virtual_album_filter_can_limit_database_membership() {
    check_virtual_album_stops_at_the_limit();
}

#[test]
fn tests_virtual_album_filter_can_limit_database_membership() {
    check_virtual_album_stops_at_the_limit();
}

fn check_refresh_loads_new_photos() {
    let page_album = album("/tmp", AlbumKind::Folder, false, 1);
    let mut store = list_of(&[1]);
    let page = AlbumDetailPage::new(page_album, &store);
    assert_eq!(page.content, AlbumContent::DayGrid);
    let limit = page.refresh_load_limit(Some(2), &ListConfig { ui_media_list_cap: 10_000 });
    assert_eq!(limit, 2);
    store.clear_edits();
    refresh_media_list(&mut store, &vec![sample_item(2), sample_item(1)]);
    assert_eq!(
        store.n_items(),
        2,
        "refreshing a visible real album should use the database, not the stale Photos window"
    );
    assert_eq!(
        store.signals(),
        vec![(0, 0, 1)],
        "album refresh should emit one pure-addition change so MediaGrid can use its insertion path"
    );
}

#[test]
fn album_detail_page_visible_real_album_refresh_loads_new_database_items() {
    check_refresh_loads_new_photos();
}

#[test]
fn tests_visible_real_album_refresh_loads_new_database_items() {
    check_refresh_loads_new_photos();
}

#[test]
fn album_detail_page_visible_real_album_refresh_emits_single_addition_change() {
    check_refresh_loads_new_photos();
}

#[test]
fn tests_visible_real_album_refresh_emits_single_addition_change() {
    check_refresh_loads_new_photos();
}

#[test]
fn folder_albums_take_their_photos_from_the_list() {
    let master = MediaList::with_items(vec![
        sample(1, "image/jpeg", "/a"),
        sample(2, "image/jpeg", "/b"),
        sample(3, "image/jpeg", "/a"),
        sample(4, "image/jpeg", "/a"),
    ]);
    let found = items_in_folder(&master, &"/a".to_string());
    assert_eq!(found.iter().map(|item| item.id).collect::<Vec<i64>>(), vec![1, 3, 4]);
    let folder = album("/a", AlbumKind::Folder, false, 3);
    assert_eq!(filtered_items_for_album_limited(&folder, &master, Vec::new(), 2).len(), 2);
    assert_eq!(filtered_items_for_album_limited(&folder, &master, Vec::new(), 9).len(), 3);
}

#[test]
fn albums_ask_for_what_they_gather() {
    let query = |kind| media_query_for_album(&album("/x", kind, true, 0));
    assert!(matches!(query(AlbumKind::Favorites), MediaQuery::Favorites));
    assert!(matches!(query(AlbumKind::Images), MediaQuery::Images));
    assert!(matches!(query(AlbumKind::MotionPhotos), MediaQuery::MotionPhotos));
    assert!(matches!(query(AlbumKind::Animated), MediaQuery::Attribute(MediaAttribute::Animated)));
    assert!(matches!(query(AlbumKind::Hdr), MediaQuery::Attribute(MediaAttribute::Hdr)));
    match query(AlbumKind::Folder) {
        MediaQuery::AlbumFolder(path) => assert_eq!(path, "/x"),
        _ => panic!("a folder album asks for its folder"),
    }
}

#[test]
fn refreshes_load_no_more_than_the_list_may_hold() {
    let config = ListConfig { ui_media_list_cap: 50 };
    assert_eq!(album_refresh_load_limit(-3, &config), 0);
    assert_eq!(album_refresh_load_limit(7, &config), 7);
    assert_eq!(album_refresh_load_limit(5_000_000_000, &config), 50);
    let page = AlbumDetailPage::new(album("/a", AlbumKind::Folder, false, 9), &list_of(&[]));
    assert_eq!(page.content, AlbumContent::Empty);
    assert_eq!(page.refresh_load_limit(None, &config), 9);
}

#[test]
fn insertions_in_one_place_are_applied_as_one_change() {
    let mut list = list_of(&[1, 2, 3]);
    list.clear_edits();
    let refreshed: Vec<MediaItem> = [1, 7, 8, 2, 3].iter().map(|id| sample_item(*id)).collect();
    assert!(apply_pure_insertions(&mut list, &refreshed));
    assert_eq!(ids(&list), vec![1, 7, 8, 2, 3]);
    assert_eq!(list.signals(), vec![(1, 0, 2)]);
}

#[test]
fn other_refreshes_replace_all_photos() {
    let mut list = list_of(&[1, 2, 3]);
    list.clear_edits();
    let scattered: Vec<MediaItem> = [7, 1, 2, 8, 3].iter().map(|id| sample_item(*id)).collect();
    assert!(!apply_pure_insertions(&mut list, &scattered));
    assert!(list.signals().is_empty());
    refresh_media_list(&mut list, &scattered);
    assert_eq!(ids(&list), vec![7, 1, 2, 8, 3]);
    assert_eq!(list.signals(), vec![(0, 3, 5)]);
    refresh_media_list(&mut list, &vec![sample_item(1)]);
    assert_eq!(ids(&list), vec![1]);
}

#[test]
fn trashed_photos_leave_both_lists() {
    let page = AlbumDetailPage::new(album("/tmp", AlbumKind::Folder, false, 4), &list_of(&[1]));
    let mut list = list_of(&[1, 2, 3, 4]);
    let mut master = list_of(&[9, 2, 8, 4]);
    list.clear_edits();
    page.remove_media_ids_from_lists(&mut list, &mut master, &vec![4, 2, 7]);
    assert_eq!(ids(&list), vec![1, 3]);
    assert_eq!(ids(&master), vec![9, 8]);
    assert_eq!(list.signals(), vec![(3, 1, 0), (1, 1, 0)]);
    assert!(!page.can_trash(&vec![1]));
}

#[test]
fn photos_are_found_by_id() {
    let list = list_of(&[5, 6]);
    assert_eq!(index_for_media_id(&list, 6), Some(1));
    assert_eq!(index_for_media_id(&list, 7), None);
    assert_eq!(media_uri_for_id(&list, 5).as_deref(), Some("file:///tmp/5.jpg"));
    let page = AlbumDetailPage::new(album("/tmp", AlbumKind::Folder, false, 2), &list);
    let change = page.set_album_cover_from_media(&list, 6).unwrap();
    assert_eq!((change.folder_path.as_str(), change.cover_uri.as_str()), ("/tmp", "file:///tmp/6.jpg"));
    assert!(page.set_album_cover_from_media(&list, 7).is_none());
}

#[test]
fn a_viewer_opens_once_until_a_moment_has_passed() {
    let list = list_of(&[5, 6]);
    let mut page = AlbumDetailPage::new(album("f", AlbumKind::Favorites, true, 2), &list);
    assert!(matches!(page.open_viewer(&list, 9, true), ViewerOpening::Gone));
    assert!(matches!(page.open_viewer(&list, 6, true), ViewerOpening::NoTarget));
    assert!(page.open_search_page().is_none());
    page.set_nav_target();
    page.set_db_actor();
    assert!(page.open_search_page().unwrap().with_db_actor);
    assert!(page.can_trash(&vec![1]) && !page.can_trash(&vec![]));
    assert!(matches!(page.open_viewer(&list, 6, false), ViewerOpening::NotVisible));
    match page.open_viewer(&list, 6, true) {
        ViewerOpening::Open(request) => {
            assert_eq!((request.media_id, request.index), (6, 1));
            assert!(request.refresh_on_favorite);
            assert!(matches!(request.query, MediaQuery::Favorites));
        }
        _ => panic!("the viewer should open"),
    }
    assert!(matches!(page.open_viewer(&list, 5, true), ViewerOpening::Duplicate));
    page.viewer_guard_elapsed();
    assert!(matches!(page.open_viewer(&list, 5, true), ViewerOpening::Open(_)));
}

#[test]
fn viewer_steps_stay_inside_the_list() {
    assert_eq!(navigate_viewer(3, None, 10), ViewerStep::Pop);
    assert_eq!(navigate_viewer(3, Some(1), 10), ViewerStep::Show(4));
    assert_eq!(navigate_viewer(0, Some(-1), 10), ViewerStep::Show(0));
    assert_eq!(navigate_viewer(9, Some(1), 10), ViewerStep::Stay);
    assert_eq!(navigate_viewer(0, Some(-1), 0), ViewerStep::Stay);
}

fn browser(paths: &[&str]) -> AlbumBrowserPage {
    AlbumBrowserPage::new(
        paths.iter().map(|path| album(path, AlbumKind::Folder, false, 1)).collect(),
    )
}

fn reorder(page: &AlbumBrowserPage, source: &str, target: &str, after: bool) -> Option<Vec<String>> {
    page.reorder_album(&source.to_string(), &target.to_string(), after)
}

#[test]
fn dragged_albums_land_beside_their_target() {
    let page = browser(&["a", "b", "c", "d"]);
    assert_eq!(page.album_count(), 4);
    assert_eq!(page.album_folder_paths(), vec!["a", "b", "c", "d"]);
    assert_eq!(reorder(&page, "a", "c", false).unwrap(), vec!["b", "a", "c", "d"]);
    assert_eq!(reorder(&page, "a", "c", true).unwrap(), vec!["b", "c", "a", "d"]);
    assert_eq!(reorder(&page, "d", "a", false).unwrap(), vec!["d", "a", "b", "c"]);
    assert_eq!(reorder(&page, "b", "b", true), None);
    assert_eq!(reorder(&page, "b", "missing", false).unwrap(), vec!["a", "c", "d", "b"]);
}

#[test]
fn covers_are_asked_for_once() {
    let mut with_cover = album("/a", AlbumKind::Folder, false, 1);
    with_cover.cover_uri = Some("file:///a/1.jpg".to_string());
    let mut cover = AlbumCover::new(&with_cover);
    assert_eq!(cover.picture, CoverPicture::Placeholder);
    let request = cover.request_once().unwrap();
    assert_eq!(request.uri, "file:///a/1.jpg");
    assert_eq!(request.size, ThumbnailSize::Large);
    assert_eq!(request.tier, ThumbnailTier::Normal);
    assert!(cover.request_once().is_none());
    cover.finish(Some(Some(true)));
    assert_eq!(cover.picture, CoverPicture::Loaded);
    assert_eq!(cover.background_is_light, Some(true));
    cover.finish(None);
    assert_eq!(cover.picture, CoverPicture::Placeholder);
    let mut bare = AlbumCover::new(&album("/b", AlbumKind::Folder, false, 1));
    assert!(bare.request_once().is_none());
}

#[test]
fn tiles_open_the_album_they_stand_for() {
    let master = MediaList::with_items(vec![
        sample(1, "image/jpeg", "/a"),
        sample(2, "image/jpeg", "/b"),
    ]);
    let mut page = AlbumsPage::new(vec![
        album("/a", AlbumKind::Folder, false, 1),
        album("/b", AlbumKind::Folder, false, 1),
    ]);
    assert!(!page.is_empty());
    assert!(page.open_album_at(1, &master).is_none());
    page.set_nav_target();
    assert!(page.open_album_at(-1, &master).is_none());
    assert!(page.open_album_at(2, &master).is_none());
    let opening = page.open_album_at(1, &master).unwrap();
    assert_eq!(opening.album.folder_path, "/b");
    assert_eq!(opening.items.len(), 1);
    assert_eq!(opening.items[0].id, 2);
    assert_eq!(count_label(12), "12 photos");
    assert_eq!(count_label(-1), "-1 photos");
}

#[test]
fn photos_are_added_to_an_album_in_two_steps() {
    assert!(AlbumPickerDialog::present(vec![]).is_none());
    let mut dialog = AlbumPickerDialog::present(vec![3, 1]).unwrap();
    dialog.populate(None);
    assert!(matches!(dialog.rows, AlbumRows::Unknown));
    assert!(!dialog.choose_album(0));
    assert!(dialog.choose_action(AlbumOpMode::Copy).is_none());
    dialog.populate(Some(vec![album("/a", AlbumKind::Folder, false, 1)]));
    assert!(dialog.choose_album(0));
    let operation = dialog.choose_action(AlbumOpMode::Move).unwrap();
    assert_eq!(operation.media_ids, vec![3, 1]);
    assert_eq!(operation.folder, "/a");
    assert_eq!(operation.mode, AlbumOpMode::Move);
    dialog.finish();
    assert!(matches!(dialog.page, PickerPage::Albums));
    dialog.populate(Some(vec![]));
    assert!(matches!(dialog.rows, AlbumRows::NoAlbums));
}

#[test]
fn folders_are_shown_by_name() {
    for (folder, name) in [
        ("/home/me/Pictures/Trip", "Trip"),
        ("/home/me/Pictures/Trip/", "Trip"),
        ("/home/me//Trip/./", "Trip"),
        ("Trip", "Trip"),
        ("/bilder/Ausfl\u{fc}ge \u{1f33b}", "Ausfl\u{fc}ge \u{1f33b}"),
        ("/a/.hidden", ".hidden"),
        ("/a/...", "..."),
        ("/a/..", "/a/.."),
        ("/", "/"),
        ("", ""),
        (".", "."),
    ] {
        assert_eq!(folder_name(&folder.to_string()), name, "{folder}");
        let by_path = std::path::Path::new(folder)
            .file_name()
            .map_or(folder.to_string(), |name| name.to_string_lossy().into_owned());
        assert_eq!(folder_name(&folder.to_string()), by_path);
    }
}

#[test]
fn a_folder_with_photos_shows_one_even_at_limit_zero() {
    let list = list_of(&[1, 2]);
    let folder = album("/tmp", AlbumKind::Folder, false, 2);
    assert_eq!(filtered_items_for_album_limited(&folder, &list, Vec::new(), 0).len(), 1);
    let away = album("/elsewhere", AlbumKind::Folder, false, 0);
    assert_eq!(filtered_items_for_album_limited(&away, &list, Vec::new(), 0).len(), 0);
}
