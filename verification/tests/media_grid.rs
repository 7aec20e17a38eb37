use chrono::{TimeZone, Utc};
use photo_viewer::calendar::Timestamp;
use photo_viewer::media::{GroupBy, LibraryStats, MediaItem, SectionKey};
use photo_viewer::media_grid::content::ContentChild;
use photo_viewer::media_grid::context_menu::{
    context_menu_entries, trash_question, FavoriteMenuState,
};
use photo_viewer::media_grid::controls::{
    media_item_for_id, Activation, TileActivation, TileMark,
};
use photo_viewer::media_grid::loading::{
    FillStep, MetadataArrival, PageArrival, PageQuery, PageRequest, StatsTick,
};
use photo_viewer::media_grid::metadata::GridMetadataSnapshot;
use photo_viewer::media_grid::render::plan_tile_reuse;
use photo_viewer::media_grid::sections::SectionCounts;
use photo_viewer::media_grid::selection::SelectionMode;
use photo_viewer::media_grid::state::{GridConfig, MediaGrid};
use photo_viewer::media_grid::updates::{ChangeAnswer, DeferredInsert};
use photo_viewer::media_grid::viewport::{collect_visible_tiles, Debounce, TilePlace};
use photo_viewer::media_list::MediaList;

const WIDTH: u32 = 1_000;

fn config() -> GridConfig {
    GridConfig {
        max_rendered_grid_items: 500,
        grid_render_absolute_cap: 2_000,
        grid_render_expand_step: 500,
        virtual_media_page_size: 500,
        startup_progressive_render: true,
        startup_render_seed: 48,
        startup_render_batch: 96,
    }
}

fn at(year: i32, month: u32, day: u32) -> Timestamp {
    let dt = Utc.with_ymd_and_hms(year, month, day, 12, 0, 0).unwrap();
    Timestamp::new(dt.timestamp(), 0).unwrap()
}

fn sample_item(id: i64, name: &str) -> MediaItem {
    MediaItem {
        id,
        uri: format!("file:///tmp/{name}"),
        path: format!("/tmp/{name}"),
        folder_path: "/tmp".to_string(),
        mime_type: "image/png".to_string(),
        media_subkind: "standard".to_string(),
        media_attributes: "{}".to_string(),
        width: Some(100),
        height: Some(100),
        video_duration_secs: None,
        taken_at: Some(at(2026, 6, 23)),
        file_mtime: at(2026, 6, 23),
        file_size: 100,
        blake3_hash: format!("hash-{id}"),
        is_favorite: false,
        trashed_at: None,
    }
}

fn list_of(items: Vec<MediaItem>) -> MediaList {
    MediaList::with_items(items)
}

fn tile_count(grid: &MediaGrid) -> usize {
    grid.board.sections.iter().map(|section| section.tiles.len()).sum()
}

fn key(year: i32, month: Option<u32>) -> SectionKey {
    SectionKey { year: Some(year), month, day: None }
}

#[test]
fn media_grid_section_flowbox_selection_mode_tracks_multi_select() {
    let list = list_of(vec![sample_item(1, "one.png"), sample_item(2, "two.png")]);
    let (mut grid, _) = MediaGrid::new(config(), &list, GroupBy::Day, WIDTH, false);
    assert!(!grid.board.sections.is_empty(), "rebuild should produce section FlowBoxes");
    assert_eq!(
        grid.selection.section_selection_mode(),
        SelectionMode::Disabled,
        "default (non-multi) must be None"
    );
    grid.set_multi_select_mode(true);
    assert_eq!(
        grid.selection.section_selection_mode(),
        SelectionMode::Multiple,
        "multi-select must flip every section to Multiple"
    );
    grid.set_multi_select_mode(false);
    assert_eq!(
        grid.selection.section_selection_mode(),
        SelectionMode::Disabled,
        "exiting multi-select must restore None"
    );
}

#[test]
fn tests_section_flowbox_selection_mode_tracks_multi_select() {
    let list = list_of(vec![sample_item(1, "one.png"), sample_item(2, "two.png")]);
    let (mut grid, _) = MediaGrid::new(config(), &list, GroupBy::Day, WIDTH, false);
    assert!(!grid.board.sections.is_empty(), "rebuild should produce section FlowBoxes");
    assert_eq!(
        grid.selection.section_selection_mode(),
        SelectionMode::Disabled,
        "default (non-multi) must be None"
    );
    grid.set_multi_select_mode(true);
    assert_eq!(
        grid.selection.section_selection_mode(),
        SelectionMode::Multiple,
        "multi-select must flip every section to Multiple"
    );
    grid.set_multi_select_mode(false);
    assert_eq!(
        grid.selection.section_selection_mode(),
        SelectionMode::Disabled,
        "exiting multi-select must restore None"
    );
}

#[test]
fn media_grid_grid_rebuilds_when_backing_store_removes_item() {
    let mut list = list_of(vec![sample_item(1, "one.png"), sample_item(2, "two.png")]);
    let (mut grid, _) = MediaGrid::new(config(), &list, GroupBy::Day, WIDTH, false);
    assert_eq!(tile_count(&grid), 2);
    list.remove(0);
    grid.handle_items_changed(&list, 0, 1, 0, &vec![], WIDTH);
    assert_eq!(
        tile_count(&grid),
        1,
        "MediaGrid must drop stale thumbnails when the shared ListStore changes"
    );
}

#[test]
fn tests_grid_rebuilds_when_backing_store_removes_item() {
    let mut list = list_of(vec![sample_item(1, "one.png"), sample_item(2, "two.png")]);
    let (mut grid, _) = MediaGrid::new(config(), &list, GroupBy::Day, WIDTH, false);
    assert_eq!(tile_count(&grid), 2);
    list.remove(0);
    grid.handle_items_changed(&list, 0, 1, 0, &vec![], WIDTH);
    assert_eq!(
        tile_count(&grid),
        1,
        "MediaGrid must drop stale thumbnails when the shared ListStore changes"
    );
}

#[test]
fn media_grid_grid_removes_backing_store_item_without_replacing_section_flow() {
    let mut list = list_of(vec![
        sample_item(1, "one.png"),
        sample_item(2, "two.png"),
        sample_item(3, "three.png"),
    ]);
    let (mut grid, _) = MediaGrid::new(config(), &list, GroupBy::Day, WIDTH, false);
    let tiles_before = grid.board.sections[0].tiles.clone();
    list.remove(1);
    let change = grid.handle_items_changed(&list, 1, 1, 0, &vec![], WIDTH);
    assert_eq!(tile_count(&grid), 2);
    assert_eq!(change.answer, ChangeAnswer::Remove);
    assert_eq!(
        grid.board.sections[0].tiles,
        vec![tiles_before[0], tiles_before[2]],
        "a single backing-store removal should remove the child in place instead of rebuilding the whole section flow"
    );
}

#[test]
fn tests_grid_removes_backing_store_item_without_replacing_section_flow() {
    let mut list = list_of(vec![
        sample_item(1, "one.png"),
        sample_item(2, "two.png"),
        sample_item(3, "three.png"),
    ]);
    let (mut grid, _) = MediaGrid::new(config(), &list, GroupBy::Day, WIDTH, false);
    let tiles_before = grid.board.sections[0].tiles.clone();
    list.remove(1);
    let change = grid.handle_items_changed(&list, 1, 1, 0, &vec![], WIDTH);
    assert_eq!(tile_count(&grid), 2);
    assert_eq!(change.answer, ChangeAnswer::Remove);
    assert_eq!(
        grid.board.sections[0].tiles,
        vec![tiles_before[0], tiles_before[2]],
        "a single backing-store removal should remove the child in place instead of rebuilding the whole section flow"
    );
}

#[test]
fn media_grid_grid_inserts_same_section_item_without_replacing_existing_tiles() {
    let mut list = list_of(vec![sample_item(1, "one.png"), sample_item(2, "two.png")]);
    let (mut grid, _) = MediaGrid::new(config(), &list, GroupBy::Day, WIDTH, false);
    let first_child_before = grid.board.sections[0].tiles[0];
    list.insert(0, sample_item(3, "inserted.png"));
    let change = grid.handle_items_changed(&list, 0, 0, 1, &vec![true], WIDTH);
    assert_eq!(
        tile_count(&grid),
        3,
        "same-section pure insertion should update the visible grid immediately"
    );
    assert_eq!(
        change.answer,
        ChangeAnswer::Insert,
        "same-section pure insertion should preserve the existing section flow"
    );
    assert_eq!(
        grid.board.sections[0].tiles[1], first_child_before,
        "same-section pure insertion should not recreate existing tile children"
    );
}

#[test]
fn tests_grid_inserts_same_section_item_without_replacing_existing_tiles() {
    let mut list = list_of(vec![sample_item(1, "one.png"), sample_item(2, "two.png")]);
    let (mut grid, _) = MediaGrid::new(config(), &list, GroupBy::Day, WIDTH, false);
    let first_child_before = grid.board.sections[0].tiles[0];
    list.insert(0, sample_item(3, "inserted.png"));
    let change = grid.handle_items_changed(&list, 0, 0, 1, &vec![true], WIDTH);
    assert_eq!(
        tile_count(&grid),
        3,
        "same-section pure insertion should update the visible grid immediately"
    );
    assert_eq!(
        change.answer,
        ChangeAnswer::Insert,
        "same-section pure insertion should preserve the existing section flow"
    );
    assert_eq!(
        grid.board.sections[0].tiles[1], first_child_before,
        "same-section pure insertion should not recreate existing tile children"
    );
}

#[test]
fn media_grid_grid_defers_uncached_incremental_insert_until_thumbnail_ready() {
    let mut list = list_of(vec![sample_item(1, "one.png"), sample_item(2, "two.png")]);
    let (mut grid, _) = MediaGrid::new(config(), &list, GroupBy::Day, WIDTH, false);
    let tiles_before = grid.board.sections[0].tiles.clone();
    list.insert(0, sample_item(3, "inserted.png"));
    let change = grid.handle_items_changed(&list, 0, 0, 1, &vec![false], WIDTH);
    assert_eq!(
        tile_count(&grid),
        2,
        "uncached incremental inserts should wait for thumbnail success/failure before entering the grid"
    );
    assert_eq!(change.deferred, vec![0]);
    assert_eq!(
        grid.board.sections[0].tiles, tiles_before,
        "pending uncached insert should not insert a gray/transparent tile before the old first child"
    );
}

#[test]
fn tests_grid_defers_uncached_incremental_insert_until_thumbnail_ready() {
    let mut list = list_of(vec![sample_item(1, "one.png"), sample_item(2, "two.png")]);
    let (mut grid, _) = MediaGrid::new(config(), &list, GroupBy::Day, WIDTH, false);
    let tiles_before = grid.board.sections[0].tiles.clone();
    list.insert(0, sample_item(3, "inserted.png"));
    let change = grid.handle_items_changed(&list, 0, 0, 1, &vec![false], WIDTH);
    assert_eq!(
        tile_count(&grid),
        2,
        "uncached incremental inserts should wait for thumbnail success/failure before entering the grid"
    );
    assert_eq!(change.deferred, vec![0]);
    assert_eq!(
        grid.board.sections[0].tiles, tiles_before,
        "pending uncached insert should not insert a gray/transparent tile before the old first child"
    );
}

#[test]
fn media_grid_grid_inserts_deferred_item_after_thumbnail_failure() {
    let mut list = list_of(vec![sample_item(1, "one.png"), sample_item(2, "two.png")]);
    let (mut grid, _) = MediaGrid::new(config(), &list, GroupBy::Day, WIDTH, false);
    let inserted = sample_item(3, "inserted.png");
    let inserted_uri = inserted.uri.clone();
    list.insert(0, inserted);
    grid.handle_items_changed(&list, 0, 0, 1, &vec![false], WIDTH);
    assert_eq!(tile_count(&grid), 2);
    let outcome = grid.insert_deferred_incremental_item(&list, &inserted_uri, GroupBy::Day);
    assert_eq!(outcome, DeferredInsert::Inserted);
    assert_eq!(
        tile_count(&grid),
        3,
        "thumbnail failure should insert the final failure placeholder only after the request completes"
    );
    assert_eq!(grid.board.displayed[0].media_id, 3);
    assert_eq!(grid.board.sections[0].tiles[0], grid.board.displayed[0].flow_child);
}

#[test]
fn tests_grid_inserts_deferred_item_after_thumbnail_failure() {
    let mut list = list_of(vec![sample_item(1, "one.png"), sample_item(2, "two.png")]);
    let (mut grid, _) = MediaGrid::new(config(), &list, GroupBy::Day, WIDTH, false);
    let inserted = sample_item(3, "inserted.png");
    let inserted_uri = inserted.uri.clone();
    list.insert(0, inserted);
    grid.handle_items_changed(&list, 0, 0, 1, &vec![false], WIDTH);
    assert_eq!(tile_count(&grid), 2);
    let outcome = grid.insert_deferred_incremental_item(&list, &inserted_uri, GroupBy::Day);
    assert_eq!(outcome, DeferredInsert::Inserted);
    assert_eq!(
        tile_count(&grid),
        3,
        "thumbnail failure should insert the final failure placeholder only after the request completes"
    );
    assert_eq!(grid.board.displayed[0].media_id, 3);
    assert_eq!(grid.board.sections[0].tiles[0], grid.board.displayed[0].flow_child);
}

#[test]
fn media_grid_rebuild_reuses_loaded_tiles_when_a_new_section_is_added() {
    let mut list = list_of(vec![sample_item(1, "one.png")]);
    let (mut grid, _) = MediaGrid::new(config(), &list, GroupBy::Day, WIDTH, false);
    let before = grid.board.displayed.clone();
    let mut inserted = sample_item(2, "new-day.png");
    inserted.taken_at = Some(at(2026, 6, 24));
    inserted.file_mtime = at(2026, 6, 24);
    list.insert(0, inserted);
    grid.rebuild(&list, WIDTH);
    let reuse = plan_tile_reuse(&before, &vec![false], &grid.board.displayed);
    assert!(
        reuse.iter().any(|tile| *tile == Some(before[0].flow_child)),
        "full rebuild fallback should reuse already-loaded tile widgets instead of making them gray again"
    );
}

#[test]
fn tests_rebuild_reuses_loaded_tiles_when_a_new_section_is_added() {
    let mut list = list_of(vec![sample_item(1, "one.png")]);
    let (mut grid, _) = MediaGrid::new(config(), &list, GroupBy::Day, WIDTH, false);
    let before = grid.board.displayed.clone();
    let mut inserted = sample_item(2, "new-day.png");
    inserted.taken_at = Some(at(2026, 6, 24));
    inserted.file_mtime = at(2026, 6, 24);
    list.insert(0, inserted);
    grid.rebuild(&list, WIDTH);
    let reuse = plan_tile_reuse(&before, &vec![false], &grid.board.displayed);
    assert!(
        reuse.iter().any(|tile| *tile == Some(before[0].flow_child)),
        "full rebuild fallback should reuse already-loaded tile widgets instead of making them gray again"
    );
}

#[test]
fn media_grid_album_grid_uses_progressive_first_render_seed() {
    let seed = config().startup_render_seed;
    let list = list_of(
        (1..=(seed + 12)).map(|id| sample_item(id as i64, &format!("album-{id}.png"))).collect(),
    );
    let (grid, _) =
        MediaGrid::new_for_album_with_context_menu(config(), &list, GroupBy::Day, WIDTH);
    assert_eq!(
        tile_count(&grid),
        seed,
        "album grids should use the same progressive first-render seed as the Photos grid"
    );
}

#[test]
fn tests_album_grid_uses_progressive_first_render_seed() {
    let seed = config().startup_render_seed;
    let list = list_of(
        (1..=(seed + 12)).map(|id| sample_item(id as i64, &format!("album-{id}.png"))).collect(),
    );
    let (grid, _) =
        MediaGrid::new_for_album_with_context_menu(config(), &list, GroupBy::Day, WIDTH);
    assert_eq!(
        tile_count(&grid),
        seed,
        "album grids should use the same progressive first-render seed as the Photos grid"
    );
}

#[test]
fn media_grid_progressive_render_addition_appends_without_rebuilding_existing_tiles() {
    let list = list_of(
        (1..=4).map(|id| sample_item(id, &format!("same-day-{id}.png"))).collect(),
    );
    let (mut grid, _) = MediaGrid::new(config(), &list, GroupBy::Day, WIDTH, false);
    grid.progress.rendered_limit = 2;
    grid.rebuild(&list, WIDTH);
    assert_eq!(tile_count(&grid), 2);
    let first_tile = grid.board.sections[0].tiles[0];
    assert!(
        grid.apply_progressive_render_addition(2, 2, &list),
        "same-section progressive fill should append instead of forcing a full rebuild"
    );
    assert_eq!(tile_count(&grid), 4);
    assert_eq!(
        grid.board.sections[0].tiles[0], first_tile,
        "progressive append must preserve already-rendered tile widgets"
    );
    assert_eq!(
        grid.paging.total, 4,
        "rendering more of the same model must not inflate full-library totals"
    );
}

#[test]
fn tests_progressive_render_addition_appends_without_rebuilding_existing_tiles() {
    let list = list_of(
        (1..=4).map(|id| sample_item(id, &format!("same-day-{id}.png"))).collect(),
    );
    let (mut grid, _) = MediaGrid::new(config(), &list, GroupBy::Day, WIDTH, false);
    grid.progress.rendered_limit = 2;
    grid.rebuild(&list, WIDTH);
    assert_eq!(tile_count(&grid), 2);
    let first_tile = grid.board.sections[0].tiles[0];
    assert!(
        grid.apply_progressive_render_addition(2, 2, &list),
        "same-section progressive fill should append instead of forcing a full rebuild"
    );
    assert_eq!(tile_count(&grid), 4);
    assert_eq!(
        grid.board.sections[0].tiles[0], first_tile,
        "progressive append must preserve already-rendered tile widgets"
    );
    assert_eq!(
        grid.paging.total, 4,
        "rendering more of the same model must not inflate full-library totals"
    );
}

#[test]
fn media_grid_inactive_grid_defers_initial_tile_build_until_activated() {
    let list = list_of(vec![sample_item(1, "one.png"), sample_item(2, "two.png")]);
    let (mut grid, _) =
        MediaGrid::new_with_initial_active(config(), &list, GroupBy::Month, WIDTH, false, false);
    assert_eq!(
        tile_count(&grid),
        0,
        "inactive grids should not build hidden FlowBox tiles at startup"
    );
    grid.set_active(true, &list, WIDTH);
    assert_eq!(
        tile_count(&grid),
        2,
        "activating a dirty grid should build tiles from the current model"
    );
}

#[test]
fn tests_inactive_grid_defers_initial_tile_build_until_activated() {
    let list = list_of(vec![sample_item(1, "one.png"), sample_item(2, "two.png")]);
    let (mut grid, _) =
        MediaGrid::new_with_initial_active(config(), &list, GroupBy::Month, WIDTH, false, false);
    assert_eq!(
        tile_count(&grid),
        0,
        "inactive grids should not build hidden FlowBox tiles at startup"
    );
    grid.set_active(true, &list, WIDTH);
    assert_eq!(
        tile_count(&grid),
        2,
        "activating a dirty grid should build tiles from the current model"
    );
}

#[test]
fn media_grid_inactive_full_library_grid_uses_progressive_seed_on_first_activation() {
    let seed = config().startup_render_seed;
    let list = list_of(
        (1..=(seed + 12))
            .map(|id| sample_item(id as i64, &format!("lazy-full-library-{id}.png")))
            .collect(),
    );
    let (mut grid, _) =
        MediaGrid::new_with_initial_active(config(), &list, GroupBy::Month, WIDTH, false, false);
    assert_eq!(
        tile_count(&grid),
        0,
        "inactive full-library grids should not build hidden tiles at startup"
    );
    grid.set_active(true, &list, WIDTH);
    assert_eq!(
        tile_count(&grid),
        seed,
        "first activation should render only the progressive seed, not the full model"
    );
}

#[test]
fn tests_inactive_full_library_grid_uses_progressive_seed_on_first_activation() {
    let seed = config().startup_render_seed;
    let list = list_of(
        (1..=(seed + 12))
            .map(|id| sample_item(id as i64, &format!("lazy-full-library-{id}.png")))
            .collect(),
    );
    let (mut grid, _) =
        MediaGrid::new_with_initial_active(config(), &list, GroupBy::Month, WIDTH, false, false);
    assert_eq!(
        tile_count(&grid),
        0,
        "inactive full-library grids should not build hidden tiles at startup"
    );
    grid.set_active(true, &list, WIDTH);
    assert_eq!(
        tile_count(&grid),
        seed,
        "first activation should render only the progressive seed, not the full model"
    );
}

#[test]
fn media_grid_active_empty_day_grid_rebuilds_when_first_scan_items_arrive() {
    let mut list = list_of(vec![]);
    let (mut grid, _) = MediaGrid::new(config(), &list, GroupBy::Day, WIDTH, false);
    assert_eq!(tile_count(&grid), 0);
    assert!(
        grid.stats.shown.is_none(),
        "empty Day grid should not render a stats label before media exists"
    );
    list.append(sample_item(1, "first-scan.png"));
    grid.handle_items_changed(&list, 0, 0, 1, &vec![false], WIDTH);
    assert_eq!(
        tile_count(&grid),
        1,
        "active Day grid must render the first media items delivered by startup scan"
    );
    assert!(
        grid.stats.shown.is_none(),
        "stats should be filled by background metadata, not the first scan-triggered rebuild"
    );
}

#[test]
fn tests_active_empty_day_grid_rebuilds_when_first_scan_items_arrive() {
    let mut list = list_of(vec![]);
    let (mut grid, _) = MediaGrid::new(config(), &list, GroupBy::Day, WIDTH, false);
    assert_eq!(tile_count(&grid), 0);
    assert!(
        grid.stats.shown.is_none(),
        "empty Day grid should not render a stats label before media exists"
    );
    list.append(sample_item(1, "first-scan.png"));
    grid.handle_items_changed(&list, 0, 0, 1, &vec![false], WIDTH);
    assert_eq!(
        tile_count(&grid),
        1,
        "active Day grid must render the first media items delivered by startup scan"
    );
    assert!(
        grid.stats.shown.is_none(),
        "stats should be filled by background metadata, not the first scan-triggered rebuild"
    );
}

#[test]
fn media_grid_day_grid_defers_stats_until_background_metadata_refresh() {
    let list = list_of(vec![sample_item(1, "one.png"), sample_item(2, "two.png")]);
    let (grid, outcome) = MediaGrid::new(config(), &list, GroupBy::Day, WIDTH, false);
    assert_eq!(tile_count(&grid), 2);
    assert!(
        grid.stats.shown.is_none(),
        "first rebuild should not block on full-library thumbnail stats"
    );
    assert_eq!(
        grid.paging.total, 2,
        "first rebuild should use the loaded window as the temporary total"
    );
    assert!(outcome.unwrap().load_metadata);
}

#[test]
fn tests_day_grid_defers_stats_until_background_metadata_refresh() {
    let list = list_of(vec![sample_item(1, "one.png"), sample_item(2, "two.png")]);
    let (grid, outcome) = MediaGrid::new(config(), &list, GroupBy::Day, WIDTH, false);
    assert_eq!(tile_count(&grid), 2);
    assert!(
        grid.stats.shown.is_none(),
        "first rebuild should not block on full-library thumbnail stats"
    );
    assert_eq!(
        grid.paging.total, 2,
        "first rebuild should use the loaded window as the temporary total"
    );
    assert!(outcome.unwrap().load_metadata);
}

#[test]
fn media_grid_metadata_invalidation_during_load_requests_followup_refresh() {
    let list = list_of(vec![sample_item(1, "one.png")]);
    let (mut grid, _) = MediaGrid::new(config(), &list, GroupBy::Day, WIDTH, false);
    grid.metadata.loading = true;
    grid.metadata.total = Some(1);
    grid.metadata.stats = Some(LibraryStats { live_total: 1, thumbnails_generated: 0 });
    grid.invalidate_library_metadata();
    assert!(
        grid.metadata.dirty_pending,
        "metadata invalidated while a DB snapshot is loading must request a follow-up refresh"
    );
    assert!(
        grid.metadata.total.is_none(),
        "stale total snapshot should be cleared immediately"
    );
    assert!(
        grid.metadata.stats.is_none(),
        "stale stats snapshot should be cleared immediately"
    );
}

#[test]
fn tests_metadata_invalidation_during_load_requests_followup_refresh() {
    let list = list_of(vec![sample_item(1, "one.png")]);
    let (mut grid, _) = MediaGrid::new(config(), &list, GroupBy::Day, WIDTH, false);
    grid.metadata.loading = true;
    grid.metadata.total = Some(1);
    grid.metadata.stats = Some(LibraryStats { live_total: 1, thumbnails_generated: 0 });
    grid.invalidate_library_metadata();
    assert!(
        grid.metadata.dirty_pending,
        "metadata invalidated while a DB snapshot is loading must request a follow-up refresh"
    );
    assert!(
        grid.metadata.total.is_none(),
        "stale total snapshot should be cleared immediately"
    );
    assert!(
        grid.metadata.stats.is_none(),
        "stale stats snapshot should be cleared immediately"
    );
}

#[test]
fn media_grid_day_grid_stats_are_above_first_section_header() {
    let list = list_of(vec![sample_item(1, "one.png")]);
    let (mut grid, _) = MediaGrid::new(config(), &list, GroupBy::Day, WIDTH, false);
    grid.metadata.total = Some(1);
    grid.metadata.stats = Some(LibraryStats { live_total: 1, thumbnails_generated: 0 });
    grid.rebuild(&list, WIDTH);
    assert_eq!(
        grid.content().first(),
        Some(&ContentChild::Stats(LibraryStats { live_total: 1, thumbnails_generated: 0 })),
        "Day grid stats should be the first content child, above the first date header"
    );
    assert!(grid.stats.timer);
}

#[test]
fn tests_day_grid_stats_are_above_first_section_header() {
    let list = list_of(vec![sample_item(1, "one.png")]);
    let (mut grid, _) = MediaGrid::new(config(), &list, GroupBy::Day, WIDTH, false);
    grid.metadata.total = Some(1);
    grid.metadata.stats = Some(LibraryStats { live_total: 1, thumbnails_generated: 0 });
    grid.rebuild(&list, WIDTH);
    assert_eq!(
        grid.content().first(),
        Some(&ContentChild::Stats(LibraryStats { live_total: 1, thumbnails_generated: 0 })),
        "Day grid stats should be the first content child, above the first date header"
    );
    assert!(grid.stats.timer);
}

#[test]
fn media_grid_pending_thumbnail_stats_survive_metadata_invalidation_rebuild() {
    let list = list_of(vec![sample_item(1, "one.png")]);
    let (mut grid, _) = MediaGrid::new(config(), &list, GroupBy::Day, WIDTH, false);
    grid.metadata.total = Some(1);
    grid.metadata.stats = Some(LibraryStats { live_total: 1, thumbnails_generated: 0 });
    grid.rebuild(&list, WIDTH);
    assert!(
        grid.stats.shown.is_some(),
        "pending thumbnail stats should be visible before invalidation"
    );
    grid.invalidate_library_metadata();
    grid.rebuild(&list, WIDTH);
    assert!(
        grid.stats.shown.is_some(),
        "metadata invalidation during thumbnail generation must not temporarily remove the stats prompt"
    );
}

#[test]
fn tests_pending_thumbnail_stats_survive_metadata_invalidation_rebuild() {
    let list = list_of(vec![sample_item(1, "one.png")]);
    let (mut grid, _) = MediaGrid::new(config(), &list, GroupBy::Day, WIDTH, false);
    grid.metadata.total = Some(1);
    grid.metadata.stats = Some(LibraryStats { live_total: 1, thumbnails_generated: 0 });
    grid.rebuild(&list, WIDTH);
    assert!(
        grid.stats.shown.is_some(),
        "pending thumbnail stats should be visible before invalidation"
    );
    grid.invalidate_library_metadata();
    grid.rebuild(&list, WIDTH);
    assert!(
        grid.stats.shown.is_some(),
        "metadata invalidation during thumbnail generation must not temporarily remove the stats prompt"
    );
}

#[test]
fn media_grid_album_grid_skips_global_library_stats() {
    let list = list_of(vec![sample_item(1, "album-only.png")]);
    let (grid, _) = MediaGrid::new_for_album(config(), &list, GroupBy::Day, WIDTH);
    assert!(
        grid.stats.shown.is_none(),
        "album grids should not query or render full-library thumbnail stats"
    );
    assert!(
        !grid.stats.timer,
        "album grids should not start the full-library stats refresh timer"
    );
}

#[test]
fn tests_album_grid_skips_global_library_stats() {
    let list = list_of(vec![sample_item(1, "album-only.png")]);
    let (grid, _) = MediaGrid::new_for_album(config(), &list, GroupBy::Day, WIDTH);
    assert!(
        grid.stats.shown.is_none(),
        "album grids should not query or render full-library thumbnail stats"
    );
    assert!(
        !grid.stats.timer,
        "album grids should not start the full-library stats refresh timer"
    );
}

#[test]
fn media_grid_completed_day_grid_stats_are_hidden() {
    let list = list_of(vec![sample_item(1, "complete.png")]);
    let (mut grid, _) = MediaGrid::new(config(), &list, GroupBy::Day, WIDTH, false);
    let snapshot = GridMetadataSnapshot {
        mode: GroupBy::Day,
        live_total: Some(1),
        library_stats: Some(LibraryStats { live_total: 1, thumbnails_generated: 1 }),
        section_counts: Some(SectionCounts::new()),
    };
    grid.finish_metadata_load(Some(snapshot), &list, WIDTH);
    assert!(
        grid.stats.shown.is_none(),
        "completed thumbnail generation should hide the Day grid stats label"
    );
    assert!(
        !grid.stats.timer,
        "completed thumbnail generation should not start a stats refresh timeout"
    );
}

#[test]
fn tests_completed_day_grid_stats_are_hidden() {
    let list = list_of(vec![sample_item(1, "complete.png")]);
    let (mut grid, _) = MediaGrid::new(config(), &list, GroupBy::Day, WIDTH, false);
    let snapshot = GridMetadataSnapshot {
        mode: GroupBy::Day,
        live_total: Some(1),
        library_stats: Some(LibraryStats { live_total: 1, thumbnails_generated: 1 }),
        section_counts: Some(SectionCounts::new()),
    };
    grid.finish_metadata_load(Some(snapshot), &list, WIDTH);
    assert!(
        grid.stats.shown.is_none(),
        "completed thumbnail generation should hide the Day grid stats label"
    );
    assert!(
        !grid.stats.timer,
        "completed thumbnail generation should not start a stats refresh timeout"
    );
}

#[test]
fn current_scroll_section_key_resolves_via_injected_counts() {
    let list = list_of(vec![]);
    let (mut grid, _) = MediaGrid::new(config(), &list, GroupBy::Month, WIDTH, false);
    assert!(grid.current_scroll_section_key(0).is_none());
    let mut counts = SectionCounts::new();
    counts.insert(key(2026, Some(7)), 3);
    counts.insert(key(2026, Some(6)), 2);
    counts.insert(key(2025, None), 4);
    grid.metadata.set_counts(GroupBy::Month, counts);
    grid.metadata.total = Some(9);
    assert!(grid.current_scroll_section_key(0) == Some(key(2026, Some(7))));
    assert!(grid.current_scroll_section_key(9) == Some(key(2025, None)));
    assert!(grid.current_scroll_section_key(3) == Some(key(2026, Some(6))));
    assert!(grid.current_scroll_section_key(5) == Some(key(2025, None)));
}

#[test]
fn reattaching_an_extra_child_detaches_its_previous_flowbox_wrapper() {
    let list = list_of(vec![sample_item(1, "one.png")]);
    let (mut grid, _) = MediaGrid::new(config(), &list, GroupBy::Year, WIDTH, false);
    grid.append_extra_child();
    let first_wrapper = grid.board.extra.unwrap();
    grid.append_extra_child();
    let second_wrapper = grid.board.extra.unwrap();
    assert_ne!(first_wrapper, second_wrapper);
    let tiles = &grid.board.sections[0].tiles;
    assert!(
        !tiles.contains(&first_wrapper),
        "the old wrapper must be removed and release the reused widget"
    );
    assert_eq!(*tiles.last().unwrap(), second_wrapper);
}

#[test]
fn photos_of_two_days_make_two_sections_with_headers() {
    let mut second = sample_item(2, "two.png");
    second.taken_at = Some(at(2026, 6, 22));
    let list = list_of(vec![sample_item(1, "one.png"), second]);
    let (mut grid, _) = MediaGrid::new(config(), &list, GroupBy::Day, WIDTH, false);
    assert_eq!(grid.board.sections.len(), 2);
    assert_eq!(grid.board.sections[0].header.unwrap().count, 1);
    assert_eq!(grid.displayed_indices(), vec![0, 1]);
    grid.set_mode(&list, GroupBy::Month, WIDTH);
    assert_eq!(grid.board.sections.len(), 1);
    grid.set_flat_sections(true, &list, WIDTH);
    assert!(grid.board.sections[0].header.is_none());
    assert!(grid.uses_flat_sections());
}

#[test]
fn rebuilding_twice_shows_the_same() {
    let list = list_of((1..=5).map(|id| sample_item(id, &format!("{id}.png"))).collect());
    let (mut grid, _) = MediaGrid::new(config(), &list, GroupBy::Day, WIDTH, false);
    grid.rebuild(&list, WIDTH);
    let once = grid.board.displayed.clone();
    grid.rebuild(&list, WIDTH);
    assert!(grid.board.displayed == once);
}

#[test]
fn a_fill_goes_on_until_the_first_page_is_complete() {
    let list = list_of((1..=200).map(|id| sample_item(id, &format!("{id}.png"))).collect());
    let (mut grid, outcome) = MediaGrid::new(config(), &list, GroupBy::Day, WIDTH, false);
    assert!(outcome.unwrap().start_fill);
    let generation = grid.progress.generation;
    assert_eq!(grid.progressive_render_tick(generation, &list, WIDTH), FillStep::Appended);
    assert_eq!(tile_count(&grid), 144);
    assert_eq!(grid.progressive_render_tick(generation, &list, WIDTH), FillStep::Appended);
    assert_eq!(tile_count(&grid), 200);
    assert_eq!(grid.progressive_render_tick(generation, &list, WIDTH), FillStep::Finished);
    grid.invalidate_progressive_render_fill();
    assert_eq!(grid.progressive_render_tick(generation, &list, WIDTH), FillStep::Cancelled);
}

#[test]
fn changes_off_screen_wait_for_the_grid_to_come_back() {
    let mut list = list_of(vec![sample_item(1, "one.png")]);
    let (mut grid, _) = MediaGrid::new(config(), &list, GroupBy::Day, WIDTH, false);
    assert!(grid.set_active(false, &list, WIDTH) == Activation::Changed);
    list.append(sample_item(2, "two.png"));
    let change = grid.handle_items_changed(&list, 1, 0, 1, &vec![true], WIDTH);
    assert_eq!(change.answer, ChangeAnswer::MarkDirty);
    assert_eq!(tile_count(&grid), 1);
    assert!(matches!(grid.set_active(true, &list, WIDTH), Activation::Rebuilt(_)));
    assert_eq!(tile_count(&grid), 2);
}

#[test]
fn replaced_photos_rebuild_the_grid_and_drop_the_selection() {
    let mut list = list_of(vec![sample_item(1, "one.png"), sample_item(2, "two.png")]);
    let (mut grid, _) = MediaGrid::new(config(), &list, GroupBy::Day, WIDTH, false);
    grid.select_ids(&vec![1]);
    list.splice(0, 1, vec![sample_item(9, "nine.png")]);
    let change = grid.handle_items_changed(&list, 0, 1, 1, &vec![true], WIDTH);
    assert_eq!(change.answer, ChangeAnswer::RebuildReplaced);
    assert!(change.selection_changed);
    assert_eq!(grid.board.displayed[0].media_id, 9);
    assert!(grid.selected_ids().is_empty());
}

#[test]
fn photos_of_a_new_section_rebuild_after_a_quiet_moment() {
    let mut list = list_of(vec![sample_item(1, "one.png")]);
    let (mut grid, _) = MediaGrid::new(config(), &list, GroupBy::Day, WIDTH, false);
    let mut other = sample_item(2, "two.png");
    other.taken_at = Some(at(2026, 6, 24));
    list.insert(0, other);
    let change = grid.handle_items_changed(&list, 0, 0, 1, &vec![true], WIDTH);
    assert_eq!(change.answer, ChangeAnswer::Schedule);
    assert!(change.newly_scheduled);
    assert_eq!(tile_count(&grid), 1);
    grid.run_scheduled_rebuild(&list, WIDTH);
    assert_eq!(tile_count(&grid), 2);
}

#[test]
fn deferred_photos_are_placed_only_where_they_belong() {
    let list = list_of(vec![sample_item(1, "one.png")]);
    let (mut grid, _) = MediaGrid::new(config(), &list, GroupBy::Day, WIDTH, false);
    let shown = "file:///tmp/one.png".to_string();
    let gone = "file:///tmp/gone.png".to_string();
    assert_eq!(
        grid.insert_deferred_incremental_item(&list, &shown, GroupBy::Day),
        DeferredInsert::AlreadyShown
    );
    assert_eq!(
        grid.insert_deferred_incremental_item(&list, &gone, GroupBy::Day),
        DeferredInsert::Gone
    );
    grid.set_active(false, &list, WIDTH);
    assert_eq!(
        grid.insert_deferred_incremental_item(&list, &shown, GroupBy::Day),
        DeferredInsert::MarkedDirty
    );
}

#[test]
fn tiles_open_photos_or_toggle_them() {
    let list = list_of(vec![sample_item(1, "one.png"), sample_item(2, "two.png")]);
    let (mut grid, _) = MediaGrid::new(config(), &list, GroupBy::Day, WIDTH, true);
    let child = grid.board.displayed[1].flow_child;
    assert!(grid.activate_child(child) == TileActivation::Open(2));
    assert!(grid.activate_child(u64::MAX) == TileActivation::Nothing);
    grid.set_multi_select_mode(true);
    assert!(grid.activate_child(child) == TileActivation::Toggled(2, true));
    assert_eq!(grid.selected_ids(), vec![2]);
    assert!(!grid.is_all_displayed_selected());
    grid.select_all();
    assert!(grid.is_all_displayed_selected());
    assert!(grid.activate_child(child) == TileActivation::Toggled(2, false));
    assert!(grid.clear_selection());
    assert!(!grid.is_multi_select_mode());
    assert_eq!(media_item_for_id(&list, 2).unwrap().uri, "file:///tmp/two.png");
    assert!(media_item_for_id(&list, 3).is_none());
}

#[test]
fn menus_offer_what_can_be_done() {
    let list = list_of(vec![sample_item(1, "one.png"), sample_item(2, "two.png")]);
    let (mut grid, _) = MediaGrid::new(config(), &list, GroupBy::Day, WIDTH, true);
    let child = grid.board.displayed[0].flow_child;
    assert_eq!(grid.photo_for_child(child), Some(1));
    assert_eq!(grid.context_menu_targets(child).unwrap().ids, vec![1]);
    let plain = context_menu_entries(false, FavoriteMenuState::default(), true, false);
    let with_cover = context_menu_entries(false, FavoriteMenuState::default(), true, true);
    assert_eq!(with_cover.len(), plain.len() + 1);
    let state = FavoriteMenuState { can_favorite: true, can_unfavorite: true };
    assert_eq!(context_menu_entries(true, state, true, false).len(), plain.len() + 2);
    assert_ne!(trash_question(1), trash_question(2));
    let (mut without_menu, _) = MediaGrid::new(config(), &list, GroupBy::Day, WIDTH, false);
    let child = without_menu.board.displayed[0].flow_child;
    assert!(without_menu.context_menu_targets(child).is_none());
}

/// A grid that shows the first page of a library of a thousand photos.
fn grid_of_a_large_library(list: &MediaList) -> MediaGrid {
    let mut small = config();
    small.virtual_media_page_size = 10;
    small.startup_progressive_render = false;
    let (mut grid, _) = MediaGrid::new(small, list, GroupBy::Day, WIDTH, false);
    let snapshot = GridMetadataSnapshot {
        mode: GroupBy::Day,
        live_total: Some(1_000),
        library_stats: Some(LibraryStats { live_total: 1_000, thumbnails_generated: 10 }),
        section_counts: Some(SectionCounts::new()),
    };
    let arrival = grid.finish_metadata_load(Some(snapshot), list, WIDTH);
    assert!(matches!(arrival, MetadataArrival::Shown(_)));
    assert_eq!(grid.paging.total, 1_000);
    grid
}

#[test]
fn scrolling_loads_pages_and_the_latest_wish_wins() {
    let mut list = list_of((1..=10).map(|id| sample_item(id, &format!("{id}.png"))).collect());
    let mut grid = grid_of_a_large_library(&list);
    let first = match grid.try_load_virtual_page(&list, 500, 0.5f64.to_bits()) {
        PageRequest::Read(query) => query,
        other => panic!("a page should be read, not {other:?}"),
    };
    assert_eq!(first.start, 495);
    assert!(grid.try_load_virtual_page(&list, 700, 0.7f64.to_bits()) == PageRequest::Coalesced);
    let page: Vec<MediaItem> = (501..=510).map(|id| sample_item(id, &format!("{id}.png"))).collect();
    let second: PageQuery = match grid.accept_virtual_page(&mut list, first, page, 700) {
        PageArrival::Superseded(query) => query,
        other => panic!("another page is wanted, not {other:?}"),
    };
    assert_eq!(list.item(0).unwrap().id, 1);
    let page: Vec<MediaItem> = (701..=710).map(|id| sample_item(id, &format!("{id}.png"))).collect();
    assert!(grid.accept_virtual_page(&mut list, second, page, 700) == PageArrival::Placed);
    assert_eq!(list.item(0).unwrap().id, 701);
    let change = grid.handle_items_changed(&list, 0, 10, 10, &vec![true; 10], WIDTH);
    assert_eq!(change.answer, ChangeAnswer::Ignore);
    grid.settle_virtual_page(&list, WIDTH);
    assert_eq!(grid.paging.window_start, second.start);
    assert_eq!(grid.board.displayed[0].media_id, 701);
    assert!(grid.layout.top_spacer > 0 && grid.layout.bottom_spacer > 0);
}

#[test]
fn progress_lines_are_refreshed_until_all_thumbnails_are_there() {
    let list = list_of(vec![sample_item(1, "one.png")]);
    let mut grid = grid_of_a_large_library(&list);
    assert!(grid.stats.shown.is_some());
    assert!(grid.stats_refresh_tick() == StatsTick::Refresh);
    assert!(grid.stats_refresh_tick() == StatsTick::Wait);
    grid.finish_stats_refresh(Some(LibraryStats { live_total: 1_000, thumbnails_generated: 1_000 }));
    assert!(grid.stats.shown.is_none());
    assert!(grid.stats_refresh_tick() == StatsTick::Stop);
}

#[test]
fn metadata_that_is_out_of_date_is_loaded_again() {
    let list = list_of(vec![sample_item(1, "one.png")]);
    let (mut grid, _) = MediaGrid::new(config(), &list, GroupBy::Day, WIDTH, false);
    grid.invalidate_library_metadata();
    assert!(grid.finish_metadata_load(None, &list, WIDTH) == MetadataArrival::OutOfDate(true));
    assert!(grid.finish_metadata_load(None, &list, WIDTH) == MetadataArrival::Failed);
}

#[test]
fn counts_follow_photos_that_come_and_go() {
    let mut list = list_of(vec![sample_item(1, "one.png"), sample_item(2, "two.png")]);
    let (mut grid, _) = MediaGrid::new(config(), &list, GroupBy::Day, WIDTH, false);
    let day = grid.board.sections[0].key;
    let mut counts = SectionCounts::new();
    counts.insert(day, 2);
    grid.metadata.set_counts(GroupBy::Day, counts);
    list.insert(0, sample_item(3, "three.png"));
    assert_eq!(grid.apply_incremental_addition(0, 1, &list, &vec![true]), Some(vec![]));
    assert_eq!(grid.metadata.counts(GroupBy::Day).unwrap().get(day), Some(3));
    assert_eq!(grid.board.sections[0].header.unwrap().count, 3);
    list.remove(2);
    grid.handle_items_changed(&list, 2, 1, 0, &vec![], WIDTH);
    assert_eq!(grid.metadata.counts(GroupBy::Day).unwrap().get(day), Some(2));
}

#[test]
fn scrolling_near_the_bottom_renders_more() {
    let list = list_of(vec![sample_item(1, "one.png")]);
    let mut quick = config();
    quick.startup_progressive_render = false;
    let (mut grid, _) = MediaGrid::new(quick, &list, GroupBy::Day, WIDTH, false);
    assert_eq!(grid.try_expand_render_limit(false), None);
    let before = grid.progress.rendered_limit;
    assert_eq!(grid.try_expand_render_limit(true), Some(true));
    assert_eq!(grid.progress.rendered_limit, before + 500);
    assert_eq!(grid.try_expand_render_limit(true), Some(false));
}

#[test]
fn tiles_near_the_viewport_are_asked_for() {
    let places = vec![
        TilePlace::Above,
        TilePlace::Near,
        TilePlace::Unknown,
        TilePlace::Near,
        TilePlace::Below,
        TilePlace::Near,
    ];
    assert_eq!(collect_visible_tiles(&places), vec![1, 3]);
    let mut debounce = Debounce::new();
    assert!(debounce.schedule());
    assert!(!debounce.schedule());
    debounce.fire();
    assert!(debounce.schedule());
}

#[test]
fn scrolling_asks_for_pages_and_tiles_together() {
    let list = list_of((1..=10).map(|id| sample_item(id, &format!("{id}.png"))).collect());
    let mut grid = grid_of_a_large_library(&list);
    let before = grid.progress.rendered_limit;
    let answer = grid.scroll_changed(&list, 500, 0.5f64.to_bits(), true);
    match answer.page {
        PageRequest::Read(query) => assert_eq!(query.start, 495),
        other => panic!("a page should be read, not {other:?}"),
    }
    assert!(answer.expanded.is_some());
    assert_eq!(grid.progress.rendered_limit, before + 500);
    grid.begin_scroll_restore();
    let answer = grid.scroll_changed(&list, 900, 0.9f64.to_bits(), true);
    assert!(answer.page == PageRequest::NotNeeded);
    assert_eq!(answer.expanded, None);
    assert_eq!(grid.progress.rendered_limit, before + 500);
    grid.end_scroll_restore();
    let answer = grid.scroll_changed(&list, 900, 0.9f64.to_bits(), true);
    assert!(answer.expanded.is_some());
}

#[test]
fn only_selected_tiles_are_marked() {
    let list = list_of(vec![sample_item(1, "one.png"), sample_item(2, "two.png")]);
    let (mut grid, _) = MediaGrid::new(config(), &list, GroupBy::Day, WIDTH, false);
    assert!(grid.sync_visible_selection().iter().all(|mark| !mark.selected));
    assert!(grid.select_ids(&vec![2, 9]));
    let tiles: Vec<_> = grid.board.displayed.iter().map(|item| item.flow_child).collect();
    assert_eq!(
        grid.sync_visible_selection(),
        vec![
            TileMark { flow_child: tiles[0], selected: false },
            TileMark { flow_child: tiles[1], selected: true },
        ]
    );
    assert_eq!(grid.selected_ids(), vec![2, 9]);
    assert!(grid.set_multi_select_mode(false));
    assert!(grid.selected_ids().is_empty());
    assert!(grid.sync_visible_selection().iter().all(|mark| !mark.selected));
}

#[test]
fn content_stands_in_order() {
    let list = list_of((1..=10).map(|id| sample_item(id, &format!("{id}.png"))).collect());
    let mut grid = grid_of_a_large_library(&list);
    let stats = grid.stats.shown.unwrap();
    let label = grid.board.sections[0].header.unwrap();
    let below = grid.layout.bottom_spacer;
    assert_eq!(
        grid.content(),
        vec![
            ContentChild::Stats(stats),
            ContentChild::Header(label),
            ContentChild::Tiles(0),
            ContentChild::BottomSpacer(below),
        ]
    );
    grid.paging.window_start = 500;
    grid.rebuild(&list, WIDTH);
    let above = grid.layout.top_spacer;
    assert_eq!(grid.content()[0], ContentChild::TopSpacer(above));
    assert_eq!(grid.content()[1], ContentChild::Stats(stats));
}

#[test]
fn removing_what_was_added_brings_the_grid_back() {
    let mut list = list_of(vec![
        sample_item(1, "one.png"),
        sample_item(2, "two.png"),
        sample_item(3, "three.png"),
    ]);
    let (mut grid, _) = MediaGrid::new(config(), &list, GroupBy::Day, WIDTH, false);
    let day = grid.board.sections[0].key;
    let mut counts = SectionCounts::new();
    counts.insert(day, 3);
    grid.metadata.set_counts(GroupBy::Day, counts);
    grid.set_multi_select_mode(true);
    assert!(grid.select_ids(&vec![1, 3]));
    let tiles = grid.board.sections[0].tiles.clone();
    let shown: Vec<(u32, i64, u64)> = grid
        .board
        .displayed
        .iter()
        .map(|item| (item.window_index, item.media_id, item.flow_child))
        .collect();
    let total = grid.paging.total;

    list.insert(1, sample_item(4, "four.png"));
    list.insert(2, sample_item(5, "five.png"));
    assert_eq!(grid.apply_incremental_addition(1, 2, &list, &vec![true, true]), Some(vec![]));
    assert_eq!(tile_count(&grid), 5);
    assert_eq!(grid.metadata.counts(GroupBy::Day).unwrap().get(day), Some(5));

    list.remove(1);
    list.remove(1);
    grid.handle_items_changed(&list, 1, 2, 0, &vec![], WIDTH);
    let back: Vec<(u32, i64, u64)> = grid
        .board
        .displayed
        .iter()
        .map(|item| (item.window_index, item.media_id, item.flow_child))
        .collect();
    assert_eq!(back, shown);
    assert_eq!(grid.board.sections.len(), 1);
    assert_eq!(grid.board.sections[0].tiles, tiles);
    assert_eq!(grid.selected_ids(), vec![1, 3]);
    assert_eq!(grid.paging.total, total);
    assert_eq!(grid.metadata.counts(GroupBy::Day).unwrap().get(day), Some(3));
}

#[test]
fn photos_that_come_and_go_leave_the_grid_as_it_was() {
    let mut list = list_of(vec![sample_item(1, "one.png"), sample_item(2, "two.png")]);
    let (mut grid, _) = MediaGrid::new(config(), &list, GroupBy::Day, WIDTH, false);
    let tiles = grid.board.sections[0].tiles.clone();
    list.insert(0, sample_item(3, "three.png"));
    let change = grid.handle_items_changed(&list, 0, 0, 1, &vec![true], WIDTH);
    assert_eq!(change.answer, ChangeAnswer::Insert);
    assert_eq!(tile_count(&grid), 3);
    list.remove(0);
    let change = grid.handle_items_changed(&list, 0, 1, 0, &vec![], WIDTH);
    assert_eq!(change.answer, ChangeAnswer::Remove);
    assert_eq!(grid.board.sections[0].tiles, tiles);
    let shown: Vec<(u32, i64)> =
        grid.board.displayed.iter().map(|item| (item.window_index, item.media_id)).collect();
    assert_eq!(shown, vec![(0, 1), (1, 2)]);
}
