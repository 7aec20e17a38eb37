use photo_viewer::media::{GroupBy, ThumbnailSize};
use photo_viewer::media_grid::render::{
    build_virtual_placeholder_flow, sync_flow_child_visibility_for_tile,
};
use photo_viewer::media_grid::selection::SelectionMode;
use photo_viewer::media_grid::virtual_paging::{
    estimated_virtual_columns, replace_pending_virtual_page, should_consider_virtual_page_load,
    virtual_offset_for_ratio, virtual_page_start_for_offset, virtual_spacer_height,
    virtual_window_item_count, PendingVirtualPage,
};
use photo_viewer::media_grid::{spec_for_mode, ViewSpec};

fn day_spec() -> ViewSpec {
    ViewSpec { mode: GroupBy::Day, pixel_size: 270, thumb_size: ThumbnailSize::Large }
}

fn offset_for_ratio(ratio: f64, total: u32, page_size: u32) -> u32 {
    let scaled = (total as f64 * ratio.clamp(0.0, 1.0)).floor() as u32;
    virtual_offset_for_ratio(scaled, total, page_size)
}

#[test]
fn media_grid_virtual_placeholder_flow_renders_loading_tiles_immediately() {
    let spec = day_spec();
    let flow = build_virtual_placeholder_flow(spec, 12);
    assert_eq!(flow.css_class, "virtual-placeholder-grid");
    assert_eq!(flow.selection_mode, SelectionMode::Disabled);
    for tile in &flow.tiles {
        assert_eq!(tile.target, 270);
        assert!(tile.loading);
        assert!(tile.placeholder);
        assert!(sync_flow_child_visibility_for_tile(tile));
    }
    assert_eq!(flow.tiles.len(), 12);
}

#[test]
fn tests_virtual_placeholder_flow_renders_loading_tiles_immediately() {
    let spec = day_spec();
    let flow = build_virtual_placeholder_flow(spec, 12);
    assert_eq!(flow.css_class, "virtual-placeholder-grid");
    assert_eq!(flow.selection_mode, SelectionMode::Disabled);
    for tile in &flow.tiles {
        assert_eq!(tile.target, 270);
        assert!(tile.loading);
        assert!(tile.placeholder);
        assert!(sync_flow_child_visibility_for_tile(tile));
    }
    assert_eq!(flow.tiles.len(), 12);
}

#[test]
fn media_grid_virtual_scroll_ratio_maps_to_full_library_offset() {
    assert_eq!(offset_for_ratio(0.0, 100_000, 500), 0);
    assert_eq!(offset_for_ratio(0.50, 100_000, 500), 50_000);
    assert_eq!(offset_for_ratio(0.99, 100_000, 500), 99_000);
    assert_eq!(offset_for_ratio(1.0, 100_000, 500), 99_500);
}

#[test]
fn tests_virtual_scroll_ratio_maps_to_full_library_offset() {
    assert_eq!(offset_for_ratio(0.0, 100_000, 500), 0);
    assert_eq!(offset_for_ratio(0.50, 100_000, 500), 50_000);
    assert_eq!(offset_for_ratio(0.99, 100_000, 500), 99_000);
    assert_eq!(offset_for_ratio(1.0, 100_000, 500), 99_500);
}

#[test]
fn media_grid_virtual_scroll_prefetches_before_window_edge() {
    assert_eq!(
        virtual_page_start_for_offset(850, 0, 1_000, 100_000, 500),
        Some(600),
        "80%+ through the current window should prefetch ahead"
    );
    assert_eq!(
        virtual_page_start_for_offset(550, 0, 1_000, 100_000, 500),
        None,
        "middle of current window should not reload"
    );
    assert_eq!(
        virtual_page_start_for_offset(50_000, 0, 1_000, 100_000, 500),
        Some(49_750),
        "dragging the full-library scrollbar should jump near that global offset"
    );
    assert_eq!(
        virtual_page_start_for_offset(99_900, 99_000, 1_000, 100_000, 500),
        Some(99_500),
        "near the end should clamp to the last full page"
    );
}

#[test]
fn tests_virtual_scroll_prefetches_before_window_edge() {
    assert_eq!(
        virtual_page_start_for_offset(850, 0, 1_000, 100_000, 500),
        Some(600),
        "80%+ through the current window should prefetch ahead"
    );
    assert_eq!(
        virtual_page_start_for_offset(550, 0, 1_000, 100_000, 500),
        None,
        "middle of current window should not reload"
    );
    assert_eq!(
        virtual_page_start_for_offset(50_000, 0, 1_000, 100_000, 500),
        Some(49_750),
        "dragging the full-library scrollbar should jump near that global offset"
    );
    assert_eq!(
        virtual_page_start_for_offset(99_900, 99_000, 1_000, 100_000, 500),
        Some(99_500),
        "near the end should clamp to the last full page"
    );
}

#[test]
fn media_grid_virtual_scroll_absolute_end_targets_last_page() {
    assert_eq!(
        virtual_page_start_for_offset(99_500, 0, 500, 100_000, 500),
        Some(99_500),
        "dragging to the absolute end must load the final page, not a centered window above bottom spacer"
    );
    assert_eq!(
        virtual_page_start_for_offset(99_593, 0, 500, 100_093, 500),
        Some(99_593),
        "non-page-aligned library totals must still land on the final partial boundary"
    );
}

#[test]
fn tests_virtual_scroll_absolute_end_targets_last_page() {
    assert_eq!(
        virtual_page_start_for_offset(99_500, 0, 500, 100_000, 500),
        Some(99_500),
        "dragging to the absolute end must load the final page, not a centered window above bottom spacer"
    );
    assert_eq!(
        virtual_page_start_for_offset(99_593, 0, 500, 100_093, 500),
        Some(99_593),
        "non-page-aligned library totals must still land on the final partial boundary"
    );
}

#[test]
fn media_grid_virtual_spacer_height_scales_with_unloaded_items() {
    let spec = day_spec();
    assert_eq!(virtual_spacer_height(0, 4, spec), 0);
    assert!(virtual_spacer_height(1_000, 4, spec) > virtual_spacer_height(100, 4, spec));
}

#[test]
fn tests_virtual_spacer_height_scales_with_unloaded_items() {
    let spec = day_spec();
    assert_eq!(virtual_spacer_height(0, 4, spec), 0);
    assert!(virtual_spacer_height(1_000, 4, spec) > virtual_spacer_height(100, 4, spec));
}

#[test]
fn media_grid_virtual_loading_window_counts_placeholders_for_target_page() {
    assert_eq!(virtual_window_item_count(0, 100_000, 500), 500);
    assert_eq!(virtual_window_item_count(99_500, 100_000, 500), 500);
    assert_eq!(virtual_window_item_count(99_800, 100_000, 500), 200);
    assert_eq!(virtual_window_item_count(100_000, 100_000, 500), 0);
}

#[test]
fn tests_virtual_loading_window_counts_placeholders_for_target_page() {
    assert_eq!(virtual_window_item_count(0, 100_000, 500), 500);
    assert_eq!(virtual_window_item_count(99_500, 100_000, 500), 500);
    assert_eq!(virtual_window_item_count(99_800, 100_000, 500), 200);
    assert_eq!(virtual_window_item_count(100_000, 100_000, 500), 0);
}

#[test]
fn media_grid_programmatic_scroll_restore_does_not_request_virtual_page() {
    assert!(
        should_consider_virtual_page_load(false, 100_000, 500),
        "user-driven scrolling in a virtualized library should still consider page loads"
    );
    assert!(
        !should_consider_virtual_page_load(true, 100_000, 500),
        "restoring scroll after a rebuild must not recursively request another virtual page"
    );
    assert!(
        !should_consider_virtual_page_load(false, 500, 500),
        "fully loaded small libraries do not need virtual page loads"
    );
    assert!(
        !should_consider_virtual_page_load(false, 100_000, 0),
        "an empty current window cannot be used to target a virtual page"
    );
}

#[test]
fn tests_programmatic_scroll_restore_does_not_request_virtual_page() {
    assert!(
        should_consider_virtual_page_load(false, 100_000, 500),
        "user-driven scrolling in a virtualized library should still consider page loads"
    );
    assert!(
        !should_consider_virtual_page_load(true, 100_000, 500),
        "restoring scroll after a rebuild must not recursively request another virtual page"
    );
    assert!(
        !should_consider_virtual_page_load(false, 500, 500),
        "fully loaded small libraries do not need virtual page loads"
    );
    assert!(
        !should_consider_virtual_page_load(false, 100_000, 0),
        "an empty current window cannot be used to target a virtual page"
    );
}

#[test]
fn media_grid_coalesced_virtual_page_target_keeps_latest_drag_target() {
    let mut pending = PendingVirtualPage { start: None, ratio: None };
    replace_pending_virtual_page(&mut pending, 20_000, 0.20f64.to_bits());
    replace_pending_virtual_page(&mut pending, 55_000, 0.55f64.to_bits());
    assert_eq!(pending.start, Some(55_000));
    assert_eq!(pending.ratio.map(f64::from_bits), Some(0.55));
}

#[test]
fn tests_coalesced_virtual_page_target_keeps_latest_drag_target() {
    let mut pending = PendingVirtualPage { start: None, ratio: None };
    replace_pending_virtual_page(&mut pending, 20_000, 0.20f64.to_bits());
    replace_pending_virtual_page(&mut pending, 55_000, 0.55f64.to_bits());
    assert_eq!(pending.start, Some(55_000));
    assert_eq!(pending.ratio.map(f64::from_bits), Some(0.55));
}

#[test]
fn an_empty_library_has_no_pages() {
    assert_eq!(virtual_offset_for_ratio(10, 0, 500), 0);
    assert_eq!(virtual_page_start_for_offset(10, 0, 500, 0, 500), None);
    assert_eq!(virtual_window_item_count(0, 0, 500), 0);
}

#[test]
fn spacers_count_whole_rows() {
    let spec = day_spec();
    assert_eq!(virtual_spacer_height(5, 4, spec), 2 * 272);
    assert_eq!(virtual_spacer_height(8, 4, spec), 2 * 272);
    assert_eq!(virtual_spacer_height(3, 0, spec), 3 * 272);
    assert_eq!(virtual_spacer_height(u32::MAX, 1, spec), i32::MAX);
}

#[test]
fn at_least_one_column_fits() {
    assert_eq!(estimated_virtual_columns(1_000, day_spec()), 3);
    assert_eq!(estimated_virtual_columns(0, day_spec()), 1);
}

#[test]
fn a_chosen_page_holds_the_offset() {
    let start = virtual_page_start_for_offset(50_000, 0, 1_000, 100_000, 500).unwrap();
    assert!(start <= 50_000 && 50_000 < start + 500);
}

#[test]
fn views_have_their_own_tiles() {
    let year = spec_for_mode(GroupBy::Year);
    assert_eq!((year.pixel_size, year.thumb_size), (90, ThumbnailSize::Small));
    let month = spec_for_mode(GroupBy::Month);
    assert_eq!((month.pixel_size, month.thumb_size), (180, ThumbnailSize::Medium));
    let day = spec_for_mode(GroupBy::Day);
    assert_eq!((day.pixel_size, day.thumb_size), (270, ThumbnailSize::Medium));
}

#[test]
fn scrolling_further_never_leads_back() {
    let mut last = 0;
    for scaled in [0, 1, 499, 500, 501, 900, 1_000] {
        let offset = virtual_offset_for_ratio(scaled, 1_000, 500);
        assert!(offset >= last && offset <= 500);
        last = offset;
    }
    assert_eq!(virtual_offset_for_ratio(1_000, 1_000, 500), 500);
    assert_eq!(virtual_offset_for_ratio(7, 0, 500), 0);
}

#[test]
fn windows_without_neighbours_need_no_page() {
    assert_eq!(virtual_page_start_for_offset(5, u32::MAX, 0, 100, 10), None);
    assert_eq!(virtual_page_start_for_offset(5, u32::MAX, 100, 100, 10), None);
    assert_eq!(virtual_page_start_for_offset(5, u32::MAX, 10, 0, 10), None);
}
