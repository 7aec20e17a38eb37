use photo_viewer::calendar::Timestamp;
use photo_viewer::editor::crop::{
    default_free_crop_rect, normalized_crop_rect, Aspect, CropRatio, CropRect,
};
use photo_viewer::editor::page::{page_save_finished, EditorPage};
use photo_viewer::editor::panel::{
    save_finished, CenteredCropRequest, EditorPanel, SaveResultKind, SourceImage, ToastKind,
};
use photo_viewer::editor::pixels::{
    dynamic_image_from_pixbuf, measure_source, preview_pixels, preview_source, PixelBuffer,
};
use photo_viewer::editor::scale_row::make_scale_row;
use photo_viewer::editor::state::{
    Adjustment, EditState, RenderArrival, Rotation, RotationStep, SaveOutcome, SaveTarget,
};
use photo_viewer::media::MediaItem;

fn photo(id: i64) -> MediaItem {
    MediaItem {
        id,
        uri: format!("file:///tmp/{id}.jpg"),
        path: format!("/tmp/{id}.jpg"),
        folder_path: "/tmp".to_string(),
        mime_type: "image/jpeg".to_string(),
        media_subkind: "standard".to_string(),
        media_attributes: "{}".to_string(),
        width: Some(100),
        height: Some(100),
        video_duration_secs: None,
        taken_at: None,
        file_mtime: Timestamp::new(0, 0).unwrap(),
        file_size: 100,
        blake3_hash: "h".to_string(),
        is_favorite: false,
        trashed_at: None,
    }
}

fn rect(x: u32, y: u32, width: u32, height: u32) -> CropRect {
    CropRect { x, y, width, height }
}

fn loaded_panel(width: u32, height: u32) -> EditorPanel {
    let mut panel = EditorPanel::new();
    let request = panel.configure(photo(1));
    assert_eq!(request.path, "/tmp/1.jpg");
    assert!(panel.source_loaded(request.token, Some(SourceImage { width, height })));
    panel
}

/// The result of rounding in double precision, as a check on whole numbers.
fn rounded_float(length: u32, by: u32, per: u32, most: u32) -> u32 {
    ((length as f64 * by as f64 / per as f64).round() as u32).clamp(1, most)
}

#[test]
fn first_crop_is_nine_tenths_of_the_image() {
    assert_eq!(default_free_crop_rect(100, 50), rect(5, 2, 90, 45));
    assert_eq!(default_free_crop_rect(1, 1), rect(0, 0, 1, 1));
    for size in [0u32, 1, 2, 3, 5, 15, 25, 999, 4_000, 65_535, 4_294_967_295] {
        let expected = ((size as f64) * 0.9).round() as u32;
        assert_eq!(default_free_crop_rect(size, 1).width, expected.max(1));
    }
}

#[test]
fn drawn_crops_are_moved_into_the_image() {
    let free = CropRatio::Free;
    assert_eq!(normalized_crop_rect(rect(10, 10, 20, 20), 100, 80, free), rect(10, 10, 20, 20));
    assert_eq!(normalized_crop_rect(rect(90, 70, 50, 50), 100, 80, free), rect(90, 70, 10, 10));
    assert_eq!(normalized_crop_rect(rect(500, 500, 0, 0), 100, 80, free), rect(99, 79, 1, 1));
}

#[test]
fn drawn_crops_take_the_chosen_aspect() {
    assert_eq!(
        normalized_crop_rect(rect(0, 0, 40, 10), 100, 80, CropRatio::FourThree),
        rect(0, 0, 40, 30)
    );
    assert_eq!(
        normalized_crop_rect(rect(0, 60, 90, 10), 100, 80, CropRatio::Square),
        rect(0, 60, 20, 20)
    );
    assert_eq!(
        normalized_crop_rect(rect(0, 0, 50, 10), 100, 80, CropRatio::Source),
        rect(0, 0, 50, 40)
    );
    for width in [1u32, 7, 33, 640, 1_919] {
        let found = normalized_crop_rect(rect(3, 5, width, 9), 1_920, 1_081, CropRatio::SixteenNine);
        let high = rounded_float(width.min(1_917), 9, 16, 1_076);
        let wide = rounded_float(high, 16, 9, 1_917);
        assert_eq!(found, rect(3, 5, wide, high));
    }
}

#[test]
fn rotations_add_up() {
    let mut panel = loaded_panel(400, 300);
    assert_eq!(panel.current_crop_space_dimensions(), (400, 300));
    panel.apply_rotation_delta(RotationStep::Clockwise, None);
    assert_eq!(panel.state.rotation, Rotation::R90);
    assert_eq!(panel.current_crop_space_dimensions(), (300, 400));
    panel.apply_rotation_delta(RotationStep::Half, None);
    assert_eq!(panel.state.rotation, Rotation::R270);
    panel.apply_rotation_delta(RotationStep::Clockwise, None);
    assert_eq!(panel.state.rotation, Rotation::R0);
    panel.apply_rotation_delta(RotationStep::Counterclockwise, None);
    assert_eq!(panel.state.rotation, Rotation::R270);
    assert_eq!(RotationStep::Counterclockwise.degrees(), -90);
}

#[test]
fn cropping_needs_a_photo() {
    let mut panel = EditorPanel::new();
    assert_eq!(panel.toggle_crop_mode(None), Some(ToastKind::Error));
    assert!(!panel.crop_mode_active);
    assert!(!panel.set_crop_rect_from_overlay(rect(0, 0, 1, 1)));
    assert!(panel.save().is_none());
    assert!(panel.render_preview().is_none());
}

#[test]
fn cropping_begins_with_the_chosen_ratio() {
    let mut panel = loaded_panel(400, 300);
    assert_eq!(panel.active_crop_ratio(), CropRatio::Source);
    assert_eq!(panel.toggle_crop_mode(None), None);
    assert_eq!(panel.state.crop, Some(rect(0, 0, 400, 300)));
    assert!(panel.crop_overlay_update().active);
    assert_eq!(panel.next_crop_ratio(true), CropRatio::Square);
    panel.step_crop_ratio(true, Some(rect(50, 0, 300, 300)));
    assert_eq!(panel.state.crop, Some(rect(50, 0, 300, 300)));
    panel.step_crop_ratio(false, None);
    assert_eq!(panel.state.crop, Some(rect(0, 0, 400, 300)));
    panel.step_crop_ratio(false, Some(rect(1, 1, 1, 1)));
    assert_eq!(panel.active_crop_ratio(), CropRatio::Free);
    assert_eq!(panel.state.crop, Some(rect(0, 0, 400, 300)));
    assert!(panel.set_crop_rect_from_overlay(rect(390, 10, 50, 20)));
    assert_eq!(panel.crop_overlay_update().rect, Some(rect(390, 10, 10, 20)));
    panel.reset_edits();
    assert!(panel.state == EditState::default());
    assert!(!panel.crop_mode_active);
}

#[test]
fn a_free_crop_begins_in_the_middle() {
    let mut panel = loaded_panel(400, 300);
    panel.step_crop_ratio(false, None);
    assert_eq!(panel.active_crop_ratio(), CropRatio::Free);
    assert_eq!(panel.crop_ratio_preview_aspect(), None);
    panel.toggle_crop_mode(None);
    assert_eq!(panel.state.crop, Some(rect(20, 15, 360, 270)));
}

#[test]
fn ratios_go_round_and_have_labels() {
    let mut panel = loaded_panel(400, 300);
    let mut keys = Vec::new();
    for _ in 0..6 {
        keys.push(panel.active_crop_ratio().label_key());
        panel.step_crop_ratio(true, None);
    }
    assert_eq!(panel.active_crop_ratio(), CropRatio::Source);
    assert_eq!(
        keys,
        vec![
            "editor.crop.ratio.source",
            "editor.crop.ratio.square",
            "editor.crop.ratio.4_3",
            "editor.crop.ratio.3_2",
            "editor.crop.ratio.16_9",
            "editor.crop.ratio.free",
        ]
    );
}

#[test]
fn only_the_photo_asked_for_last_is_taken() {
    let mut panel = EditorPanel::new();
    let first = panel.configure(photo(1));
    let second = panel.configure(photo(2));
    let source = SourceImage { width: 4, height: 3 };
    assert!(!panel.source_loaded(first.token, Some(source)));
    assert!(!panel.source_loaded(second.token, None));
    assert!(panel.source_loaded(second.token, Some(source)));
}

#[test]
fn only_the_newest_preview_shows() {
    let mut panel = loaded_panel(400, 300);
    panel.set_adjustment(Adjustment::Contrast, 30);
    let first = panel.render_preview().unwrap();
    assert_eq!(first.state.contrast, 30);
    let second = panel.render_preview().unwrap();
    assert_eq!(panel.preview_rendered(first.token, true), RenderArrival::Stale);
    assert_eq!(panel.preview_rendered(second.token, false), RenderArrival::Failed);
    assert_eq!(panel.preview_rendered(second.token, true), RenderArrival::Show);
}

#[test]
fn saves_are_reported() {
    let saved = save_finished(SaveTarget::Copy, SaveOutcome::Saved);
    assert_eq!(saved.kind, SaveResultKind::Success);
    assert_eq!(saved.heading_key, "editor.save_result.copy_success_title");
    assert!(saved.close);
    let failed = save_finished(SaveTarget::Overwrite, SaveOutcome::Failed("disk full".to_string()));
    assert_eq!(failed.kind, SaveResultKind::Error);
    assert_eq!(failed.body_key, "editor.save_result.overwrite_failed_body");
    assert_eq!(failed.error.as_deref(), Some("disk full"));
    assert!(!failed.close);
    let lost = save_finished(SaveTarget::Copy, SaveOutcome::WorkerLost);
    assert_eq!(lost.body_key, "editor.save_result.worker_failed_body");
    let panel = loaded_panel(4, 3);
    assert_eq!(panel.save().unwrap().item.id, 1);
}

#[test]
fn the_page_turns_the_file_and_takes_the_turn_back() {
    let mut page = EditorPage::new(photo(7));
    let turn = page.apply_rotation_delta(RotationStep::Half);
    assert_eq!((turn.path.as_str(), turn.degrees), ("/tmp/7.jpg", 180));
    assert_eq!(page.rotation_finished(RotationStep::Half, true).unwrap().degrees, -180);
    assert!(page.rotation_finished(RotationStep::Half, false).is_none());
    page.source_loaded(false);
    assert!(page.render_preview().is_none());
    page.source_loaded(true);
    page.set_adjustment(Adjustment::Brightness, -5);
    assert_eq!(page.state().brightness, -5);
    let request = page.render_preview().unwrap();
    assert_eq!(page.preview_rendered(request.token, true), RenderArrival::Show);
    assert_eq!(page.save().item.id, 7);
    let saved = page_save_finished(SaveTarget::Overwrite, SaveOutcome::Saved);
    assert_eq!(saved.toast_key, Some("editor.toast.overwritten"));
    assert!(saved.pop);
    assert_eq!(page_save_finished(SaveTarget::Copy, SaveOutcome::WorkerLost).toast_key, None);
}

#[test]
fn scales_go_from_minus_to_plus_one_hundred() {
    let row = make_scale_row("Brightness");
    assert_eq!(row.title, "Brightness");
    assert_eq!((row.lowest, row.value, row.highest), (-100, 0, 100));
    assert_eq!(row.width_request, 200);
}

#[test]
fn rows_are_packed_without_their_padding() {
    let buffer = PixelBuffer {
        width: 2,
        height: 2,
        channels: 3,
        rowstride: 8,
        bytes: vec![1, 2, 3, 4, 5, 6, 0, 0, 7, 8, 9, 10, 11, 12],
    };
    let image = dynamic_image_from_pixbuf(&buffer).unwrap();
    assert_eq!((image.width(), image.height()), (2, 2));
    assert_eq!(image.as_bytes(), &[1u8, 2, 3, 4, 5, 6, 7, 8, 9, 10, 11, 12][..]);
    assert!(image.as_rgb8().is_some());
}

#[test]
fn four_channels_keep_their_transparency() {
    let buffer = PixelBuffer {
        width: 1,
        height: 2,
        channels: 4,
        rowstride: 4,
        bytes: vec![1, 2, 3, 4, 5, 6, 7, 8],
    };
    let image = dynamic_image_from_pixbuf(&buffer).unwrap();
    assert!(image.as_rgba8().is_some());
    assert_eq!(image.as_bytes(), &[1u8, 2, 3, 4, 5, 6, 7, 8][..]);
}

#[test]
fn short_buffers_and_other_channels_are_refused() {
    let mut buffer = PixelBuffer {
        width: 2,
        height: 2,
        channels: 3,
        rowstride: 8,
        bytes: vec![0; 13],
    };
    assert!(dynamic_image_from_pixbuf(&buffer).is_none());
    buffer.bytes = vec![0; 100];
    assert!(dynamic_image_from_pixbuf(&buffer).is_some());
    buffer.channels = 1;
    assert!(dynamic_image_from_pixbuf(&buffer).is_none());
}

#[test]
fn large_images_are_scaled_down_for_previews() {
    let image = |width: u32, height: u32| {
        dynamic_image_from_pixbuf(&PixelBuffer {
            width,
            height,
            channels: 3,
            rowstride: width * 3,
            bytes: vec![0; (width * height * 3) as usize],
        })
        .unwrap()
    };
    let limit = measure_source(&image(4_000, 2_000));
    assert_eq!((limit.width, limit.height, limit.downsample), (4_000, 2_000, false));
    assert!(measure_source(&image(4_001, 2_000)).downsample);
}

#[test]
fn rendered_images_are_shown_with_three_channels() {
    let rgb = PixelBuffer {
        width: 2,
        height: 2,
        channels: 3,
        rowstride: 8,
        bytes: vec![1, 2, 3, 4, 5, 6, 0, 0, 7, 8, 9, 10, 11, 12],
    };
    let shown = preview_pixels(&dynamic_image_from_pixbuf(&rgb).unwrap()).unwrap();
    assert_eq!((shown.width, shown.height, shown.channels, shown.rowstride), (2, 2, 3, 6));
    assert_eq!(shown.bytes, vec![1, 2, 3, 4, 5, 6, 7, 8, 9, 10, 11, 12]);
    let rgba = PixelBuffer {
        width: 2,
        height: 1,
        channels: 4,
        rowstride: 8,
        bytes: vec![1, 2, 3, 255, 4, 5, 6, 0],
    };
    let shown = preview_pixels(&dynamic_image_from_pixbuf(&rgba).unwrap()).unwrap();
    assert_eq!(shown.bytes, vec![1, 2, 3, 4, 5, 6]);
}

#[test]
fn large_images_are_made_smaller_for_previews() {
    let large = image::DynamicImage::new_luma8(8_001, 1_000);
    let smaller = preview_source(large.clone(), 160, 20);
    assert_eq!((smaller.width(), smaller.height()), (160, 20));
    let kept = preview_source(large, 9_000, 20);
    assert_eq!((kept.width(), kept.height()), (8_001, 1_000));
    let small = image::DynamicImage::new_luma8(400, 300);
    let kept = preview_source(small, 40, 30);
    assert_eq!((kept.width(), kept.height()), (400, 300));
}

#[test]
fn centered_crops_are_asked_for_in_the_turned_photo() {
    let mut panel = loaded_panel(400, 300);
    let wide = Aspect { width: 16, height: 9 };
    let request = |width, height| Some(CenteredCropRequest { width, height, aspect: wide });
    let ratio = CropRatio::SixteenNine;
    assert_eq!(panel.centered_crop_request(ratio, None), request(400, 300));
    assert_eq!(panel.centered_crop_request(ratio, Some(RotationStep::Half)), request(400, 300));
    for step in [RotationStep::Clockwise, RotationStep::Counterclockwise] {
        assert_eq!(panel.centered_crop_request(ratio, Some(step)), request(300, 400));
    }
    panel.apply_rotation_delta(RotationStep::Clockwise, None);
    assert_eq!(panel.centered_crop_request(ratio, None), request(300, 400));
    assert_eq!(
        panel.centered_crop_request(ratio, Some(RotationStep::Clockwise)),
        request(400, 300)
    );
    assert_eq!(panel.centered_crop_request(CropRatio::Source, None), None);
    assert_eq!(panel.centered_crop_request(CropRatio::Free, None), None);
    assert_eq!(EditorPanel::new().centered_crop_request(ratio, None), request(0, 0));
}
