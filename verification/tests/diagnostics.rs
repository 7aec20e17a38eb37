use photo_viewer::diagnostics::{LogLevel, TracePoint};

fn assert_debug(points: &[(TracePoint, &str)]) {
    for (point, name) in points {
        assert_eq!(point.name(), *name);
        assert_eq!(
            point.level(),
            LogLevel::Debug,
            "{name} should stay out of default logs"
        );
    }
}

#[test]
fn high_volume_apply_spans_stay_debug() {
    assert_debug(&[
        (TracePoint::ApplyUpsertedBatch, "ui:apply_upserted_batch"),
        (TracePoint::ApplyAbsentInsertions, "ui:apply_absent_insertions"),
        (TracePoint::ApplyTargetedUpserts, "ui:apply_targeted_upserts"),
    ]);
}

#[test]
fn tests_progressive_render_progress_logs_stay_debug() {
    assert_debug(&[
        (TracePoint::ProgressiveSeed, "PROGRESSIVE_RENDER seed"),
        (TracePoint::ProgressiveDone, "PROGRESSIVE_RENDER done"),
        (TracePoint::ProgressiveTick, "PROGRESSIVE_RENDER tick"),
        (TracePoint::ProgressiveAppend, "PROGRESSIVE_RENDER append"),
    ]);
}

#[test]
fn tests_high_frequency_thumbnail_trace_spans_stay_debug() {
    assert_debug(&[
        (TracePoint::Reprioritize, "grid:reprioritize"),
        (TracePoint::ThumbRequest, "grid:thumb_request"),
    ]);
}

#[test]
fn media_grid_progressive_render_progress_logs_stay_debug() {
    assert_debug(&[
        (TracePoint::ProgressiveSeed, "PROGRESSIVE_RENDER seed"),
        (TracePoint::ProgressiveDone, "PROGRESSIVE_RENDER done"),
        (TracePoint::ProgressiveTick, "PROGRESSIVE_RENDER tick"),
        (TracePoint::ProgressiveAppend, "PROGRESSIVE_RENDER append"),
    ]);
}

#[test]
fn media_grid_high_frequency_thumbnail_trace_spans_stay_debug() {
    assert_debug(&[
        (TracePoint::Reprioritize, "grid:reprioritize"),
        (TracePoint::ThumbRequest, "grid:thumb_request"),
    ]);
}

#[test]
fn user_driven_trace_points_report_at_info() {
    assert_eq!(TracePoint::Rebuild.level(), LogLevel::Info);
    assert_eq!(TracePoint::SetActive.level(), LogLevel::Info);
}
