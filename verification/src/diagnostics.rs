//! The trace points of the viewer and the level each of them reports at.

use vstd::prelude::*;

verus! {

#[derive(Clone, Copy, Debug, PartialEq, Eq, Structural)]
pub enum LogLevel {
    Debug,
    Info,
}

/// A span or message that the viewer reports while it works.
#[derive(Clone, Copy, Debug, PartialEq, Eq, Structural)]
pub enum TracePoint {
    ApplyUpsertedBatch,
    ApplyAbsentInsertions,
    ApplyTargetedUpserts,
    Reprioritize,
    ThumbRequest,
    ProgressiveSeed,
    ProgressiveTick,
    ProgressiveAppend,
    ProgressiveDone,
    Rebuild,
    RebuildImmediately,
    ScheduleRebuild,
    ScheduledRebuild,
    LoadMetadata,
    ExpandRenderLimit,
    TryVirtualPage,
    PageQuery,
    SetActive,
    ModeSelectorSetActive,
    ModeSelectorStackNotify,
    AlbumDetailNew,
    AlbumDetailRefresh,
}

/// Does the trace point fire once per media batch, tile or render step, rather
/// than once per user action?
pub open spec fn is_high_volume(point: TracePoint) -> bool {
    match point {
        TracePoint::ApplyUpsertedBatch
        | TracePoint::ApplyAbsentInsertions
        | TracePoint::ApplyTargetedUpserts
        | TracePoint::Reprioritize
        | TracePoint::ThumbRequest
        | TracePoint::ProgressiveSeed
        | TracePoint::ProgressiveTick
        | TracePoint::ProgressiveAppend
        | TracePoint::ProgressiveDone => true,
        _ => false,
    }
}

/// The name a trace point reports under.
pub open spec fn trace_name(point: TracePoint) -> Seq<char> {
    match point {
        TracePoint::ApplyUpsertedBatch => "ui:apply_upserted_batch"@,
        TracePoint::ApplyAbsentInsertions => "ui:apply_absent_insertions"@,
        TracePoint::ApplyTargetedUpserts => "ui:apply_targeted_upserts"@,
        TracePoint::Reprioritize => "grid:reprioritize"@,
        TracePoint::ThumbRequest => "grid:thumb_request"@,
        TracePoint::ProgressiveSeed => "PROGRESSIVE_RENDER seed"@,
        TracePoint::ProgressiveTick => "PROGRESSIVE_RENDER tick"@,
        TracePoint::ProgressiveAppend => "PROGRESSIVE_RENDER append"@,
        TracePoint::ProgressiveDone => "PROGRESSIVE_RENDER done"@,
        TracePoint::Rebuild => "grid:rebuild"@,
        TracePoint::RebuildImmediately => "grid:rebuild_immediately"@,
        TracePoint::ScheduleRebuild => "grid:schedule_rebuild"@,
        TracePoint::ScheduledRebuild => "grid:scheduled_rebuild"@,
        TracePoint::LoadMetadata => "grid:load_metadata"@,
        TracePoint::ExpandRenderLimit => "grid:expand_render_limit"@,
        TracePoint::TryVirtualPage => "grid:try_virtual_page"@,
        TracePoint::PageQuery => "grid:page_query"@,
        TracePoint::SetActive => "grid:set_active"@,
        TracePoint::ModeSelectorSetActive => "photos:mode_selector_set_active"@,
        TracePoint::ModeSelectorStackNotify => "photos:mode_selector_stack_notify"@,
        TracePoint::AlbumDetailNew => "album_detail:new"@,
        TracePoint::AlbumDetailRefresh => "album_detail:refresh_media_list"@,
    }
}

impl TracePoint {
    /// The name the trace point reports under.
    pub fn name(self) -> (name: &'static str)
        ensures
            name@ == trace_name(self),
    {
        match self {
            TracePoint::ApplyUpsertedBatch => "ui:apply_upserted_batch",
            TracePoint::ApplyAbsentInsertions => "ui:apply_absent_insertions",
            TracePoint::ApplyTargetedUpserts => "ui:apply_targeted_upserts",
            TracePoint::Reprioritize => "grid:reprioritize",
            TracePoint::ThumbRequest => "grid:thumb_request",
            TracePoint::ProgressiveSeed => "PROGRESSIVE_RENDER seed",
            TracePoint::ProgressiveTick => "PROGRESSIVE_RENDER tick",
            TracePoint::ProgressiveAppend => "PROGRESSIVE_RENDER append",
            TracePoint::ProgressiveDone => "PROGRESSIVE_RENDER done",
            TracePoint::Rebuild => "grid:rebuild",
            TracePoint::RebuildImmediately => "grid:rebuild_immediately",
            TracePoint::ScheduleRebuild => "grid:schedule_rebuild",
            TracePoint::ScheduledRebuild => "grid:scheduled_rebuild",
            TracePoint::LoadMetadata => "grid:load_metadata",
            TracePoint::ExpandRenderLimit => "grid:expand_render_limit",
            TracePoint::TryVirtualPage => "grid:try_virtual_page",
            TracePoint::PageQuery => "grid:page_query",
            TracePoint::SetActive => "grid:set_active",
            TracePoint::ModeSelectorSetActive => "photos:mode_selector_set_active",
            TracePoint::ModeSelectorStackNotify => "photos:mode_selector_stack_notify",
            TracePoint::AlbumDetailNew => "album_detail:new",
            TracePoint::AlbumDetailRefresh => "album_detail:refresh_media_list",
        }
    }

    /// The level the trace point reports at. High-volume points stay at debug
    /// level, out of the default logs.
    pub fn level(self) -> (level: LogLevel)
        ensures
            level == LogLevel::Debug <==> is_high_volume(self),
    {
        match self {
            TracePoint::ApplyUpsertedBatch
            | TracePoint::ApplyAbsentInsertions
            | TracePoint::ApplyTargetedUpserts
            | TracePoint::Reprioritize
            | TracePoint::ThumbRequest
            | TracePoint::ProgressiveSeed
            | TracePoint::ProgressiveTick
            | TracePoint::ProgressiveAppend
            | TracePoint::ProgressiveDone => LogLevel::Debug,
            _ => LogLevel::Info,
        }
    }
}

} // verus!
