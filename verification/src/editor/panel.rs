//! The editor panel beside a photo.

use super::crop::{
    crop_ratio_at, crop_rect_for_ratio_id, default_free_crop_rect, normalized_crop_rect, Aspect,
    CropRatio, CropRect, CROP_RATIO_COUNT,
};
#[allow(unused_imports)]
use super::crop::{
    crops_begin_where_they_are_drawn, first_crops_lie_in_their_image, fixed_aspect,
    free_crops_are_kept, nine_tenths, normalized, ratio_at, ratio_rect,
};
use super::state::{
    render_arrival, Adjustment, EditState, RenderArrival, Rotation, RotationStep, SaveOutcome,
    SaveTarget,
};
#[allow(unused_imports)]
use super::state::{adjusted, arrival, next_token, turned, unedited};
use crate::media::MediaItem;
use vstd::prelude::*;

verus! {

#[derive(Clone, Copy, Debug, PartialEq, Eq, Structural)]
pub enum ToastKind {
    Success,
    Error,
}

#[derive(Clone, Copy, Debug, PartialEq, Eq, Structural)]
pub enum SaveResultKind {
    Success,
    Error,
}

/// What the overlay that draws the crop shows.
#[derive(Clone, Copy, Debug, PartialEq, Eq, Structural)]
pub struct CropOverlayUpdate {
    pub active: bool,
    pub rect: Option<CropRect>,
    pub image_width: u32,
    pub image_height: u32,
}

/// The size of the photo that is edited.
#[derive(Clone, Copy, Debug, PartialEq, Eq, Structural)]
pub struct SourceImage {
    pub width: u32,
    pub height: u32,
}

/// A middle part of a photo to be computed: of a photo of this size, as large as
/// this aspect allows.
#[derive(Clone, Copy, Debug, PartialEq, Eq, Structural)]
pub struct CenteredCropRequest {
    pub width: u32,
    pub height: u32,
    pub aspect: Aspect,
}

/// The state of the panel.
pub struct EditorPanel {
    pub media_item: Option<MediaItem>,
    pub state: EditState,
    /// The loaded photo.
    pub source: Option<SourceImage>,
    pub crop_mode_active: bool,
    pub crop_ratio_index: usize,
    pub render_token: u64,
    pub load_token: u64,
    /// A preview is to be made when the timer goes off.
    pub preview_waiting: bool,
}

/// A photo to be loaded.
pub struct LoadRequest {
    pub path: String,
    pub token: u64,
}

/// A preview to be made.
#[derive(Clone, Copy, Debug, PartialEq, Eq, Structural)]
pub struct RenderRequest {
    pub state: EditState,
    pub crop_mode_active: bool,
    pub token: u64,
}

/// Edits to be saved.
pub struct SaveRequest {
    pub item: MediaItem,
    pub state: EditState,
}

/// How a save is reported: the keys of the texts, the reason to fill in, and
/// whether the panel closes.
pub struct SaveReport {
    pub kind: SaveResultKind,
    pub heading_key: &'static str,
    pub body_key: &'static str,
    pub error: Option<String>,
    pub close: bool,
}

impl EditorPanel {
    /// The place among the ratios is a proper one, and while cropping there is a
    /// crop.
    pub open spec fn wf(self) -> bool {
        &&& self.crop_ratio_index < CROP_RATIO_COUNT
        &&& self.crop_mode_active ==> self.state.crop is Some
    }

    /// The panel when a photo begins to be edited.
    pub open spec fn configured(self, media_item: MediaItem) -> EditorPanel {
        EditorPanel {
            media_item: Some(media_item),
            state: unedited(),
            source: None,
            crop_mode_active: false,
            crop_ratio_index: 0,
            load_token: (self.load_token + 1) as u64,
            ..self
        }
    }

    /// The panel when a photo was loaded, or could not be (`None`): only the one
    /// asked for last is taken.
    pub open spec fn loaded(self, token: u64, loaded: Option<SourceImage>) -> EditorPanel {
        if loaded is Some && token == self.load_token {
            (EditorPanel { source: loaded, ..self }).waiting()
        } else {
            self
        }
    }

    /// The size of the turned photo; nothing before one is loaded.
    pub open spec fn crop_space(self) -> (u32, u32) {
        match self.source {
            None => (0, 0),
            Some(source) => if self.state.rotation.swaps_sides() {
                (source.height, source.width)
            } else {
                (source.width, source.height)
            },
        }
    }

    /// The panel with the photo turned.
    pub open spec fn rotated(self, step: RotationStep) -> EditorPanel {
        EditorPanel {
            state: EditState { rotation: turned(self.state.rotation, step), ..self.state },
            ..self
        }
    }

    /// The middle part of the photo, as it is turned, that a ratio needs. Only
    /// ratios with a fixed aspect need one.
    pub open spec fn centered_for(self, ratio: CropRatio) -> Option<CenteredCropRequest> {
        match fixed_aspect(ratio) {
            Some(aspect) => Some(
                CenteredCropRequest {
                    width: self.crop_space().0,
                    height: self.crop_space().1,
                    aspect,
                },
            ),
            None => None,
        }
    }

    /// The ratio that is chosen.
    pub open spec fn ratio(self) -> CropRatio {
        ratio_at(self.crop_ratio_index as int)
    }

    /// What the overlay shows.
    pub open spec fn overlay(self) -> CropOverlayUpdate {
        CropOverlayUpdate {
            active: self.crop_mode_active,
            rect: self.state.crop,
            image_width: self.crop_space().0,
            image_height: self.crop_space().1,
        }
    }

    /// The panel with another crop.
    pub open spec fn with_crop(self, rect: CropRect) -> EditorPanel {
        EditorPanel { state: EditState { crop: Some(rect), ..self.state }, ..self }
    }

    /// The panel with a crop, where the photo has pixels: the one that it has, or
    /// one by the chosen ratio, or the middle of the photo.
    pub open spec fn with_some_crop(self, centered: Option<CropRect>) -> EditorPanel {
        let (width, height) = self.crop_space();
        if width == 0 || height == 0 || self.state.crop is Some {
            self
        } else {
            match ratio_rect(self.ratio(), width, height, centered) {
                Some(rect) => self.with_crop(rect),
                None => self.with_crop(nine_tenths(width, height)),
            }
        }
    }

    /// The panel with a preview asked for.
    pub open spec fn waiting(self) -> EditorPanel {
        EditorPanel { preview_waiting: true, ..self }
    }

    /// The panel with the crop that stands for a drawn one, where there is a
    /// photo.
    pub open spec fn drawn(self, rect: CropRect) -> EditorPanel {
        let (width, height) = self.crop_space();
        if width > 0 && height > 0 {
            self.with_crop(normalized(rect, width, height, self.ratio()))
        } else {
            self
        }
    }

    /// The panel after a turn of the photo; while cropping, with a crop.
    pub open spec fn turned_by(
        self,
        step: RotationStep,
        centered: Option<CropRect>,
    ) -> EditorPanel {
        let rotated = self.rotated(step);
        (if rotated.crop_mode_active {
            rotated.with_some_crop(centered)
        } else {
            rotated
        }).waiting()
    }

    /// The panel without edits, and not cropping.
    pub open spec fn reset(self) -> EditorPanel {
        (EditorPanel { state: unedited(), crop_mode_active: false, ..self }).waiting()
    }

    /// The panel after cropping began or ended. Without a photo it cannot begin.
    pub open spec fn crop_toggled(self, centered: Option<CropRect>) -> EditorPanel {
        let (width, height) = self.crop_space();
        if self.crop_mode_active {
            (EditorPanel { crop_mode_active: false, ..self }).waiting()
        } else if width == 0 || height == 0 {
            self
        } else {
            (EditorPanel { crop_mode_active: true, ..self.with_some_crop(centered) }).waiting()
        }
    }

    /// The panel after a step through the ratios; while cropping, with the crop
    /// that the new ratio gives.
    pub open spec fn ratio_stepped(
        self,
        forward: bool,
        centered: Option<CropRect>,
    ) -> EditorPanel {
        let stepped = EditorPanel { crop_ratio_index: self.stepped(forward) as usize, ..self };
        let (width, height) = stepped.crop_space();
        let rect = ratio_rect(stepped.ratio(), width, height, centered);
        if stepped.crop_mode_active && rect is Some {
            stepped.with_crop(rect->0).waiting()
        } else {
            stepped
        }
    }

    /// The preview that is made when the timer goes off.
    pub open spec fn preview_request(self) -> Option<RenderRequest> {
        if self.source is Some {
            Some(
                RenderRequest {
                    state: self.state,
                    crop_mode_active: self.crop_mode_active,
                    token: next_token(self.render_token),
                },
            )
        } else {
            None
        }
    }

    /// The panel after the timer went off.
    pub open spec fn previewed(self) -> EditorPanel {
        EditorPanel {
            preview_waiting: false,
            render_token: if self.source is Some {
                next_token(self.render_token)
            } else {
                self.render_token
            },
            ..self
        }
    }

    /// A panel without a photo.
    pub fn new() -> (panel: EditorPanel)
        ensures
            panel.wf(),
            panel.media_item is None && panel.source is None,
            panel.state == unedited(),
            !panel.crop_mode_active && panel.crop_ratio_index == 0,
            panel.render_token == 0 && panel.load_token == 0,
            !panel.preview_waiting,
    {
        EditorPanel {
            media_item: None,
            state: EditState::default(),
            source: None,
            crop_mode_active: false,
            crop_ratio_index: 0,
            render_token: 0,
            load_token: 0,
            preview_waiting: false,
        }
    }

    /// Begin to edit a photo: all edits are forgotten, and the photo is to be
    /// loaded.
    pub fn configure(&mut self, media_item: MediaItem) -> (request: LoadRequest)
        requires
            old(self).load_token < u64::MAX,
        ensures
            final(self).wf(),
            *final(self) == old(self).configured(media_item),
            request.path == media_item.path,
            request.token == final(self).load_token,
    {
        let path: String = media_item.path.clone();
        self.media_item = Some(media_item);
        self.state = EditState::default();
        self.source = None;
        self.crop_mode_active = false;
        self.crop_ratio_index = 0;
        self.load_token = self.load_token + 1;
        LoadRequest { path, token: self.load_token }
    }

    /// A photo was loaded, or could not be (`None`). Only the one asked for last
    /// is taken; `true` when it is.
    pub fn source_loaded(&mut self, token: u64, loaded: Option<SourceImage>) -> (taken: bool)
        ensures
            taken == (loaded is Some && token == old(self).load_token),
            *final(self) == old(self).loaded(token, loaded),
            old(self).wf() ==> final(self).wf(),
    {
        if loaded.is_none() || token != self.load_token {
            return false;
        }
        self.source = loaded;
        self.preview_waiting = true;
        true
    }

    /// The size of the turned photo.
    pub fn current_crop_space_dimensions(&self) -> (size: (u32, u32))
        ensures
            size == self.crop_space(),
    {
        match self.source {
            None => (0, 0),
            Some(source) => {
                if self.state.rotation == Rotation::R90 || self.state.rotation == Rotation::R270 {
                    (source.height, source.width)
                } else {
                    (source.width, source.height)
                }
            },
        }
    }

    /// What the overlay shows.
    pub fn crop_overlay_update(&self) -> (update: CropOverlayUpdate)
        ensures
            update == self.overlay(),
    {
        let (image_width, image_height): (u32, u32) = self.current_crop_space_dimensions();
        CropOverlayUpdate {
            active: self.crop_mode_active,
            rect: self.state.crop,
            image_width,
            image_height,
        }
    }

    /// The ratio that is chosen.
    pub fn active_crop_ratio(&self) -> (ratio: CropRatio)
        ensures
            ratio == self.ratio(),
    {
        crop_ratio_at(self.crop_ratio_index)
    }

    /// The aspect that stands for the chosen ratio in its little picture; `None`
    /// for a ratio without one, and for the source ratio before a photo is there.
    pub fn crop_ratio_preview_aspect(&self) -> (aspect: Option<Aspect>)
        ensures
            aspect == if self.ratio() == CropRatio::Source {
                let (width, height) = self.crop_space();
                if width > 0 && height > 0 {
                    Some(Aspect { width, height })
                } else {
                    None
                }
            } else {
                fixed_aspect(self.ratio())
            },
    {
        let ratio: CropRatio = self.active_crop_ratio();
        if ratio == CropRatio::Source {
            let (width, height): (u32, u32) = self.current_crop_space_dimensions();
            if width > 0 && height > 0 {
                Some(Aspect { width, height })
            } else {
                None
            }
        } else {
            ratio.aspect()
        }
    }

    /// Take a crop that was drawn on the overlay; `false` without a photo.
    pub fn set_crop_rect_from_overlay(&mut self, drawn: CropRect) -> (taken: bool)
        ensures
            taken == (old(self).crop_space().0 > 0 && old(self).crop_space().1 > 0),
            *final(self) == if taken {
                old(self).with_crop(
                    normalized(
                        drawn,
                        old(self).crop_space().0,
                        old(self).crop_space().1,
                        old(self).ratio(),
                    ),
                )
            } else {
                *old(self)
            },
            *final(self) == old(self).drawn(drawn),
            old(self).wf() ==> final(self).wf(),
    {
        let (width, height): (u32, u32) = self.current_crop_space_dimensions();
        if width == 0 || height == 0 {
            return false;
        }
        let rect: CropRect = normalized_crop_rect(drawn, width, height, self.active_crop_ratio());
        self.state.crop = Some(rect);
        true
    }

    /// A scale was moved.
    pub fn set_adjustment(&mut self, what: Adjustment, value: i32)
        ensures
            *final(self) == (EditorPanel {
                state: adjusted(old(self).state, what, value),
                ..*old(self)
            }).waiting(),
            old(self).wf() ==> final(self).wf(),
    {
        self.state.adjust(what, value);
        self.preview_waiting = true;
    }

    /// See to it that there is a crop. `centered` is the middle of the photo in
    /// the aspect of the chosen ratio. `false` when there is no photo to crop.
    fn ensure_crop_rect(&mut self, centered: Option<CropRect>) -> (cropped: bool)
        ensures
            cropped == (old(self).crop_space().0 > 0 && old(self).crop_space().1 > 0),
            *final(self) == old(self).with_some_crop(centered),
            old(self).wf() ==> final(self).wf(),
    {
        let (width, height): (u32, u32) = self.current_crop_space_dimensions();
        if width == 0 || height == 0 {
            return false;
        }
        if self.state.crop.is_none() {
            let rect: CropRect = match crop_rect_for_ratio_id(
                self.active_crop_ratio(),
                width,
                height,
                centered,
            ) {
                Some(rect) => rect,
                None => default_free_crop_rect(width, height),
            };
            self.state.crop = Some(rect);
        }
        true
    }

    /// The middle part of the photo that a ratio needs, after a further turn
    /// where there is one: what `apply_rotation_delta` wants for the chosen ratio
    /// and its step, `toggle_crop_mode` for the chosen ratio, and
    /// `step_crop_ratio` for the next one.
    pub fn centered_crop_request(
        &self,
        ratio: CropRatio,
        step: Option<RotationStep>,
    ) -> (request: Option<CenteredCropRequest>)
        ensures
            request == match step {
                Some(step) => self.rotated(step).centered_for(ratio),
                None => self.centered_for(ratio),
            },
    {
        let rotation: Rotation = match step {
            Some(step) => self.state.rotation.rotated_by(step),
            None => self.state.rotation,
        };
        let swapped: bool = rotation == Rotation::R90 || rotation == Rotation::R270;
        let (width, height): (u32, u32) = match self.source {
            None => (0, 0),
            Some(source) => if swapped {
                (source.height, source.width)
            } else {
                (source.width, source.height)
            },
        };
        match ratio.aspect() {
            Some(aspect) => Some(CenteredCropRequest { width, height, aspect }),
            None => None,
        }
    }

    /// Turn the photo. While cropping, a crop is seen to; `centered` is the
    /// middle of the turned photo in the aspect of the chosen ratio.
    pub fn apply_rotation_delta(&mut self, step: RotationStep, centered: Option<CropRect>)
        ensures
            ({
                let rotated = old(self).rotated(step);
                *final(self) == (if rotated.crop_mode_active {
                    rotated.with_some_crop(centered)
                } else {
                    rotated
                }).waiting()
            }),
            *final(self) == old(self).turned_by(step, centered),
            old(self).wf() ==> final(self).wf(),
    {
        self.state.rotate(step);
        if self.crop_mode_active {
            self.ensure_crop_rect(centered);
        }
        self.preview_waiting = true;
    }

    /// Forget all edits, and end cropping.
    pub fn reset_edits(&mut self)
        ensures
            *final(self) == (EditorPanel {
                state: unedited(),
                crop_mode_active: false,
                ..*old(self)
            }).waiting(),
            *final(self) == old(self).reset(),
            old(self).wf() ==> final(self).wf(),
    {
        self.state = EditState::default();
        self.crop_mode_active = false;
        self.preview_waiting = true;
    }

    /// Begin or end cropping. Without a photo cropping cannot begin: the panel
    /// stays as it is, and a word on that is owed.
    pub fn toggle_crop_mode(&mut self, centered: Option<CropRect>) -> (complaint: Option<ToastKind>)
        ensures
            ({
                let starts = !old(self).crop_mode_active;
                let (width, height) = old(self).crop_space();
                &&& complaint is Some <==> starts && (width == 0 || height == 0)
                &&& complaint matches Some(kind) ==> kind == ToastKind::Error && *final(self)
                    == *old(self)
                &&& complaint is None ==> *final(self) == (EditorPanel {
                    crop_mode_active: starts,
                    ..(if starts {
                        old(self).with_some_crop(centered)
                    } else {
                        *old(self)
                    })
                }).waiting()
            }),
            *final(self) == old(self).crop_toggled(centered),
            old(self).wf() ==> final(self).wf(),
    {
        let active: bool = !self.crop_mode_active;
        if active && !self.ensure_crop_rect(centered) {
            return Some(ToastKind::Error);
        }
        self.crop_mode_active = active;
        self.preview_waiting = true;
        None
    }

    /// The place in the list of ratios after a step through it, which goes round.
    pub open spec fn stepped(self, forward: bool) -> int {
        let step = if forward { 1int } else { -1 };
        (self.crop_ratio_index + step) % (CROP_RATIO_COUNT as int)
    }

    /// The ratio that a step leads to.
    pub fn next_crop_ratio(&self, forward: bool) -> (ratio: CropRatio)
        requires
            self.wf(),
        ensures
            ratio == ratio_at(self.stepped(forward)),
    {
        crop_ratio_at(self.stepped_index(forward))
    }

    fn stepped_index(&self, forward: bool) -> (index: usize)
        requires
            self.wf(),
        ensures
            index == self.stepped(forward),
            index < CROP_RATIO_COUNT,
    {
        if forward {
            (self.crop_ratio_index + 1) % CROP_RATIO_COUNT
        } else {
            (self.crop_ratio_index + CROP_RATIO_COUNT - 1) % CROP_RATIO_COUNT
        }
    }

    /// Go to the next ratio, or to the one before. While cropping, the crop takes
    /// the new ratio, where that gives a rectangle; `centered` is the middle of
    /// the photo in its aspect.
    pub fn step_crop_ratio(&mut self, forward: bool, centered: Option<CropRect>)
        requires
            old(self).wf(),
        ensures
            final(self).wf(),
            ({
                let stepped = EditorPanel {
                    crop_ratio_index: old(self).stepped(forward) as usize,
                    ..*old(self)
                };
                let (width, height) = stepped.crop_space();
                let rect = ratio_rect(stepped.ratio(), width, height, centered);
                *final(self) == if stepped.crop_mode_active && rect is Some {
                    stepped.with_crop(rect->0).waiting()
                } else {
                    stepped
                }
            }),
            *final(self) == old(self).ratio_stepped(forward, centered),
    {
        self.crop_ratio_index = self.stepped_index(forward);
        if !self.crop_mode_active {
            return;
        }
        let (width, height): (u32, u32) = self.current_crop_space_dimensions();
        match crop_rect_for_ratio_id(self.active_crop_ratio(), width, height, centered) {
            None => {},
            Some(rect) => {
                self.state.crop = Some(rect);
                self.preview_waiting = true;
            },
        }
    }

    /// The timer went off: the preview to be made, if there is a photo. The
    /// spinner turns until its `preview_rendered`.
    pub fn render_preview(&mut self) -> (request: Option<RenderRequest>)
        ensures
            request is Some <==> old(self).source is Some,
            *final(self) == (EditorPanel {
                preview_waiting: false,
                render_token: if request is Some {
                    next_token(old(self).render_token)
                } else {
                    old(self).render_token
                },
                ..*old(self)
            }),
            request matches Some(found) ==> found == (RenderRequest {
                state: old(self).state,
                crop_mode_active: old(self).crop_mode_active,
                token: final(self).render_token,
            }),
            request == old(self).preview_request(),
            *final(self) == old(self).previewed(),
            old(self).wf() ==> final(self).wf(),
    {
        self.preview_waiting = false;
        if self.source.is_none() {
            return None;
        }
        if self.render_token < u64::MAX {
            self.render_token = self.render_token + 1;
        }
        Some(
            RenderRequest {
                state: self.state,
                crop_mode_active: self.crop_mode_active,
                token: self.render_token,
            },
        )
    }

    /// A preview was made, or could not be.
    pub fn preview_rendered(&self, token: u64, rendered: bool) -> (found: RenderArrival)
        ensures
            found == arrival(self.render_token, token, rendered),
    {
        render_arrival(self.render_token, token, rendered)
    }

    /// What saving writes, to a copy or over the photo; `None` without a photo.
    pub fn save(&self) -> (request: Option<SaveRequest>)
        ensures
            request is Some <==> self.media_item is Some,
            request matches Some(found) ==> found.item == self.media_item->0 && found.state
                == self.state,
    {
        match &self.media_item {
            Some(item) => Some(SaveRequest { item: item.clone(), state: self.state }),
            None => None,
        }
    }
}

/// The keys of the heading and of the text with which a save is reported.
pub open spec fn report_keys(target: SaveTarget, outcome: SaveOutcome) -> (Seq<char>, Seq<char>) {
    match (target, outcome) {
        (SaveTarget::Copy, SaveOutcome::Saved) => (
            "editor.save_result.copy_success_title"@,
            "editor.save_result.copy_success_body"@,
        ),
        (SaveTarget::Copy, SaveOutcome::Failed(_)) => (
            "editor.save_result.copy_failed_title"@,
            "editor.save_result.copy_failed_body"@,
        ),
        (SaveTarget::Copy, SaveOutcome::WorkerLost) => (
            "editor.save_result.copy_failed_title"@,
            "editor.save_result.worker_failed_body"@,
        ),
        (SaveTarget::Overwrite, SaveOutcome::Saved) => (
            "editor.save_result.overwrite_success_title"@,
            "editor.save_result.overwrite_success_body"@,
        ),
        (SaveTarget::Overwrite, SaveOutcome::Failed(_)) => (
            "editor.save_result.overwrite_failed_title"@,
            "editor.save_result.overwrite_failed_body"@,
        ),
        (SaveTarget::Overwrite, SaveOutcome::WorkerLost) => (
            "editor.save_result.overwrite_failed_title"@,
            "editor.save_result.worker_failed_body"@,
        ),
    }
}

/// How a save is reported. The panel closes only after a success.
pub fn save_finished(target: SaveTarget, outcome: SaveOutcome) -> (report: SaveReport)
    ensures
        (report.heading_key@, report.body_key@) == report_keys(target, outcome),
        report.kind == if outcome is Saved {
            SaveResultKind::Success
        } else {
            SaveResultKind::Error
        },
        report.close == (outcome is Saved),
        report.error == match outcome {
            SaveOutcome::Failed(reason) => Some(reason),
            _ => None,
        },
{
    let saved: bool = matches!(outcome, SaveOutcome::Saved);
    let kind: SaveResultKind = if saved {
        SaveResultKind::Success
    } else {
        SaveResultKind::Error
    };
    let (success_title, success_body, failed_title, failed_body): (
        &'static str,
        &'static str,
        &'static str,
        &'static str,
    ) = match target {
        SaveTarget::Copy => (
            "editor.save_result.copy_success_title",
            "editor.save_result.copy_success_body",
            "editor.save_result.copy_failed_title",
            "editor.save_result.copy_failed_body",
        ),
        SaveTarget::Overwrite => (
            "editor.save_result.overwrite_success_title",
            "editor.save_result.overwrite_success_body",
            "editor.save_result.overwrite_failed_title",
            "editor.save_result.overwrite_failed_body",
        ),
    };
    match outcome {
        SaveOutcome::Saved => SaveReport {
            kind,
            heading_key: success_title,
            body_key: success_body,
            error: None,
            close: saved,
        },
        SaveOutcome::Failed(reason) => SaveReport {
            kind,
            heading_key: failed_title,
            body_key: failed_body,
            error: Some(reason),
            close: saved,
        },
        SaveOutcome::WorkerLost => SaveReport {
            kind,
            heading_key: failed_title,
            body_key: "editor.save_result.worker_failed_body",
            error: None,
            close: saved,
        },
    }
}

/// Once another photo is edited, one that was asked for before is not taken.
pub proof fn superseded_photos_are_not_taken(
    panel: EditorPanel,
    next: MediaItem,
    token: u64,
    loaded: Option<SourceImage>,
)
    requires
        panel.load_token < u64::MAX,
        token <= panel.load_token,
    ensures
        panel.configured(next).loaded(token, loaded) == panel.configured(next),
{
}

/// Stepping through the ratios there and back changes nothing, and goes through
/// all of them.
pub proof fn ratio_steps_go_round(panel: EditorPanel, forward: bool)
    requires
        panel.wf(),
    ensures
        ({
            let there = EditorPanel {
                crop_ratio_index: panel.stepped(forward) as usize,
                ..panel
            };
            there.wf() && there.stepped(!forward) == panel.crop_ratio_index
        }),
{
}

/// While cropping a photo, there is a crop: beginning to crop makes one, and
/// turning the photo keeps one.
pub proof fn cropping_has_a_crop(panel: EditorPanel, centered: Option<CropRect>)
    requires
        panel.crop_space().0 > 0,
        panel.crop_space().1 > 0,
    ensures
        panel.with_some_crop(centered).state.crop is Some,
        panel.state.crop is Some ==> panel.with_some_crop(centered) == panel,
{
}

/// A quarter turn makes the crop of a ratio one of the photo with its sides
/// swapped; half a turn leaves it.
pub proof fn quarter_turns_swap_the_sides(
    panel: EditorPanel,
    step: RotationStep,
    ratio: CropRatio,
)
    ensures
        panel.rotated(step).crop_space() == if step == RotationStep::Half {
            panel.crop_space()
        } else {
            (panel.crop_space().1, panel.crop_space().0)
        },
        panel.rotated(step).centered_for(ratio) is Some <==> panel.centered_for(ratio) is Some,
{
}

/// A step forward leads to the next ratio of the list and a step back to the one
/// before, from the last to the first and from the first to the last.
pub proof fn ratio_steps_follow_the_list(panel: EditorPanel)
    requires
        panel.wf(),
    ensures
        panel.crop_ratio_index + 1 < CROP_RATIO_COUNT ==> panel.stepped(true)
            == panel.crop_ratio_index + 1,
        panel.crop_ratio_index + 1 == CROP_RATIO_COUNT ==> panel.stepped(true) == 0,
        panel.crop_ratio_index > 0 ==> panel.stepped(false) == panel.crop_ratio_index - 1,
        panel.crop_ratio_index == 0 ==> panel.stepped(false) == CROP_RATIO_COUNT - 1,
{
}

/// A photo that begins to be edited has no edits, whatever was edited before, and
/// its size is taken over when it is loaded.
pub proof fn other_photos_start_unedited(
    panel: EditorPanel,
    next: MediaItem,
    size: SourceImage,
)
    requires
        panel.load_token < u64::MAX,
    ensures
        ({
            let begun = panel.configured(next);
            let loaded = begun.loaded(begun.load_token, Some(size));
            &&& begun.media_item == Some(next)
            &&& begun.state == unedited()
            &&& begun.source is None
            &&& begun.ratio() == CropRatio::Source
            &&& begun.load_token > panel.load_token
            &&& !loaded.crop_mode_active
            &&& loaded.state == unedited()
            &&& loaded.source == Some(size)
            &&& loaded.crop_space() == (size.width, size.height)
            &&& loaded.preview_waiting
        }),
{
}

/// No edits at all: the photo stands upright, whole, and in its own colours.
pub proof fn resets_forget_the_edits(panel: EditorPanel)
    ensures
        ({
            let now = panel.reset();
            &&& now.state.rotation == Rotation::R0
            &&& now.state.crop is None
            &&& now.state.brightness == 0 && now.state.contrast == 0 && now.state.saturation == 0
            &&& !now.crop_mode_active
            &&& now.media_item == panel.media_item
            &&& now.source == panel.source
            &&& now.crop_ratio_index == panel.crop_ratio_index
            &&& now.preview_waiting
        }),
{
}

/// Cropping begins with a crop, the one that was there or a new one in the photo,
/// and ends with the crop kept. The other edits stay either way; without a photo
/// cropping does not begin.
pub proof fn cropping_begins_and_ends(panel: EditorPanel, centered: Option<CropRect>)
    requires
        panel.wf(),
        centered is Some ==> centered->0.lies_in(panel.crop_space().0, panel.crop_space().1),
    ensures
        ({
            let (width, height) = panel.crop_space();
            let now = panel.crop_toggled(centered);
            &&& !panel.crop_mode_active && (width == 0 || height == 0) ==> now == panel
            &&& panel.crop_mode_active || width > 0 && height > 0 ==> {
                &&& now.crop_mode_active == !panel.crop_mode_active
                &&& now.state.rotation == panel.state.rotation
                &&& now.state.brightness == panel.state.brightness
                &&& now.state.contrast == panel.state.contrast
                &&& now.state.saturation == panel.state.saturation
                &&& now.crop_ratio_index == panel.crop_ratio_index
                &&& panel.state.crop is Some ==> now.state.crop == panel.state.crop
                &&& now.crop_mode_active && panel.state.crop is None ==> now.state.crop is Some
                    && now.state.crop->0.lies_in(width, height)
                &&& now.preview_waiting
            }
        }),
{
    let (width, height) = panel.crop_space();
    if width > 0 && height > 0 {
        first_crops_lie_in_their_image(width, height);
    }
}

/// Turning the photo turns it by the step, and keeps its colours and its crop.
pub proof fn turning_keeps_the_other_edits(
    panel: EditorPanel,
    step: RotationStep,
    centered: Option<CropRect>,
)
    requires
        panel.wf(),
    ensures
        ({
            let now = panel.turned_by(step, centered);
            &&& now.state.rotation == turned(panel.state.rotation, step)
            &&& now.state.crop == panel.state.crop
            &&& now.state.brightness == panel.state.brightness
            &&& now.state.contrast == panel.state.contrast
            &&& now.state.saturation == panel.state.saturation
            &&& now.crop_mode_active == panel.crop_mode_active
            &&& now.source == panel.source
            &&& now.preview_waiting
        }),
{
}

/// While cropping, the crop takes the ratio that a step leads to: the whole photo
/// for the photo's own ratio, its middle for a fixed one, and the crop as it is
/// for the free one. Without cropping no edit changes.
pub proof fn crops_take_the_ratio_chosen(
    panel: EditorPanel,
    forward: bool,
    centered: Option<CropRect>,
)
    requires
        panel.wf(),
    ensures
        ({
            let now = panel.ratio_stepped(forward, centered);
            let (width, height) = panel.crop_space();
            &&& now.ratio() == ratio_at(panel.stepped(forward))
            &&& !panel.crop_mode_active ==> now.state == panel.state
            &&& now.ratio() == CropRatio::Free ==> now.state == panel.state
            &&& panel.crop_mode_active && now.ratio() == CropRatio::Source ==> now.state.crop
                == Some(CropRect { x: 0, y: 0, width, height })
            &&& panel.crop_mode_active && fixed_aspect(now.ratio()) is Some && centered is Some
                ==> now.state.crop == centered
            &&& now.state.rotation == panel.state.rotation
            &&& now.crop_mode_active == panel.crop_mode_active
        }),
{
}

/// A crop drawn on the photo lies in it, as it is turned, and changes nothing
/// else.
pub proof fn drawn_crops_lie_in_the_photo(panel: EditorPanel, rect: CropRect)
    ensures
        ({
            let (width, height) = panel.crop_space();
            let now = panel.drawn(rect);
            &&& width == 0 || height == 0 ==> now == panel
            &&& width > 0 && height > 0 ==> now.state.crop is Some
                && now.state.crop->0.lies_in(width, height)
            &&& width > 0 && height > 0 && panel.ratio() == CropRatio::Free && rect.lies_in(
                width,
                height,
            ) ==> now.state.crop == Some(rect)
            &&& now.state.rotation == panel.state.rotation
            &&& now.crop_mode_active == panel.crop_mode_active
        }),
{
    let (width, height) = panel.crop_space();
    if width > 0 && height > 0 {
        crops_begin_where_they_are_drawn(rect, width, height, panel.ratio());
        if rect.lies_in(width, height) {
            free_crops_are_kept(rect, width, height);
        }
    }
}

/// A preview shows the edits as they are when it is begun. Of two previews, the
/// one begun last shows, and the one before it no longer does.
pub proof fn previews_show_the_latest_edits(panel: EditorPanel, what: Adjustment, value: i32)
    requires
        panel.source is Some,
        panel.render_token < u64::MAX - 1,
    ensures
        ({
            let begun = panel.previewed();
            let later = (EditorPanel { state: adjusted(panel.state, what, value), ..begun });
            let again = later.previewed();
            &&& panel.preview_request() is Some && later.preview_request() is Some
            &&& panel.preview_request()->0.state == panel.state
            &&& panel.preview_request()->0.crop_mode_active == panel.crop_mode_active
            &&& later.preview_request()->0.state == adjusted(panel.state, what, value)
            &&& !begun.preview_waiting
            &&& arrival(begun.render_token, panel.preview_request()->0.token, true)
                == RenderArrival::Show
            &&& arrival(again.render_token, panel.preview_request()->0.token, true)
                == RenderArrival::Stale
            &&& arrival(again.render_token, later.preview_request()->0.token, true)
                == RenderArrival::Show
        }),
{
}

/// The overlay is drawn while cropping, with the crop as it is, over the photo as
/// it is turned.
pub proof fn the_overlay_shows_the_crop(panel: EditorPanel)
    ensures
        panel.overlay().active <==> panel.crop_mode_active,
        panel.overlay().rect == panel.state.crop,
        panel.source is None ==> panel.overlay().image_width == 0 && panel.overlay().image_height
            == 0,
        panel.source is Some && (panel.state.rotation == Rotation::R0 || panel.state.rotation
            == Rotation::R180) ==> panel.overlay().image_width == panel.source->0.width
            && panel.overlay().image_height == panel.source->0.height,
        panel.source is Some && (panel.state.rotation == Rotation::R90 || panel.state.rotation
            == Rotation::R270) ==> panel.overlay().image_width == panel.source->0.height
            && panel.overlay().image_height == panel.source->0.width,
{
}

/// Every ratio is asked for in its own proportion, in the photo as it is turned;
/// only the photo's own ratio and the free one need no middle part.
pub proof fn middle_parts_are_asked_for_in_proportion(panel: EditorPanel, ratio: CropRatio)
    ensures
        panel.centered_for(ratio) is None <==> ratio == CropRatio::Source || ratio
            == CropRatio::Free,
        panel.centered_for(ratio) matches Some(request) ==> {
            &&& request.width == panel.crop_space().0
            &&& request.height == panel.crop_space().1
            &&& ratio == CropRatio::Square ==> request.aspect.width == request.aspect.height
            &&& ratio == CropRatio::FourThree ==> 3 * request.aspect.width == 4
                * request.aspect.height
            &&& ratio == CropRatio::ThreeTwo ==> 2 * request.aspect.width == 3
                * request.aspect.height
            &&& ratio == CropRatio::SixteenNine ==> 9 * request.aspect.width == 16
                * request.aspect.height
            &&& request.aspect.width > 0
        },
{
}

} // verus!
