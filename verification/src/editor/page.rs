//! The editor as a page of its own. Its rotation buttons turn the file itself;
//! a turn is taken back after a while.

use super::panel::{RenderRequest, SaveRequest};
use super::state::{
    render_arrival, Adjustment, EditState, RenderArrival, RotationStep, SaveOutcome, SaveTarget,
};
#[allow(unused_imports)]
use super::state::{adjusted, arrival, next_token, step_turns, unedited};
use crate::media::MediaItem;
use vstd::prelude::*;

verus! {

/// How long a turn of the file stays before it is taken back, in seconds.
pub const UNDO_AFTER_SECS: u64 = 5;

/// The state of the page.
pub struct EditorPage {
    pub media_item: MediaItem,
    pub state: EditState,
    pub has_source: bool,
    pub render_token: u64,
    /// A preview is to be made when the timer goes off.
    pub preview_waiting: bool,
}

/// A turn of the file itself, in degrees clockwise.
pub struct FileTurn {
    pub path: String,
    pub degrees: i32,
}

/// How a save is reported: the key of the text, the reason to fill in, and
/// whether the page is left. Without a key nothing is shown.
pub struct PageReport {
    pub toast_key: Option<&'static str>,
    pub error: Option<String>,
    pub pop: bool,
}

/// How far a rotation button turns the file, in degrees clockwise.
pub open spec fn file_degrees(step: RotationStep) -> int {
    90 * step_turns(step)
}

/// How far the file is turned to take that back.
pub open spec fn undo_degrees(step: RotationStep) -> int {
    -90 * step_turns(step)
}

impl EditorPage {
    /// A page for a photo without edits.
    pub fn new(media_item: MediaItem) -> (page: EditorPage)
        ensures
            page.media_item == media_item,
            page.state == unedited(),
            !page.has_source,
            page.render_token == 0,
            !page.preview_waiting,
    {
        EditorPage {
            media_item,
            state: EditState::default(),
            has_source: false,
            render_token: 0,
            preview_waiting: false,
        }
    }

    /// The edits.
    pub fn state(&self) -> (state: EditState)
        ensures
            state == self.state,
    {
        self.state
    }

    /// The photo was loaded, or could not be.
    pub fn source_loaded(&mut self, loaded: bool)
        ensures
            *final(self) == if loaded {
                EditorPage { has_source: true, preview_waiting: true, ..*old(self) }
            } else {
                *old(self)
            },
    {
        if loaded {
            self.has_source = true;
            self.preview_waiting = true;
        }
    }

    /// A scale was moved.
    pub fn set_adjustment(&mut self, what: Adjustment, value: i32)
        ensures
            *final(self) == (EditorPage {
                state: adjusted(old(self).state, what, value),
                preview_waiting: true,
                ..*old(self)
            }),
    {
        self.state.adjust(what, value);
        self.preview_waiting = true;
    }

    /// The turn of the file that a rotation button asks for.
    pub fn apply_rotation_delta(&self, step: RotationStep) -> (turn: FileTurn)
        ensures
            turn.path == self.media_item.path,
            turn.degrees == 90 * step_turns(step),
            turn.degrees == file_degrees(step),
    {
        FileTurn { path: self.media_item.path.clone(), degrees: step.degrees() }
    }

    /// The file was turned, or could not be: the turn that takes it back after
    /// `UNDO_AFTER_SECS`.
    pub fn rotation_finished(&self, step: RotationStep, done: bool) -> (undo: Option<FileTurn>)
        ensures
            undo is Some <==> done,
            undo matches Some(turn) ==> turn.path == self.media_item.path && turn.degrees == -90
                * step_turns(step),
            undo matches Some(turn) ==> turn.degrees == undo_degrees(step),
    {
        if done {
            Some(FileTurn { path: self.media_item.path.clone(), degrees: -step.degrees() })
        } else {
            None
        }
    }

    /// The timer went off: the preview to be made, if there is a photo. The
    /// spinner turns until its `preview_rendered`.
    pub fn render_preview(&mut self) -> (request: Option<RenderRequest>)
        ensures
            request is Some <==> old(self).has_source,
            *final(self) == (EditorPage {
                preview_waiting: false,
                render_token: if request is Some {
                    next_token(old(self).render_token)
                } else {
                    old(self).render_token
                },
                ..*old(self)
            }),
            request matches Some(found) ==> found == (RenderRequest {
                state: old(self).state,
                crop_mode_active: false,
                token: final(self).render_token,
            }),
    {
        self.preview_waiting = false;
        if !self.has_source {
            return None;
        }
        if self.render_token < u64::MAX {
            self.render_token = self.render_token + 1;
        }
        Some(
            RenderRequest { state: self.state, crop_mode_active: false, token: self.render_token },
        )
    }

    /// A preview was made, or could not be.
    pub fn preview_rendered(&self, token: u64, rendered: bool) -> (found: RenderArrival)
        ensures
            found == arrival(self.render_token, token, rendered),
    {
        render_arrival(self.render_token, token, rendered)
    }

    /// What saving writes, to a copy or over the photo.
    pub fn save(&self) -> (request: SaveRequest)
        ensures
            request.item == self.media_item,
            request.state == self.state,
    {
        SaveRequest { item: self.media_item.clone(), state: self.state }
    }
}

/// How a save is reported. The page is left only after a success.
pub fn page_save_finished(target: SaveTarget, outcome: SaveOutcome) -> (report: PageReport)
    ensures
        report.pop == (outcome is Saved),
        report.error == match outcome {
            SaveOutcome::Failed(reason) => Some(reason),
            _ => None,
        },
        report.toast_key is None <==> outcome is WorkerLost,
        report.toast_key matches Some(key) ==> key@ == match (target, outcome is Saved) {
            (SaveTarget::Copy, true) => "editor.toast.saved_copy"@,
            (SaveTarget::Copy, false) => "editor.toast.save_copy_failed"@,
            (SaveTarget::Overwrite, true) => "editor.toast.overwritten"@,
            (SaveTarget::Overwrite, false) => "editor.toast.overwrite_failed"@,
        },
{
    let (saved_key, failed_key): (&'static str, &'static str) = match target {
        SaveTarget::Copy => ("editor.toast.saved_copy", "editor.toast.save_copy_failed"),
        SaveTarget::Overwrite => ("editor.toast.overwritten", "editor.toast.overwrite_failed"),
    };
    match outcome {
        SaveOutcome::Saved => PageReport { toast_key: Some(saved_key), error: None, pop: true },
        SaveOutcome::Failed(reason) => PageReport {
            toast_key: Some(failed_key),
            error: Some(reason),
            pop: false,
        },
        SaveOutcome::WorkerLost => PageReport { toast_key: None, error: None, pop: false },
    }
}

/// A turn of the file and the turn that takes it back cancel out. The buttons
/// turn a quarter clockwise, half round, and a quarter counterclockwise.
pub proof fn file_turns_are_taken_back(step: RotationStep)
    ensures
        file_degrees(step) + undo_degrees(step) == 0,
        file_degrees(RotationStep::Clockwise) == 90,
        file_degrees(RotationStep::Half) == 180,
        file_degrees(RotationStep::Counterclockwise) == -90,
{
}

} // verus!
