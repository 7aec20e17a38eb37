//! The edits of a session, and how saving them is reported.

use super::crop::CropRect;
use vstd::prelude::*;

verus! {

/// A turn, clockwise.
#[derive(Clone, Copy, Debug, PartialEq, Eq, Structural)]
pub enum Rotation {
    R0,
    R90,
    R180,
    R270,
}

/// How far a rotation turns, in quarter turns.
pub open spec fn quarter_turns(rotation: Rotation) -> int {
    match rotation {
        Rotation::R0 => 0,
        Rotation::R90 => 1,
        Rotation::R180 => 2,
        Rotation::R270 => 3,
    }
}

/// A step of one of the rotation buttons.
#[derive(Clone, Copy, Debug, PartialEq, Eq, Structural)]
pub enum RotationStep {
    /// A quarter turn, clockwise.
    Clockwise,
    /// Half a turn.
    Half,
    /// A quarter turn, counterclockwise.
    Counterclockwise,
}

/// How far a step turns, in quarter turns.
pub open spec fn step_turns(step: RotationStep) -> int {
    match step {
        RotationStep::Clockwise => 1,
        RotationStep::Half => 2,
        RotationStep::Counterclockwise => -1,
    }
}

impl RotationStep {
    /// The step in degrees, clockwise.
    pub fn degrees(self) -> (degrees: i32)
        ensures
            degrees == 90 * step_turns(self),
    {
        match self {
            RotationStep::Clockwise => 90,
            RotationStep::Half => 180,
            RotationStep::Counterclockwise => -90,
        }
    }
}

impl Rotation {
    fn next_quarter(self) -> (rotation: Rotation)
        ensures
            quarter_turns(rotation) == (quarter_turns(self) + 1) % 4,
    {
        match self {
            Rotation::R0 => Rotation::R90,
            Rotation::R90 => Rotation::R180,
            Rotation::R180 => Rotation::R270,
            Rotation::R270 => Rotation::R0,
        }
    }

    /// The rotation and a further step together.
    pub fn rotated_by(self, step: RotationStep) -> (rotation: Rotation)
        ensures
            quarter_turns(rotation) == (quarter_turns(self) + step_turns(step)) % 4,
    {
        match step {
            RotationStep::Clockwise => self.next_quarter(),
            RotationStep::Half => self.next_quarter().next_quarter(),
            RotationStep::Counterclockwise => self.next_quarter().next_quarter().next_quarter(),
        }
    }

    /// Whether width and height change places.
    pub open spec fn swaps_sides(self) -> bool {
        self == Rotation::R90 || self == Rotation::R270
    }
}

/// The rotation after a step.
pub open spec fn turned(rotation: Rotation, step: RotationStep) -> Rotation {
    let turns = (quarter_turns(rotation) + step_turns(step)) % 4;
    if turns == 0 {
        Rotation::R0
    } else if turns == 1 {
        Rotation::R90
    } else if turns == 2 {
        Rotation::R180
    } else {
        Rotation::R270
    }
}

/// Which colour a scale adjusts.
#[derive(Clone, Copy, Debug, PartialEq, Eq, Structural)]
pub enum Adjustment {
    Brightness,
    Contrast,
    Saturation,
}

/// The edits of a session.
#[derive(Clone, Copy, Debug, PartialEq, Eq, Structural)]
pub struct EditState {
    pub rotation: Rotation,
    pub crop: Option<CropRect>,
    pub brightness: i32,
    pub contrast: i32,
    pub saturation: i32,
}

/// No edits at all.
pub open spec fn unedited() -> EditState {
    EditState {
        rotation: Rotation::R0,
        crop: None,
        brightness: 0,
        contrast: 0,
        saturation: 0,
    }
}

/// The edits with one colour adjusted.
pub open spec fn adjusted(state: EditState, what: Adjustment, value: i32) -> EditState {
    match what {
        Adjustment::Brightness => EditState { brightness: value, ..state },
        Adjustment::Contrast => EditState { contrast: value, ..state },
        Adjustment::Saturation => EditState { saturation: value, ..state },
    }
}

impl Default for EditState {
    fn default() -> (state: Self)
        ensures
            state == unedited(),
    {
        EditState {
            rotation: Rotation::R0,
            crop: None,
            brightness: 0,
            contrast: 0,
            saturation: 0,
        }
    }
}

impl EditState {
    /// Adjust one colour.
    pub fn adjust(&mut self, what: Adjustment, value: i32)
        ensures
            *final(self) == adjusted(*old(self), what, value),
    {
        match what {
            Adjustment::Brightness => {
                self.brightness = value;
            },
            Adjustment::Contrast => {
                self.contrast = value;
            },
            Adjustment::Saturation => {
                self.saturation = value;
            },
        }
    }

    /// Turn the image by a step.
    pub fn rotate(&mut self, step: RotationStep)
        ensures
            *final(self) == (EditState {
                rotation: turned(old(self).rotation, step),
                ..*old(self)
            }),
    {
        self.rotation = self.rotation.rotated_by(step);
    }
}

/// Which file edits are saved to.
#[derive(Clone, Copy, Debug, PartialEq, Eq, Structural)]
pub enum SaveTarget {
    /// A new file beside the photo.
    Copy,
    /// The photo itself.
    Overwrite,
}

/// What became of saving.
pub enum SaveOutcome {
    Saved,
    /// Saving failed, with the reason.
    Failed(String),
    /// The worker that saves came to a sudden end.
    WorkerLost,
}

/// What came of a render.
#[derive(Clone, Copy, Debug, PartialEq, Eq, Structural)]
pub enum RenderArrival {
    /// A newer render was started meanwhile.
    Stale,
    /// Show the picture, and stop the spinner.
    Show,
    /// There is no picture; stop the spinner.
    Failed,
}

/// What a finished render does: a stale one does nothing at all.
pub open spec fn arrival(current: u64, token: u64, rendered: bool) -> RenderArrival {
    if token != current {
        RenderArrival::Stale
    } else if rendered {
        RenderArrival::Show
    } else {
        RenderArrival::Failed
    }
}

/// What a finished render does.
pub fn render_arrival(current: u64, token: u64, rendered: bool) -> (found: RenderArrival)
    ensures
        found == arrival(current, token, rendered),
{
    if token != current {
        RenderArrival::Stale
    } else if rendered {
        RenderArrival::Show
    } else {
        RenderArrival::Failed
    }
}

/// The token of the next render.
pub open spec fn next_token(token: u64) -> u64 {
    if token == u64::MAX {
        token
    } else {
        (token + 1) as u64
    }
}

/// Four quarter turns in a row, two half turns, and a quarter turn there and
/// back change nothing.
pub proof fn turning_all_the_way_round(rotation: Rotation)
    ensures
        turned(turned(rotation, RotationStep::Half), RotationStep::Half) == rotation,
        turned(turned(rotation, RotationStep::Clockwise), RotationStep::Counterclockwise)
            == rotation,
        turned(
            turned(
                turned(turned(rotation, RotationStep::Clockwise), RotationStep::Clockwise),
                RotationStep::Clockwise,
            ),
            RotationStep::Clockwise,
        ) == rotation,
{
}

/// Once a newer render was started, an older one no longer shows. (At the very
/// last token all renders count as the newest.)
pub proof fn older_renders_are_stale(token: u64, rendered: bool)
    requires
        token < u64::MAX,
    ensures
        arrival(next_token(token), token, rendered) == RenderArrival::Stale,
{
}

/// Clockwise quarter turns go through the rotations in the order of their
/// angles, counterclockwise ones the other way, and half a turn is two of them.
pub proof fn turns_go_by_quarters(rotation: Rotation)
    ensures
        turned(Rotation::R0, RotationStep::Clockwise) == Rotation::R90,
        turned(Rotation::R90, RotationStep::Clockwise) == Rotation::R180,
        turned(Rotation::R180, RotationStep::Clockwise) == Rotation::R270,
        turned(Rotation::R270, RotationStep::Clockwise) == Rotation::R0,
        turned(turned(rotation, RotationStep::Counterclockwise), RotationStep::Clockwise)
            == rotation,
        turned(rotation, RotationStep::Half) == turned(
            turned(rotation, RotationStep::Clockwise),
            RotationStep::Clockwise,
        ),
{
}

/// A step turns by what its degrees say: from any rotation to the one that many
/// degrees further, clockwise where they are positive.
pub proof fn steps_turn_by_their_degrees(rotation: Rotation, step: RotationStep)
    ensures
        (90 * quarter_turns(rotation) + 90 * step_turns(step) - 90 * quarter_turns(
            turned(rotation, step),
        )) % 360 == 0,
        90 * quarter_turns(Rotation::R90) == 90,
        90 * quarter_turns(Rotation::R180) == 180,
        90 * quarter_turns(Rotation::R270) == 270,
        -90 <= 90 * step_turns(step) <= 180,
{
}

/// Adjusting a colour sets that colour, and leaves every other edit.
pub proof fn adjusting_sets_one_colour(state: EditState, what: Adjustment, value: i32)
    ensures
        ({
            let now = adjusted(state, what, value);
            &&& now.rotation == state.rotation
            &&& now.crop == state.crop
            &&& now.brightness == if what == Adjustment::Brightness {
                value
            } else {
                state.brightness
            }
            &&& now.contrast == if what == Adjustment::Contrast {
                value
            } else {
                state.contrast
            }
            &&& now.saturation == if what == Adjustment::Saturation {
                value
            } else {
                state.saturation
            }
        }),
{
}

/// The render that was started last shows what it rendered, and a failure where
/// it rendered nothing. Every other one is stale.
pub proof fn the_newest_render_shows(current: u64, token: u64)
    ensures
        arrival(current, current, true) == RenderArrival::Show,
        arrival(current, current, false) == RenderArrival::Failed,
        token != current ==> arrival(current, token, true) == RenderArrival::Stale && arrival(
            current,
            token,
            false,
        ) == RenderArrival::Stale,
        current < u64::MAX ==> next_token(current) > current,
{
}

} // verus!
