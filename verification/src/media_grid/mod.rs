//! The sectioned thumbnail grid: what it shows, how it follows the media list,
//! how it pages through a large library and what is selected in it.

pub mod board;
pub mod board_laws;
pub mod content;
pub mod context_menu;
pub mod controls;
pub mod grid_laws;
pub mod loading;
pub mod metadata;
pub mod order_laws;
pub mod rebuild;
pub mod render;
pub mod sections;
pub mod selection;
pub mod state;
pub mod undo_laws;
pub mod updates;
pub mod view_laws;
pub mod viewport;
pub mod virtual_paging;

use crate::media::{GroupBy, ThumbnailSize};
use vstd::prelude::*;

verus! {

/// On-screen tile size and thumbnail bucket of a view.
#[derive(Debug, Clone, Copy, PartialEq, Eq, Structural)]
pub struct ViewSpec {
    pub pixel_size: i32,
    pub thumb_size: ThumbnailSize,
    pub mode: GroupBy,
}

/// The tiles of each view. The year view shows the most photos and so has the
/// smallest tiles.
pub fn spec_for_mode(mode: GroupBy) -> (spec: ViewSpec)
    ensures
        spec.mode == mode,
        mode == GroupBy::Year ==> spec.pixel_size == 90 && spec.thumb_size == ThumbnailSize::Small,
        mode == GroupBy::Month ==> spec.pixel_size == 180 && spec.thumb_size
            == ThumbnailSize::Medium,
        mode == GroupBy::Day ==> spec.pixel_size == 270 && spec.thumb_size == ThumbnailSize::Medium,
{
    match mode {
        GroupBy::Year => ViewSpec { pixel_size: 90, thumb_size: ThumbnailSize::Small, mode },
        GroupBy::Month => ViewSpec { pixel_size: 180, thumb_size: ThumbnailSize::Medium, mode },
        GroupBy::Day => ViewSpec { pixel_size: 270, thumb_size: ThumbnailSize::Medium, mode },
    }
}

} // verus!
