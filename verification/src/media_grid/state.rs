//! The state of a media grid, apart from its widgets.

#[allow(unused_imports)]
use super::board::SectionTiles;
use super::board::{Board, BoardView};
use super::metadata::{LibraryMetadata, MetadataView};
use super::selection::Selection;
use super::virtual_paging::PendingVirtualPage;
use crate::media::{GroupBy, LibraryStats};
use vstd::prelude::*;

verus! {

/// Limits and switches that apply to every grid.
#[derive(Clone, Copy, Debug, PartialEq, Eq, Structural)]
pub struct GridConfig {
    /// Tiles that a grid renders at first.
    pub max_rendered_grid_items: usize,
    /// Tiles that a grid never goes beyond.
    pub grid_render_absolute_cap: usize,
    /// Tiles by which scrolling near the bottom raises the limit.
    pub grid_render_expand_step: usize,
    /// Photos in one page of a large library.
    pub virtual_media_page_size: u32,
    /// Whether the first render starts with a small seed.
    pub startup_progressive_render: bool,
    /// Tiles in that seed.
    pub startup_render_seed: usize,
    /// Tiles that every later step adds to the seed.
    pub startup_render_batch: usize,
}

impl GridConfig {
    /// The number of tiles that a settled grid starts from.
    pub open spec fn steady_limit(self) -> usize {
        if self.max_rendered_grid_items < self.grid_render_absolute_cap {
            self.max_rendered_grid_items
        } else {
            self.grid_render_absolute_cap
        }
    }

    /// The number of tiles that a settled grid starts from.
    pub fn rendered_ceiling(&self) -> (limit: usize)
        ensures
            limit == self.steady_limit(),
    {
        if self.max_rendered_grid_items < self.grid_render_absolute_cap {
            self.max_rendered_grid_items
        } else {
            self.grid_render_absolute_cap
        }
    }
}

/// What a grid is set to, and whether it is on screen and up to date.
#[derive(Clone, Copy, Debug, PartialEq, Eq, Structural)]
pub struct GridFlags {
    pub mode: GroupBy,
    pub enable_context_menu: bool,
    pub full_library_context: bool,
    pub flat_sections: bool,
    pub active: bool,
    pub dirty_model: bool,
}

/// Where the loaded window stands in the library, and which page is on its way.
/// Scroll ratios are carried as bit patterns.
#[derive(Clone, Copy, Debug, PartialEq, Eq, Structural)]
pub struct PagingState {
    pub window_start: u32,
    pub total: u32,
    pub page_loading: bool,
    pub query_in_flight: bool,
    pub pending: PendingVirtualPage,
    pub generation: u64,
    pub pending_scroll_ratio: Option<u64>,
    pub restoring_scroll: bool,
    pub applying_page: bool,
}

/// How much of the loaded window is rendered, and which work is waiting.
#[derive(Clone, Copy, Debug, PartialEq, Eq, Structural)]
pub struct RenderProgress {
    pub rendered_limit: usize,
    pub progressive_pending: bool,
    pub generation: u32,
    pub rebuild_scheduled: bool,
}

/// The thumbnail progress line: what it shows, whether its timer runs and
/// whether a refresh is under way.
#[derive(Clone, Copy, Debug, PartialEq, Eq, Structural)]
pub struct StatsLine {
    pub shown: Option<LibraryStats>,
    pub timer: bool,
    pub refresh_running: bool,
}

/// What stands around the sections: the spacers, and the placeholders that take
/// the place of the sections while a page loads. Heights of zero mean no spacer.
#[derive(Clone, Copy, Debug, PartialEq, Eq, Structural)]
pub struct Layout {
    pub top_spacer: i32,
    pub placeholders: u32,
    pub extra_placeholder: bool,
    pub bottom_spacer: i32,
}

/// A media grid.
pub struct MediaGrid {
    pub config: GridConfig,
    pub flags: GridFlags,
    pub paging: PagingState,
    pub progress: RenderProgress,
    pub metadata: LibraryMetadata,
    pub stats: StatsLine,
    pub layout: Layout,
    pub selection: Selection,
    pub board: Board,
}

/// The meaning of a `MediaGrid`.
#[verifier::ext_equal]
pub struct GridView {
    pub config: GridConfig,
    pub flags: GridFlags,
    pub paging: PagingState,
    pub progress: RenderProgress,
    pub metadata: MetadataView,
    pub stats: StatsLine,
    pub layout: Layout,
    pub selected: Set<i64>,
    pub multi_select: bool,
    pub board: BoardView,
}

impl View for MediaGrid {
    type V = GridView;

    open spec fn view(&self) -> GridView {
        GridView {
            config: self.config,
            flags: self.flags,
            paging: self.paging,
            progress: self.progress,
            metadata: self.metadata@,
            stats: self.stats,
            layout: self.layout,
            selected: self.selection.selected(),
            multi_select: self.selection.multi_select,
            board: self.board@,
        }
    }
}

/// Flat grids have no section headers, all others have one on every section.
pub open spec fn headers_fit(sections: Seq<SectionTiles>, flat: bool) -> bool {
    forall|i: int| 0 <= i < sections.len() ==> ((#[trigger] sections[i]).header is None <==> flat)
}

impl MediaGrid {
    /// What holds even while the board waits to be rebuilt.
    pub open spec fn sound(self) -> bool {
        &&& self.metadata.wf()
        &&& self.selection.wf()
        &&& self.selection.settled()
    }

    /// The board is in order, and its headers are as the grid is set.
    pub open spec fn wf(self) -> bool {
        &&& self.sound()
        &&& self.board@.wf()
        &&& headers_fit(self.board@.sections, self.flags.flat_sections)
    }

    /// The view the grid shows.
    pub fn mode(&self) -> (mode: GroupBy)
        ensures
            mode == self@.flags.mode,
    {
        self.flags.mode
    }

    /// Whether the grid shows one section without headers.
    pub fn uses_flat_sections(&self) -> (flat: bool)
        ensures
            flat == self@.flags.flat_sections,
    {
        self.flags.flat_sections
    }
}

} // verus!
