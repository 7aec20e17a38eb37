//! Building the sections of a grid anew.

#[allow(unused_imports)]
use super::board::{built_board, built_sections, counts_view, BoardView};
#[allow(unused_imports)]
use super::board_laws::building_makes_a_board_in_order;
#[allow(unused_imports)]
use super::metadata::{stats_unfinished, MetadataView};
#[allow(unused_imports)]
use super::sections::{
    flat_group, grouped, grouping_places_every_photo, groups_of, proper_groups, SectionGroup,
};
#[allow(unused_imports)]
use super::state::{
    headers_fit, GridView, Layout, MediaGrid, PagingState, RenderProgress, StatsLine,
};
#[allow(unused_imports)]
use super::virtual_paging::{page_len, spacer_height, tile_pitch};
use super::board::Board;
use super::metadata::should_show_library_stats;
use super::sections::{group_items, MediaSection, SectionCounts};
use super::virtual_paging::{
    estimated_virtual_columns, virtual_spacer_height, virtual_window_item_count,
};
use super::{spec_for_mode, ViewSpec};
use crate::media::{GroupBy, LibraryStats, MediaItem, SectionKey};
use crate::media_list::MediaList;
use vstd::prelude::*;

verus! {

// ---------------------------------------------------------------------------
// Rebuilding

/// What a rebuild leaves for others to do.
#[derive(Clone, Copy, Debug, PartialEq, Eq, Structural)]
pub struct RebuildOutcome {
    /// Load the library-wide numbers of the view.
    pub load_metadata: bool,
    /// Restore this scroll ratio; without one, restore the position in pixels.
    pub scroll_ratio: Option<u64>,
    /// Start filling in the rest of the first page, step by step.
    pub start_fill: bool,
}

/// Where the window of a rebuild stands.
struct WindowPlan {
    limit: usize,
    rendered: u32,
    total: u32,
    placeholders: u32,
    window_len: u32,
    window_start: u32,
    below: u32,
}

/// The groups of photos that a grid shows.
pub open spec fn shown_groups(
    items: Seq<MediaItem>,
    flat: bool,
    mode: GroupBy,
) -> Seq<SectionGroup> {
    if flat {
        if items.len() == 0 {
            Seq::empty()
        } else {
            flat_group(items.len() as int)
        }
    } else {
        grouped(items, mode)
    }
}

/// On-screen size of the tiles of a view.
pub open spec fn pixel_size_of(mode: GroupBy) -> int {
    match mode {
        GroupBy::Year => 90,
        GroupBy::Month => 180,
        GroupBy::Day => 270,
    }
}

/// Tiles side by side in a viewport; narrow viewports count as 1000 pixels.
pub open spec fn columns_in(viewport_width: u32, mode: GroupBy) -> int {
    let width = if viewport_width > 1000 { viewport_width as int } else { 1000 };
    width / tile_pitch(pixel_size_of(mode))
}

impl GridView {
    /// Does the next rebuild render only a seed of the first page?
    pub open spec fn seeds(self, len: int) -> bool {
        &&& self.progress.progressive_pending
        &&& self.config.startup_progressive_render
        &&& len > self.config.startup_render_seed
        &&& self.progress.rendered_limit > self.config.startup_render_seed
    }

    /// The number of tiles that the next rebuild renders at most.
    pub open spec fn next_limit(self, len: int) -> usize {
        if self.seeds(len) {
            self.config.startup_render_seed
        } else {
            self.progress.rendered_limit
        }
    }

    /// The number of loaded photos that the next rebuild renders.
    pub open spec fn rendered(self, len: int) -> int {
        if len > self.next_limit(len) {
            self.next_limit(len) as int
        } else {
            len
        }
    }

    /// The number of photos that the scroll bar stands for.
    pub open spec fn scroll_total(self, len: int) -> u32 {
        if self.flags.full_library_context {
            match self.metadata.total {
                Some(total) => if total > len {
                    total
                } else {
                    len as u32
                },
                None => len as u32,
            }
        } else {
            len as u32
        }
    }

    /// Is a load of the library-wide numbers due?
    pub open spec fn metadata_due(self) -> bool {
        &&& self.flags.full_library_context
        &&& !self.metadata.complete_for(self.flags.mode)
        &&& !self.metadata.loading
    }

    /// Placeholders that stand for the page that is being loaded.
    pub open spec fn placeholders(self, len: int) -> int {
        if self.paging.page_loading {
            page_len(
                self.paging.window_start as int,
                self.scroll_total(len) as int,
                self.config.virtual_media_page_size as int,
            )
        } else {
            0
        }
    }

    /// The number of photos in the window, loaded or on their way.
    pub open spec fn window_len(self, len: int) -> int {
        if self.placeholders(len) > 0 {
            self.placeholders(len)
        } else {
            self.rendered(len)
        }
    }

    /// The start of the window, moved up where it would reach behind the end.
    pub open spec fn window_start(self, len: int) -> int {
        let total = self.scroll_total(len) as int;
        let room = if total > self.window_len(len) { total - self.window_len(len) } else { 0 };
        if self.paging.window_start < room {
            self.paging.window_start as int
        } else {
            room
        }
    }

    /// Photos of the library below the window.
    pub open spec fn below_window(self, len: int) -> int {
        let total = self.scroll_total(len) as int;
        let end = self.window_start(len) + self.window_len(len);
        if total > end { total - end } else { 0 }
    }

    /// The thumbnail progress that the next rebuild shows.
    pub open spec fn stats_to_show(self, len: int) -> Option<LibraryStats> {
        if self.flags.full_library_context && self.flags.mode == GroupBy::Day && self.window_len(
            len,
        ) > 0 {
            match self.metadata.stats {
                Some(stats) => if stats_unfinished(stats) {
                    Some(stats)
                } else {
                    None
                },
                None => None,
            }
        } else {
            None
        }
    }

    /// The library-wide section counts that the headers draw on.
    pub open spec fn header_counts(self) -> Option<Map<SectionKey, u32>> {
        if self.flags.full_library_context {
            self.metadata.known_counts(self.flags.mode)
        } else {
            None
        }
    }

    /// The board that the next rebuild makes.
    pub open spec fn next_board(self, items: Seq<MediaItem>) -> BoardView {
        let len = items.len() as int;
        let groups = if self.placeholders(len) > 0 {
            Seq::empty()
        } else {
            shown_groups(
                items.subrange(0, self.rendered(len)),
                self.flags.flat_sections,
                self.flags.mode,
            )
        };
        built_board(items, groups, self.flags.flat_sections, self.header_counts())
    }

    /// The grid after a rebuild for the list `items`.
    pub open spec fn rebuilt(self, items: Seq<MediaItem>, viewport_width: u32) -> GridView {
        let len = items.len() as int;
        let columns = columns_in(viewport_width, self.flags.mode);
        let pixels = pixel_size_of(self.flags.mode);
        let shown = self.stats_to_show(len);
        GridView {
            paging: PagingState {
                window_start: self.window_start(len) as u32,
                total: self.scroll_total(len),
                pending_scroll_ratio: None,
                ..self.paging
            },
            progress: RenderProgress {
                rendered_limit: self.next_limit(len),
                progressive_pending: false,
                ..self.progress
            },
            metadata: MetadataView {
                loading: self.metadata.loading || self.metadata_due(),
                ..self.metadata
            },
            stats: StatsLine {
                shown,
                timer: shown is Some && self.scroll_total(len) > 0,
                refresh_running: self.stats.refresh_running,
            },
            layout: Layout {
                top_spacer: spacer_height(self.window_start(len), columns, pixels) as i32,
                placeholders: self.placeholders(len) as u32,
                extra_placeholder: false,
                bottom_spacer: spacer_height(self.below_window(len), columns, pixels) as i32,
            },
            board: self.next_board(items),
            ..self
        }
    }

    /// What a rebuild for a list of `len` photos leaves to do.
    pub open spec fn rebuild_outcome(self, len: int) -> RebuildOutcome {
        RebuildOutcome {
            load_metadata: self.metadata_due(),
            scroll_ratio: self.paging.pending_scroll_ratio,
            start_fill: self.seeds(len),
        }
    }
}

proof fn lemma_increasing_len(members: Seq<usize>, bound: int)
    requires
        forall|m: int, n: int| 0 <= m < n < members.len() ==> members[m] < members[n],
        forall|m: int| 0 <= m < members.len() ==> members[m] < bound,
    ensures
        members.len() <= bound || members.len() == 0,
        members.len() > 0 ==> members.last() >= members.len() - 1,
    decreases members.len(),
{
    if members.len() > 1 {
        let front = members.drop_last();
        lemma_increasing_len(front, bound);
        assert(members[members.len() - 2] < members[members.len() - 1]);
    }
    if members.len() > 0 {
        assert(members[members.len() - 1] < bound);
    }
}

/// What `Board::build` needs to know of the groups of a list.
pub proof fn lemma_shown_groups(items: Seq<MediaItem>, count: int, flat: bool, mode: GroupBy)
    requires
        0 <= count <= items.len() <= u32::MAX,
    ensures
        ({
            let groups = shown_groups(items.subrange(0, count), flat, mode);
            &&& proper_groups(groups)
            &&& forall|g: int, m: int|
                #![trigger groups[g].members[m]]
                0 <= g < groups.len() && 0 <= m < groups[g].members.len()
                    ==> groups[g].members[m] < items.len()
            &&& forall|g: int|
                0 <= g < groups.len() ==> (#[trigger] groups[g]).members.len() <= u32::MAX
        }),
{
    let shown = items.subrange(0, count);
    let groups = shown_groups(shown, flat, mode);
    if !flat {
        grouping_places_every_photo(shown, mode);
        assert forall|g: int| 0 <= g < groups.len() implies (#[trigger] groups[g]).members.len()
            <= u32::MAX by {
            let members = groups[g].members;
            assert forall|m: int, n: int| 0 <= m < n < members.len() implies members[m]
                < members[n] by {
                assert(groups[g].members[m] < groups[g].members[n]);
            }
            assert forall|m: int| 0 <= m < members.len() implies members[m] < count by {
                assert(groups[g].members[m] < shown.len());
            }
            lemma_increasing_len(members, count);
        }
    }
}

proof fn lemma_built_headers(
    items: Seq<MediaItem>,
    groups: Seq<SectionGroup>,
    flat: bool,
    counts: Option<Map<SectionKey, u32>>,
)
    ensures
        headers_fit(built_sections(items, groups, flat, counts), flat),
    decreases groups.len(),
{
    if groups.len() > 0 {
        lemma_built_headers(items, groups.drop_last(), flat, counts);
    }
}

/// Group the first `count` photos of the list as the grid shows them.
pub fn group_for(list: &MediaList, count: usize, flat: bool, mode: GroupBy) -> (sections: Vec<
    MediaSection,
>)
    requires
        count <= list@.items.len(),
    ensures
        groups_of(sections@) == shown_groups(list@.items.subrange(0, count as int), flat, mode),
{
    if !flat {
        return group_items(list.items(), count, mode);
    }
    let mut sections: Vec<MediaSection> = Vec::new();
    if count > 0 {
        let mut members: Vec<usize> = Vec::new();
        let mut i: usize = 0;
        while i < count
            invariant
                i <= count,
                members@ =~= Seq::new(i as nat, |k: int| k as usize),
            decreases count - i,
        {
            members.push(i);
            i += 1;
        }
        sections.push(
            MediaSection { key: SectionKey { year: None, month: None, day: None }, members },
        );
    }
    assert(groups_of(sections@) =~= shown_groups(
        list@.items.subrange(0, count as int),
        flat,
        mode,
    ));
    sections
}

impl MediaGrid {
    /// Start a load of the library-wide numbers where one is due; `true` when
    /// it has to be carried out.
    pub fn ensure_library_metadata(&mut self) -> (load: bool)
        requires
            old(self).sound(),
        ensures
            final(self).sound(),
            final(self).wf() == old(self).wf(),
            load == old(self)@.metadata_due(),
            final(self)@ == (GridView {
                metadata: MetadataView {
                    loading: old(self)@.metadata.loading || load,
                    ..old(self)@.metadata
                },
                ..old(self)@
            }),
    {
        let load: bool = self.metadata_is_due();
        if load {
            let dirty: bool = self.metadata.dirty_pending;
            self.metadata.set_loading(true, dirty);
        }
        load
    }

    fn metadata_is_due(&self) -> (due: bool)
        requires
            self.sound(),
        ensures
            due == self@.metadata_due(),
    {
        let complete: bool = self.metadata.total.is_some() && self.metadata.stats.is_some()
            && self.metadata.counts(self.flags.mode).is_some();
        self.flags.full_library_context && !complete && !self.metadata.loading
    }

    fn total_for_scrolling(&self, source_len: u32) -> (total: u32)
        ensures
            total == self@.scroll_total(source_len as int),
    {
        if self.flags.full_library_context {
            match self.metadata.total {
                Some(total) => if total > source_len {
                    total
                } else {
                    source_len
                },
                None => source_len,
            }
        } else {
            source_len
        }
    }

    /// The section counts that the headers draw on.
    pub fn counts_for_headers(&self) -> (counts: Option<&SectionCounts>)
        requires
            self.metadata.wf(),
        ensures
            counts_view(counts) == self@.header_counts(),
            counts matches Some(known) ==> known.wf(),
    {
        if self.flags.full_library_context {
            self.metadata.counts(self.flags.mode)
        } else {
            None
        }
    }

    /// Does the next rebuild render only a seed of the first page?
    fn starts_with_seed(&self, source_len: u32) -> (seeded: bool)
        ensures
            seeded == self@.seeds(source_len as int),
    {
        let seed: usize = self.config.startup_render_seed;
        self.progress.progressive_pending && self.config.startup_progressive_render
            && source_len as usize > seed && self.progress.rendered_limit > seed
    }

    /// Where the window of the next rebuild stands.
    fn plan_window(&self, source_len: u32) -> (plan: WindowPlan)
        ensures
            plan.limit == self@.next_limit(source_len as int),
            plan.rendered == self@.rendered(source_len as int),
            plan.total == self@.scroll_total(source_len as int),
            plan.placeholders == self@.placeholders(source_len as int),
            plan.window_len == self@.window_len(source_len as int),
            plan.window_start == self@.window_start(source_len as int),
            plan.below == self@.below_window(source_len as int),
    {
        let limit: usize = if self.starts_with_seed(source_len) {
            self.config.startup_render_seed
        } else {
            self.progress.rendered_limit
        };
        let rendered: u32 = if source_len as usize > limit {
            limit as u32
        } else {
            source_len
        };
        let total: u32 = self.total_for_scrolling(source_len);
        let placeholders: u32 = if self.paging.page_loading {
            virtual_window_item_count(
                self.paging.window_start,
                total,
                self.config.virtual_media_page_size,
            )
        } else {
            0
        };
        let window_len: u32 = if placeholders > 0 {
            placeholders
        } else {
            rendered
        };
        let room: u32 = total.saturating_sub(window_len);
        let window_start: u32 = if self.paging.window_start < room {
            self.paging.window_start
        } else {
            room
        };
        let loaded_end: u32 = window_start.saturating_add(window_len);
        let below: u32 = total.saturating_sub(loaded_end);
        WindowPlan { limit, rendered, total, placeholders, window_len, window_start, below }
    }

    /// Spacers and placeholders of the next rebuild.
    fn plan_layout(&self, plan: &WindowPlan, viewport_width: u32) -> (layout: Layout)
        ensures
            layout.top_spacer == spacer_height(
                plan.window_start as int,
                columns_in(viewport_width, self@.flags.mode),
                pixel_size_of(self@.flags.mode),
            ),
            layout.bottom_spacer == spacer_height(
                plan.below as int,
                columns_in(viewport_width, self@.flags.mode),
                pixel_size_of(self@.flags.mode),
            ),
            layout.placeholders == plan.placeholders,
            !layout.extra_placeholder,
    {
        let spec: ViewSpec = spec_for_mode(self.flags.mode);
        let width: u32 = if viewport_width > 1000 {
            viewport_width
        } else {
            1000
        };
        let columns: u32 = estimated_virtual_columns(width, spec);
        proof {
            let pitch = tile_pitch(spec.pixel_size as int);
            assert(width as int / pitch > 1) by (nonlinear_arith)
                requires
                    width >= 1000,
                    0 < pitch <= 272,
            ;
        }
        Layout {
            top_spacer: virtual_spacer_height(plan.window_start, columns, spec),
            placeholders: plan.placeholders,
            extra_placeholder: false,
            bottom_spacer: virtual_spacer_height(plan.below, columns, spec),
        }
    }

    /// Thumbnail progress that the next rebuild shows.
    fn plan_stats(&self, window_len: u32) -> (shown: Option<LibraryStats>)
        ensures
            forall|len: int|
                self@.window_len(len) == window_len ==> shown == #[trigger] self@.stats_to_show(
                    len,
                ),
    {
        if self.flags.full_library_context && self.flags.mode == GroupBy::Day && window_len > 0 {
            match self.metadata.stats {
                Some(stats) => if should_show_library_stats(&stats) {
                    Some(stats)
                } else {
                    None
                },
                None => None,
            }
        } else {
            None
        }
    }

    /// The board of the next rebuild.
    fn plan_board(&self, list: &MediaList, plan: &WindowPlan) -> (board: Board)
        requires
            self.metadata.wf(),
            list.wf(),
            plan.rendered == self@.rendered(list@.items.len() as int),
            plan.placeholders == self@.placeholders(list@.items.len() as int),
        ensures
            board@ == self@.next_board(list@.items),
            board@.wf(),
            headers_fit(board@.sections, self@.flags.flat_sections),
    {
        let flat: bool = self.flags.flat_sections;
        let sections: Vec<MediaSection> = if plan.placeholders > 0 {
            Vec::new()
        } else {
            group_for(list, plan.rendered as usize, flat, self.flags.mode)
        };
        let ghost groups = groups_of(sections@);
        proof {
            lemma_shown_groups(list@.items, plan.rendered as int, flat, self.flags.mode);
            if plan.placeholders > 0 {
                assert(groups =~= Seq::<SectionGroup>::empty());
            }
            lemma_built_headers(list@.items, groups, flat, self@.header_counts());
        }
        let counts: Option<&SectionCounts> = self.counts_for_headers();
        let board: Board = Board::build(list, &sections, flat, counts);
        proof {
            building_makes_a_board_in_order(list@.items, groups, flat, self@.header_counts());
        }
        board
    }

    /// Tear the sections down and build them anew for the list and the view of
    /// the grid.
    pub fn rebuild(&mut self, list: &MediaList, viewport_width: u32) -> (outcome: RebuildOutcome)
        requires
            old(self).sound(),
            list.wf(),
        ensures
            final(self).wf(),
            final(self)@ == old(self)@.rebuilt(list@.items, viewport_width),
            outcome == old(self)@.rebuild_outcome(list@.items.len() as int),
    {
        let source_len: u32 = list.n_items();
        let plan: WindowPlan = self.plan_window(source_len);
        let layout: Layout = self.plan_layout(&plan, viewport_width);
        let shown: Option<LibraryStats> = self.plan_stats(plan.window_len);
        let board: Board = self.plan_board(list, &plan);
        let scroll_ratio: Option<u64> = self.paging.pending_scroll_ratio;
        let start_fill: bool = self.starts_with_seed(source_len);
        let load_metadata: bool = self.ensure_library_metadata();
        self.paging.window_start = plan.window_start;
        self.paging.total = plan.total;
        self.paging.pending_scroll_ratio = None;
        self.progress.rendered_limit = plan.limit;
        self.progress.progressive_pending = false;
        self.stats.shown = shown;
        self.stats.timer = shown.is_some() && plan.total > 0;
        self.layout = layout;
        self.board = board;
        RebuildOutcome { load_metadata, scroll_ratio, start_fill }
    }
}

} // verus!
