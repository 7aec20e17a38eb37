//! Work that waits: debounced rebuilds, pages of a large library, the rest of
//! the first page, and the library-wide numbers.

use super::metadata::GridMetadataSnapshot;
#[allow(unused_imports)]
use super::metadata::MetadataView;
use super::rebuild::RebuildOutcome;
#[allow(unused_imports)]
use super::state::{GridView, PagingState, RenderProgress, StatsLine};
use super::state::MediaGrid;
#[allow(unused_imports)]
use super::updates::{all_ready, ChangeAnswer};
#[allow(unused_imports)]
use super::virtual_paging::{band_high, offset_for, page_start};
use super::virtual_paging::{
    replace_pending_virtual_page, should_consider_virtual_page_load, virtual_offset_for_ratio,
    virtual_page_start_for_offset, PendingVirtualPage,
};
use crate::media::{LibraryStats, MediaItem};
use crate::media_list::MediaList;
use vstd::prelude::*;

verus! {

// ---------------------------------------------------------------------------
// Rebuilds

/// What an immediate rebuild did.
#[derive(Clone, Copy, Debug, PartialEq, Eq, Structural)]
pub struct ImmediateRebuild {
    pub rebuild: RebuildOutcome,
    /// A debounced rebuild was waiting, and is not needed any more.
    pub canceled_pending: bool,
    /// Photos were selected, and are not any more.
    pub selection_changed: bool,
}

impl GridView {
    /// Nothing selected, multi-select off.
    pub open spec fn deselected(self) -> GridView {
        GridView { selected: Set::empty(), multi_select: false, ..self }
    }

    /// No rebuild waiting.
    pub open spec fn unscheduled(self) -> GridView {
        GridView {
            progress: RenderProgress { rebuild_scheduled: false, ..self.progress },
            ..self
        }
    }

    /// A rebuild waiting.
    pub open spec fn scheduled(self) -> GridView {
        GridView {
            progress: RenderProgress { rebuild_scheduled: true, ..self.progress },
            ..self
        }
    }

    /// The grid after a rebuild that cannot wait: it drops the selection and
    /// stands in for a waiting rebuild.
    pub open spec fn rebuilt_now(self, items: Seq<MediaItem>, viewport_width: u32) -> GridView {
        self.unscheduled().deselected().rebuilt(items, viewport_width)
    }

    /// The grid after the library changed in a way that its numbers do not
    /// follow. Grids of a part of the library hold no such numbers.
    pub open spec fn with_stale_metadata(self) -> GridView {
        if self.flags.full_library_context {
            GridView { metadata: self.metadata.invalidated(self.stats.shown is Some), ..self }
        } else {
            self
        }
    }
}

impl GridView {
    /// The grid while it scrolls by itself, or after that.
    pub open spec fn scrolling_itself(self, restoring: bool) -> GridView {
        GridView {
            paging: PagingState { restoring_scroll: restoring, ..self.paging },
            ..self
        }
    }
}

impl MediaGrid {
    /// The grid is about to scroll back to where it was. Such scrolling loads no
    /// pages and renders no photos.
    pub fn begin_scroll_restore(&mut self)
        ensures
            final(self)@ == old(self)@.scrolling_itself(true),
            final(self).wf() == old(self).wf(),
    {
        self.paging.restoring_scroll = true;
    }

    /// The grid has scrolled back. From now on the user scrolls.
    pub fn end_scroll_restore(&mut self)
        ensures
            final(self)@ == old(self)@.scrolling_itself(false),
            final(self).wf() == old(self).wf(),
    {
        self.paging.restoring_scroll = false;
    }

    /// Ask for a rebuild after a quiet moment; `true` when none was waiting.
    pub fn schedule_rebuild(&mut self) -> (newly: bool)
        ensures
            newly == !old(self)@.progress.rebuild_scheduled,
            final(self)@ == old(self)@.scheduled(),
            final(self).wf() == old(self).wf(),
    {
        let newly: bool = !self.progress.rebuild_scheduled;
        self.progress.rebuild_scheduled = true;
        newly
    }

    /// Rebuild at once, without the selection, in place of any waiting rebuild.
    pub fn rebuild_immediately(&mut self, list: &MediaList, viewport_width: u32) -> (done:
        ImmediateRebuild)
        requires
            old(self).sound(),
            list.wf(),
        ensures
            final(self).wf(),
            final(self)@ == old(self)@.rebuilt_now(list@.items, viewport_width),
            done.rebuild == old(self)@.rebuild_outcome(list@.items.len() as int),
            done.canceled_pending == old(self)@.progress.rebuild_scheduled,
            done.selection_changed == (old(self)@.selected != Set::<i64>::empty()),
    {
        let ghost before = self@;
        let canceled_pending: bool = self.progress.rebuild_scheduled;
        self.progress.rebuild_scheduled = false;
        let selection_changed: bool = self.selection.clear_selection();
        assert(self@ == before.unscheduled().deselected());
        let rebuild: RebuildOutcome = self.rebuild(list, viewport_width);
        ImmediateRebuild { rebuild, canceled_pending, selection_changed }
    }

    /// Forget library-wide numbers that the library no longer warrants.
    pub fn invalidate_library_metadata(&mut self)
        requires
            old(self).sound(),
        ensures
            final(self).sound(),
            final(self).wf() == old(self).wf(),
            final(self)@ == old(self)@.with_stale_metadata(),
    {
        if self.flags.full_library_context {
            let on_screen: bool = self.stats.shown.is_some();
            self.metadata.invalidate(on_screen);
        }
    }
}

// ---------------------------------------------------------------------------
// Rendering more

impl GridView {
    /// Does scrolling raise the render limit?
    pub open spec fn can_expand(self, near_bottom: bool) -> bool {
        near_bottom && self.progress.rendered_limit < self.config.grid_render_absolute_cap
    }

    /// The render limit after one step up.
    pub open spec fn expanded_limit(self) -> usize {
        let next: usize = self.progress.rendered_limit.saturating_add(
            self.config.grid_render_expand_step,
        );
        if next < self.config.grid_render_absolute_cap {
            next
        } else {
            self.config.grid_render_absolute_cap
        }
    }
}

impl MediaGrid {
    /// Render more when the view comes near the bottom. `Some` when the limit
    /// rose and a rebuild is waiting, with whether it has to be set up.
    pub fn try_expand_render_limit(&mut self, near_bottom: bool) -> (newly: Option<bool>)
        ensures
            newly is Some <==> old(self)@.can_expand(near_bottom),
            newly matches Some(set_up) ==> set_up == !old(self)@.progress.rebuild_scheduled,
            final(self)@ == if newly is Some {
                old(self)@.expanded()
            } else {
                old(self)@
            },
            final(self).wf() == old(self).wf(),
    {
        let absolute: usize = self.config.grid_render_absolute_cap;
        if self.progress.rendered_limit >= absolute || !near_bottom {
            return None;
        }
        let next: usize = self.progress.rendered_limit.saturating_add(
            self.config.grid_render_expand_step,
        );
        self.progress.rendered_limit = if next < absolute {
            next
        } else {
            absolute
        };
        Some(self.schedule_rebuild())
    }
}

/// A step of filling in the rest of the first page.
#[derive(Clone, Copy, Debug, PartialEq, Eq, Structural)]
pub enum FillStep {
    /// The view changed meanwhile; this fill is over.
    Cancelled,
    /// The first page is complete.
    Finished,
    /// More tiles were placed behind those on screen.
    Appended,
    /// More photos were rendered by a rebuild.
    Rebuilt(RebuildOutcome),
}

impl GridView {
    /// The number of photos that a complete first page shows.
    pub open spec fn fill_goal(self, len: int) -> int {
        if self.config.steady_limit() < len {
            self.config.steady_limit() as int
        } else {
            len
        }
    }

    /// The render limit after the next step of the fill.
    pub open spec fn fill_limit(self, len: int) -> int {
        let next: usize = self.progress.rendered_limit.saturating_add(
            self.config.startup_render_batch,
        );
        if next < self.fill_goal(len) {
            next as int
        } else {
            self.fill_goal(len)
        }
    }

    pub open spec fn with_limit(self, limit: int) -> GridView {
        GridView {
            progress: RenderProgress { rendered_limit: limit as usize, ..self.progress },
            ..self
        }
    }

    /// Does the next step of the fill place its tiles without a rebuild?
    pub open spec fn fill_appends(self, items: Seq<MediaItem>) -> bool {
        let len = items.len() as int;
        self.with_limit(self.fill_limit(len)).can_add(
            items,
            self.progress.rendered_limit as u32,
            (self.fill_limit(len) - self.progress.rendered_limit) as u32,
        )
    }

    /// The grid after a step of the fill that started at `generation`.
    pub open spec fn after_fill_step(
        self,
        generation: u32,
        items: Seq<MediaItem>,
        viewport_width: u32,
    ) -> GridView {
        let len = items.len() as int;
        let limit = self.progress.rendered_limit as int;
        if self.progress.generation != generation {
            self
        } else if limit >= self.fill_goal(len) {
            self.with_limit(self.config.steady_limit() as int)
        } else if self.fill_appends(items) {
            self.with_limit(self.fill_limit(len)).after_addition(
                items,
                limit as u32,
                (self.fill_limit(len) - limit) as u32,
                all_ready(self.fill_limit(len) - limit),
                false,
            )
        } else {
            self.with_limit(self.fill_limit(len)).rebuilt(items, viewport_width)
        }
    }
}

impl MediaGrid {
    /// Render one more batch of the first page. `generation` is that of the
    /// grid when the fill started.
    pub fn progressive_render_tick(
        &mut self,
        generation: u32,
        list: &MediaList,
        viewport_width: u32,
    ) -> (step: FillStep)
        requires
            old(self).wf(),
            list.wf(),
            old(self).board.next_child + list@.items.len() <= u64::MAX,
        ensures
            final(self).wf(),
            final(self)@ == old(self)@.after_fill_step(generation, list@.items, viewport_width),
            step == FillStep::Cancelled <==> old(self)@.progress.generation != generation,
            step == FillStep::Finished <==> old(self)@.progress.generation == generation && old(
                self,
            )@.progress.rendered_limit >= old(self)@.fill_goal(list@.items.len() as int),
            step matches FillStep::Rebuilt(outcome) ==> !old(self)@.fill_appends(list@.items)
                && outcome == old(self)@.with_limit(
                old(self)@.fill_limit(list@.items.len() as int),
            ).rebuild_outcome(list@.items.len() as int),
            step == FillStep::Appended ==> old(self)@.fill_appends(list@.items),
    {
        if self.progress.generation != generation {
            return FillStep::Cancelled;
        }
        let ghost start = self@;
        let ghost len = list@.items.len() as int;
        let source_len: usize = list.n_items() as usize;
        let ceiling: usize = self.config.rendered_ceiling();
        let cap: usize = if ceiling < source_len {
            ceiling
        } else {
            source_len
        };
        let current: usize = self.progress.rendered_limit;
        if current >= cap {
            self.progress.rendered_limit = ceiling;
            return FillStep::Finished;
        }
        let raised: usize = current.saturating_add(self.config.startup_render_batch);
        let next: usize = if raised < cap {
            raised
        } else {
            cap
        };
        match self.render_up_to(current, next, list, viewport_width) {
            Some(outcome) => FillStep::Rebuilt(outcome),
            None => FillStep::Appended,
        }
    }

    /// Render the photos from `current` up to `next` as well; `None` when their
    /// tiles could be placed behind those on screen.
    fn render_up_to(
        &mut self,
        current: usize,
        next: usize,
        list: &MediaList,
        viewport_width: u32,
    ) -> (rebuilt: Option<RebuildOutcome>)
        requires
            old(self).wf(),
            list.wf(),
            current <= next <= list@.items.len(),
            old(self).board.next_child + list@.items.len() <= u64::MAX,
        ensures
            final(self).wf(),
            ({
                let raised = old(self)@.with_limit(next as int);
                let appends = raised.can_add(
                    list@.items,
                    current as u32,
                    (next - current) as u32,
                );
                &&& rebuilt is None <==> appends
                &&& final(self)@ == if appends {
                    raised.after_addition(
                        list@.items,
                        current as u32,
                        (next - current) as u32,
                        all_ready(next - current),
                        false,
                    )
                } else {
                    raised.rebuilt(list@.items, viewport_width)
                }
                &&& rebuilt matches Some(outcome) ==> outcome == raised.rebuild_outcome(
                    list@.items.len() as int,
                )
            }),
    {
        self.progress.rendered_limit = next;
        assert(self@ == old(self)@.with_limit(next as int));
        let added: u32 = (next - current) as u32;
        if self.apply_progressive_render_addition(current as u32, added, list) {
            None
        } else {
            Some(self.rebuild(list, viewport_width))
        }
    }

    /// Cancel a fill that is under way.
    pub fn invalidate_progressive_render_fill(&mut self)
        ensures
            final(self)@ == (GridView {
                progress: RenderProgress {
                    generation: old(self)@.progress.generation.wrapping_add(1),
                    ..old(self)@.progress
                },
                ..old(self)@
            }),
            final(self).wf() == old(self).wf(),
            final(self)@.progress.generation != old(self)@.progress.generation,
    {
        self.progress.generation = self.progress.generation.wrapping_add(1);
    }
}

/// Every step of a fill with a batch size brings the first page closer to its
/// end, so that the fill comes to an end.
pub proof fn fill_steps_make_progress(grid: GridView, items: Seq<MediaItem>)
    requires
        grid.config.startup_render_batch > 0,
        grid.progress.rendered_limit < grid.fill_goal(items.len() as int),
    ensures
        grid.progress.rendered_limit < grid.fill_limit(items.len() as int) <= grid.fill_goal(
            items.len() as int,
        ),
{
}

// ---------------------------------------------------------------------------
// Pages of a large library

/// A page to be read from the library.
#[derive(Clone, Copy, Debug, PartialEq, Eq, Structural)]
pub struct PageQuery {
    pub start: u32,
    /// Where the user looks; thumbnails are prepared from there on.
    pub prewarm_offset: u32,
    pub page_size: u32,
    pub generation: u64,
}

/// What scrolling asks of the library.
#[derive(Clone, Copy, Debug, PartialEq, Eq, Structural)]
pub enum PageRequest {
    /// The window is fine.
    NotNeeded,
    /// A page is being read already; this one is next.
    Coalesced,
    /// Read this page.
    Read(PageQuery),
}

/// What scrolling calls for.
#[derive(Clone, Copy, Debug, PartialEq, Eq, Structural)]
pub struct ScrollAnswer {
    pub page: PageRequest,
    /// `Some` when more tiles are rendered, with whether a rebuild has to be set
    /// up for them.
    pub expanded: Option<bool>,
}

/// What came of a page that was read.
#[derive(Clone, Copy, Debug, PartialEq, Eq, Structural)]
pub enum PageArrival {
    /// Another page is wanted by now; read it.
    Superseded(PageQuery),
    /// The page is not wanted any more.
    Stale,
    /// There was nothing to read; the grid has to be settled.
    Empty,
    /// The page is in the list; the grid has to be settled.
    Placed,
}

impl GridView {
    /// May a scroll position ask for another page?
    pub open spec fn considers_page(self, len: int) -> bool {
        !self.paging.restoring_scroll && self.paging.total > len && len > 0
    }

    /// The page that a scroll position asks for.
    pub open spec fn wanted_page(self, len: int, scaled: u32) -> Option<int> {
        if self.considers_page(len) {
            match page_start(
                offset_for(
                    scaled as int,
                    self.paging.total as int,
                    self.config.virtual_media_page_size as int,
                ),
                self.paging.window_start as int,
                len,
                self.paging.total as int,
                self.config.virtual_media_page_size as int,
            ) {
                Some(start) => if start == self.paging.window_start {
                    None
                } else {
                    Some(start)
                },
                None => None,
            }
        } else {
            None
        }
    }

    /// What a scroll position asks of the library.
    pub open spec fn page_request(self, len: int, scaled: u32) -> PageRequest {
        match self.wanted_page(len, scaled) {
            None => PageRequest::NotNeeded,
            Some(start) => if self.paging.query_in_flight {
                PageRequest::Coalesced
            } else {
                PageRequest::Read(
                    PageQuery {
                        start: start as u32,
                        prewarm_offset: offset_for(
                            scaled as int,
                            self.paging.total as int,
                            self.config.virtual_media_page_size as int,
                        ) as u32,
                        page_size: self.config.virtual_media_page_size,
                        generation: self.paging.generation.saturating_add(1),
                    },
                )
            },
        }
    }

    /// The grid after a scroll position was looked at.
    pub open spec fn after_page_request(self, len: int, scaled: u32, ratio: u64) -> GridView {
        match self.wanted_page(len, scaled) {
            None => self,
            Some(start) => GridView {
                paging: PagingState {
                    generation: self.paging.generation.saturating_add(1),
                    window_start: start as u32,
                    page_loading: true,
                    query_in_flight: true,
                    pending: if self.paging.query_in_flight {
                        PendingVirtualPage { start: Some(start as u32), ratio: Some(ratio) }
                    } else {
                        self.paging.pending
                    },
                    ..self.paging
                },
                ..self
            },
        }
    }

    /// The page to read in place of one that is out of date.
    pub open spec fn pending_query(self, pending_scaled: u32) -> Option<PageQuery> {
        match self.paging.pending.start {
            Some(start) => Some(
                PageQuery {
                    start,
                    prewarm_offset: if self.paging.pending.ratio is Some {
                        offset_for(
                            pending_scaled as int,
                            self.paging.total as int,
                            self.config.virtual_media_page_size as int,
                        ) as u32
                    } else {
                        start
                    },
                    page_size: self.config.virtual_media_page_size,
                    generation: self.paging.generation,
                },
            ),
            None => None,
        }
    }

    /// What comes of a page that was read.
    pub open spec fn page_arrival(
        self,
        query: PageQuery,
        empty: bool,
        pending_scaled: u32,
    ) -> PageArrival {
        if self.paging.generation != query.generation {
            match self.pending_query(pending_scaled) {
                Some(next) => PageArrival::Superseded(next),
                None => PageArrival::Stale,
            }
        } else if empty {
            PageArrival::Empty
        } else {
            PageArrival::Placed
        }
    }

    /// The grid after a page was read.
    pub open spec fn after_page_arrival(
        self,
        query: PageQuery,
        empty: bool,
        pending_scaled: u32,
    ) -> GridView {
        let paging = self.paging;
        GridView {
            paging: match self.page_arrival(query, empty, pending_scaled) {
                PageArrival::Superseded(_) => PagingState {
                    pending: PendingVirtualPage { start: None, ratio: None },
                    pending_scroll_ratio: if paging.pending.ratio is Some {
                        paging.pending.ratio
                    } else {
                        paging.pending_scroll_ratio
                    },
                    query_in_flight: true,
                    ..paging
                },
                PageArrival::Stale => PagingState { query_in_flight: false, ..paging },
                PageArrival::Empty => PagingState { page_loading: false, ..paging },
                PageArrival::Placed => PagingState {
                    page_loading: false,
                    window_start: query.start,
                    applying_page: true,
                    ..paging
                },
            },
            ..self
        }
    }

    /// The grid after a page has been settled.
    pub open spec fn after_settling(self, items: Seq<MediaItem>, viewport_width: u32) -> GridView {
        let ready = GridView {
            paging: PagingState { applying_page: false, ..self.paging },
            ..self
        };
        let rebuilt = ready.rebuilt_now(items, viewport_width);
        GridView { paging: PagingState { query_in_flight: false, ..rebuilt.paging }, ..rebuilt }
    }
}

impl GridView {
    /// The grid with the render limit one step up, and a rebuild waiting.
    pub open spec fn expanded(self) -> GridView {
        (GridView {
            progress: RenderProgress { rendered_limit: self.expanded_limit(), ..self.progress },
            ..self
        }).scheduled()
    }

    /// The grid after the view was scrolled.
    pub open spec fn after_scroll(
        self,
        len: int,
        scaled: u32,
        ratio: u64,
        near_bottom: bool,
    ) -> GridView {
        if self.paging.restoring_scroll {
            self
        } else {
            let paged = self.after_page_request(len, scaled, ratio);
            if paged.can_expand(near_bottom) {
                paged.expanded()
            } else {
                paged
            }
        }
    }
}

impl MediaGrid {
    /// Look at a scroll position: read another page where the window needs one.
    /// `ratio` is the scroll ratio as a bit pattern, `scaled` the ratio applied
    /// to the total of the grid, rounded down.
    pub fn try_load_virtual_page(&mut self, list: &MediaList, scaled: u32, ratio: u64) -> (request:
        PageRequest)
        requires
            list.wf(),
            old(self)@.considers_page(list@.items.len() as int) ==> band_high(
                old(self)@.paging.window_start as int,
                list@.items.len() as int,
            ) <= u32::MAX,
        ensures
            request == old(self)@.page_request(list@.items.len() as int, scaled),
            final(self)@ == old(self)@.after_page_request(
                list@.items.len() as int,
                scaled,
                ratio,
            ),
            final(self).wf() == old(self).wf(),
    {
        let total: u32 = self.paging.total;
        let current_len: u32 = list.n_items();
        if !should_consider_virtual_page_load(self.paging.restoring_scroll, total, current_len) {
            return PageRequest::NotNeeded;
        }
        let page_size: u32 = self.config.virtual_media_page_size;
        let desired: u32 = virtual_offset_for_ratio(scaled, total, page_size);
        let current_start: u32 = self.paging.window_start;
        match virtual_page_start_for_offset(desired, current_start, current_len, total, page_size) {
            Some(start) => {
                if start == current_start {
                    return PageRequest::NotNeeded;
                }
                let generation: u64 = self.paging.generation.saturating_add(1);
                self.paging.generation = generation;
                self.paging.window_start = start;
                self.paging.page_loading = true;
                if self.paging.query_in_flight {
                    replace_pending_virtual_page(&mut self.paging.pending, start, ratio);
                    return PageRequest::Coalesced;
                }
                self.paging.query_in_flight = true;
                PageRequest::Read(
                    PageQuery { start, prewarm_offset: desired, page_size, generation },
                )
            },
            None => PageRequest::NotNeeded,
        }
    }

    /// The view was scrolled: see whether another page or more tiles are needed.
    /// While a scroll position is being restored, neither is.
    pub fn scroll_changed(
        &mut self,
        list: &MediaList,
        scaled: u32,
        ratio: u64,
        near_bottom: bool,
    ) -> (answer: ScrollAnswer)
        requires
            list.wf(),
            old(self)@.considers_page(list@.items.len() as int) ==> band_high(
                old(self)@.paging.window_start as int,
                list@.items.len() as int,
            ) <= u32::MAX,
        ensures
            answer == if old(self)@.paging.restoring_scroll {
                ScrollAnswer { page: PageRequest::NotNeeded, expanded: None }
            } else {
                ScrollAnswer {
                    page: old(self)@.page_request(list@.items.len() as int, scaled),
                    expanded: if old(self)@.can_expand(near_bottom) {
                        Some(!old(self)@.progress.rebuild_scheduled)
                    } else {
                        None
                    },
                }
            },
            final(self)@ == old(self)@.after_scroll(
                list@.items.len() as int,
                scaled,
                ratio,
                near_bottom,
            ),
            final(self).wf() == old(self).wf(),
    {
        if self.paging.restoring_scroll {
            return ScrollAnswer { page: PageRequest::NotNeeded, expanded: None };
        }
        let page: PageRequest = self.try_load_virtual_page(list, scaled, ratio);
        let expanded: Option<bool> = self.try_expand_render_limit(near_bottom);
        ScrollAnswer { page, expanded }
    }

    /// The page asked for while another was being read, if any. It is next.
    fn start_pending_virtual_page_query(&mut self, pending_scaled: u32) -> (query: Option<PageQuery>)
        ensures
            query == old(self)@.pending_query(pending_scaled),
            final(self)@ == (GridView {
                paging: if query is Some {
                    PagingState {
                        pending: PendingVirtualPage { start: None, ratio: None },
                        pending_scroll_ratio: if old(self)@.paging.pending.ratio is Some {
                            old(self)@.paging.pending.ratio
                        } else {
                            old(self)@.paging.pending_scroll_ratio
                        },
                        query_in_flight: true,
                        ..old(self)@.paging
                    }
                } else {
                    old(self)@.paging
                },
                ..old(self)@
            }),
            final(self).wf() == old(self).wf(),
    {
        match self.paging.pending.start {
            Some(start) => {
                let page_size: u32 = self.config.virtual_media_page_size;
                let mut prewarm_offset: u32 = start;
                if self.paging.pending.ratio.is_some() {
                    self.paging.pending_scroll_ratio = self.paging.pending.ratio;
                    prewarm_offset = virtual_offset_for_ratio(
                        pending_scaled,
                        self.paging.total,
                        page_size,
                    );
                }
                self.paging.pending = PendingVirtualPage { start: None, ratio: None };
                self.paging.query_in_flight = true;
                Some(
                    PageQuery {
                        start,
                        prewarm_offset,
                        page_size,
                        generation: self.paging.generation,
                    },
                )
            },
            None => None,
        }
    }

    /// Take in a page that was read; no photos stand for a page that could not
    /// be read. A page that is still wanted replaces the list. The grid ignores
    /// the change of the list that this makes, until it is settled.
    /// `pending_scaled` is the waiting scroll ratio applied to the total of the
    /// grid, rounded down.
    pub fn accept_virtual_page(
        &mut self,
        list: &mut MediaList,
        query: PageQuery,
        items: Vec<MediaItem>,
        pending_scaled: u32,
    ) -> (arrival: PageArrival)
        requires
            old(list).wf(),
            items@.len() <= u32::MAX,
        ensures
            arrival == old(self)@.page_arrival(query, items@.len() == 0, pending_scaled),
            final(self)@ == old(self)@.after_page_arrival(
                query,
                items@.len() == 0,
                pending_scaled,
            ),
            final(self).wf() == old(self).wf(),
            final(list).wf(),
            final(list)@ == if arrival == PageArrival::Placed {
                old(list)@.splice(0, old(list)@.items.len() as int, items@)
            } else {
                old(list)@
            },
            arrival == PageArrival::Placed ==> final(list)@.items == items@,
    {
        if self.paging.generation != query.generation {
            return match self.start_pending_virtual_page_query(pending_scaled) {
                Some(next) => PageArrival::Superseded(next),
                None => {
                    self.paging.query_in_flight = false;
                    PageArrival::Stale
                },
            };
        }
        self.paging.page_loading = false;
        if items.is_empty() {
            return PageArrival::Empty;
        }
        self.paging.window_start = query.start;
        self.paging.applying_page = true;
        let len: u32 = list.n_items();
        list.splice(0, len, items);
        assert(list@.items =~= items@);
        PageArrival::Placed
    }

    /// Show a page that was taken in, or what there was before an empty one.
    pub fn settle_virtual_page(&mut self, list: &MediaList, viewport_width: u32) -> (done:
        ImmediateRebuild)
        requires
            old(self).sound(),
            list.wf(),
        ensures
            final(self).wf(),
            final(self)@ == old(self)@.after_settling(list@.items, viewport_width),
            done.rebuild == old(self)@.rebuild_outcome(list@.items.len() as int),
            done.canceled_pending == old(self)@.progress.rebuild_scheduled,
            done.selection_changed == (old(self)@.selected != Set::<i64>::empty()),
    {
        self.paging.applying_page = false;
        let done: ImmediateRebuild = self.rebuild_immediately(list, viewport_width);
        self.paging.query_in_flight = false;
        done
    }
}

/// A page that another one has superseded never reaches the list.
pub proof fn superseded_pages_never_arrive(
    grid: GridView,
    query: PageQuery,
    len: int,
    scaled: u32,
    ratio: u64,
    empty: bool,
    pending_scaled: u32,
)
    requires
        query.generation == grid.paging.generation,
        grid.paging.generation < u64::MAX,
        grid.paging.query_in_flight,
        grid.wanted_page(len, scaled) is Some,
    ensures
        ({
            let later = grid.after_page_request(len, scaled, ratio);
            let arrival = later.page_arrival(query, empty, pending_scaled);
            &&& arrival is Superseded
            &&& arrival->Superseded_0.start == grid.wanted_page(len, scaled)->0 as u32
            &&& arrival->Superseded_0.generation == later.paging.generation
        }),
{
}

/// While a page is taken in, an active grid ignores every change of the list.
pub proof fn a_page_being_applied_is_ignored(
    grid: GridView,
    query: PageQuery,
    pending_scaled: u32,
    items: Seq<MediaItem>,
    position: u32,
    removed: u32,
    added: u32,
)
    requires
        grid.flags.active,
        grid.page_arrival(query, false, pending_scaled) == PageArrival::Placed,
    ensures
        grid.after_page_arrival(query, false, pending_scaled).answer(
            items,
            position,
            removed,
            added,
        ) == ChangeAnswer::Ignore,
{
}

// ---------------------------------------------------------------------------
// Library-wide numbers

/// What came of a load of the library-wide numbers.
#[derive(Clone, Copy, Debug, PartialEq, Eq, Structural)]
pub enum MetadataArrival {
    /// The library changed meanwhile; `true` when the load has to be repeated.
    OutOfDate(bool),
    /// The load failed.
    Failed,
    /// The numbers are known now; the grid is not on screen.
    Filled,
    /// The numbers are known now, and the grid shows them.
    Shown(RebuildOutcome),
}

impl GridView {
    pub open spec fn with_metadata(self, metadata: MetadataView) -> GridView {
        GridView { metadata, ..self }
    }

    /// The grid as a load of the library-wide numbers ends, before anything is
    /// made of it.
    pub open spec fn load_ended(self) -> GridView {
        self.with_metadata(
            MetadataView { loading: false, dirty_pending: false, ..self.metadata },
        )
    }

    /// The grid with the numbers of a load filled in.
    pub open spec fn load_filled(self, snapshot: GridMetadataSnapshot) -> GridView {
        let ended = self.load_ended();
        ended.with_metadata(
            ended.metadata.filled(
                snapshot.mode,
                snapshot.live_total,
                snapshot.library_stats,
                match snapshot.section_counts {
                    Some(counts) => Some(counts@),
                    None => None,
                },
            ),
        )
    }
}

impl GridView {
    /// What comes of a load of the library-wide numbers; `None` stands for a
    /// failed one.
    pub open spec fn load_arrival(
        self,
        result: Option<GridMetadataSnapshot>,
        len: int,
    ) -> MetadataArrival {
        if self.metadata.dirty_pending {
            MetadataArrival::OutOfDate(self.load_ended().metadata_due())
        } else if result is None {
            MetadataArrival::Failed
        } else if !self.flags.active {
            MetadataArrival::Filled
        } else {
            MetadataArrival::Shown(self.load_filled(result->0).rebuild_outcome(len))
        }
    }

    /// The grid after a load of the library-wide numbers.
    pub open spec fn after_load(
        self,
        result: Option<GridMetadataSnapshot>,
        items: Seq<MediaItem>,
        viewport_width: u32,
    ) -> GridView {
        match self.load_arrival(result, items.len() as int) {
            MetadataArrival::OutOfDate(due) => self.with_metadata(
                MetadataView { loading: due, dirty_pending: false, ..self.metadata },
            ),
            MetadataArrival::Failed => self.load_ended(),
            MetadataArrival::Filled => self.load_filled(result->0),
            MetadataArrival::Shown(_) => self.load_filled(result->0).rebuilt(
                items,
                viewport_width,
            ),
        }
    }
}

impl MediaGrid {
    /// Take in the result of a load of the library-wide numbers; `None` stands
    /// for a failed load. A result that is out of date is dropped.
    pub fn finish_metadata_load(
        &mut self,
        result: Option<GridMetadataSnapshot>,
        list: &MediaList,
        viewport_width: u32,
    ) -> (arrival: MetadataArrival)
        requires
            old(self).wf(),
            list.wf(),
            result matches Some(snapshot) ==> (snapshot.section_counts matches Some(counts)
                ==> counts.wf()),
        ensures
            final(self).wf(),
            arrival == if old(self)@.metadata.dirty_pending {
                MetadataArrival::OutOfDate(old(self)@.load_ended().metadata_due())
            } else if result is None {
                MetadataArrival::Failed
            } else if !old(self)@.flags.active {
                MetadataArrival::Filled
            } else {
                MetadataArrival::Shown(
                    old(self)@.load_filled(result->0).rebuild_outcome(list@.items.len() as int),
                )
            },
            final(self)@ == match arrival {
                MetadataArrival::OutOfDate(due) => old(self)@.with_metadata(
                    MetadataView {
                        loading: due,
                        dirty_pending: false,
                        ..old(self)@.metadata
                    },
                ),
                MetadataArrival::Failed => old(self)@.load_ended(),
                MetadataArrival::Filled => old(self)@.load_filled(result->0),
                MetadataArrival::Shown(_) => old(self)@.load_filled(result->0).rebuilt(
                    list@.items,
                    viewport_width,
                ),
            },
            arrival == old(self)@.load_arrival(result, list@.items.len() as int),
            final(self)@ == old(self)@.after_load(result, list@.items, viewport_width),
    {
        let out_of_date: bool = self.metadata.dirty_pending;
        self.metadata.set_loading(false, false);
        assert(self@ == old(self)@.load_ended());
        if out_of_date {
            return MetadataArrival::OutOfDate(self.ensure_library_metadata());
        }
        match result {
            Some(snapshot) => {
                self.metadata.fill(snapshot);
                assert(self@ == old(self)@.load_filled(snapshot));
                if self.flags.active {
                    MetadataArrival::Shown(self.rebuild(list, viewport_width))
                } else {
                    MetadataArrival::Filled
                }
            },
            None => MetadataArrival::Failed,
        }
    }
}

// ---------------------------------------------------------------------------
// Progress line

/// What the timer of the progress line has to do.
#[derive(Clone, Copy, Debug, PartialEq, Eq, Structural)]
pub enum StatsTick {
    /// There is no line any more; the timer ends.
    Stop,
    /// The last refresh is still under way.
    Wait,
    /// Read the numbers.
    Refresh,
}

impl GridView {
    /// What the timer of the progress line has to do.
    pub open spec fn stats_tick(self) -> StatsTick {
        if self.stats.shown is None {
            StatsTick::Stop
        } else if self.stats.refresh_running {
            StatsTick::Wait
        } else {
            StatsTick::Refresh
        }
    }

    /// The grid after that timer went off.
    pub open spec fn after_stats_tick(self) -> GridView {
        GridView {
            stats: StatsLine {
                timer: self.stats.timer && self.stats_tick() != StatsTick::Stop,
                refresh_running: self.stats.refresh_running || self.stats_tick()
                    == StatsTick::Refresh,
                ..self.stats
            },
            ..self
        }
    }

    /// The grid after the numbers of the progress line were read.
    pub open spec fn after_stats_refresh(self, result: Option<LibraryStats>) -> GridView {
        match result {
            None => GridView {
                stats: StatsLine { refresh_running: false, ..self.stats },
                ..self
            },
            Some(stats) => {
                let goes_on = self.stats.shown is Some && stats.thumbnails_generated
                    < stats.live_total;
                GridView {
                    metadata: MetadataView { stats: Some(stats), ..self.metadata },
                    stats: StatsLine {
                        shown: if goes_on { Some(stats) } else { None },
                        timer: self.stats.timer && goes_on,
                        refresh_running: false,
                    },
                    ..self
                }
            },
        }
    }
}

impl MediaGrid {
    /// The timer of the progress line went off.
    pub fn stats_refresh_tick(&mut self) -> (tick: StatsTick)
        ensures
            tick == if old(self)@.stats.shown is None {
                StatsTick::Stop
            } else if old(self)@.stats.refresh_running {
                StatsTick::Wait
            } else {
                StatsTick::Refresh
            },
            final(self)@ == (GridView {
                stats: StatsLine {
                    timer: old(self)@.stats.timer && tick != StatsTick::Stop,
                    refresh_running: old(self)@.stats.refresh_running || tick
                        == StatsTick::Refresh,
                    ..old(self)@.stats
                },
                ..old(self)@
            }),
            tick == old(self)@.stats_tick(),
            final(self)@ == old(self)@.after_stats_tick(),
            final(self).wf() == old(self).wf(),
    {
        if self.stats.shown.is_none() {
            self.stats.timer = false;
            return StatsTick::Stop;
        }
        if self.stats.refresh_running {
            return StatsTick::Wait;
        }
        self.stats.refresh_running = true;
        StatsTick::Refresh
    }

    /// The numbers of the progress line were read; `None` when that failed. A
    /// line that has nothing left to report disappears.
    pub fn finish_stats_refresh(&mut self, result: Option<LibraryStats>)
        requires
            old(self).wf(),
        ensures
            final(self).wf(),
            final(self)@ == match result {
                None => GridView {
                    stats: StatsLine { refresh_running: false, ..old(self)@.stats },
                    ..old(self)@
                },
                Some(stats) => {
                    let goes_on = old(self)@.stats.shown is Some && stats.thumbnails_generated
                        < stats.live_total;
                    GridView {
                        metadata: MetadataView { stats: Some(stats), ..old(self)@.metadata },
                        stats: StatsLine {
                            shown: if goes_on { Some(stats) } else { None },
                            timer: old(self)@.stats.timer && goes_on,
                            refresh_running: false,
                        },
                        ..old(self)@
                    }
                },
            },
            final(self)@ == old(self)@.after_stats_refresh(result),
    {
        self.stats.refresh_running = false;
        match result {
            Some(stats) => {
                self.metadata.set_stats(stats);
                if self.stats.shown.is_none() {
                    self.stats.timer = false;
                } else if stats.thumbnails_generated >= stats.live_total {
                    self.stats.shown = None;
                    self.stats.timer = false;
                } else {
                    self.stats.shown = Some(stats);
                }
            },
            None => {},
        }
    }
}

/// While the grid scrolls back by itself, no scrolling changes it, and after that
/// it is what it was before.
pub proof fn scrolling_back_loads_nothing(
    grid: GridView,
    len: int,
    scaled: u32,
    ratio: u64,
    near_bottom: bool,
)
    requires
        !grid.paging.restoring_scroll,
    ensures
        grid.scrolling_itself(true).after_scroll(len, scaled, ratio, near_bottom)
            == grid.scrolling_itself(true),
        grid.scrolling_itself(true).scrolling_itself(false) == grid,
{
}

} // verus!
