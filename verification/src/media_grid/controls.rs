//! Making a grid, and the settings and commands of the pages that hold one.

#[allow(unused_imports)]
use super::board::{board_with_extra, BoardView};
use super::board::{Board, DisplayedItem};
#[allow(unused_imports)]
use super::board_laws::the_extra_child_keeps_the_board_in_order;
use super::loading::ImmediateRebuild;
use super::metadata::LibraryMetadata;
#[allow(unused_imports)]
use super::metadata::MetadataView;
use super::rebuild::RebuildOutcome;
#[allow(unused_imports)]
use super::selection::{increasing, toggled};
use super::selection::Selection;
#[allow(unused_imports)]
use super::state::{headers_fit, GridView};
use super::state::{
    GridConfig, GridFlags, Layout, MediaGrid, PagingState, RenderProgress, StatsLine,
};
use super::virtual_paging::PendingVirtualPage;
use crate::media::{GroupBy, MediaItem};
use crate::media_list::MediaList;
use vstd::prelude::*;

verus! {

/// A grid that has not shown anything yet.
pub open spec fn blank_grid(
    config: GridConfig,
    mode: GroupBy,
    enable_context_menu: bool,
    active: bool,
    progressive_first_render: bool,
    full_library_context: bool,
) -> GridView {
    GridView {
        config,
        flags: GridFlags {
            mode,
            enable_context_menu,
            full_library_context,
            flat_sections: false,
            active,
            dirty_model: false,
        },
        paging: PagingState {
            window_start: 0,
            total: 0,
            page_loading: false,
            query_in_flight: false,
            pending: PendingVirtualPage { start: None, ratio: None },
            generation: 0,
            pending_scroll_ratio: None,
            restoring_scroll: false,
            applying_page: false,
        },
        progress: RenderProgress {
            rendered_limit: config.steady_limit(),
            progressive_pending: progressive_first_render,
            generation: 0,
            rebuild_scheduled: false,
        },
        metadata: MetadataView {
            loading: false,
            dirty_pending: false,
            total: None,
            stats: None,
            counts: Map::empty(),
        },
        stats: StatsLine { shown: None, timer: false, refresh_running: false },
        layout: Layout {
            top_spacer: 0,
            placeholders: 0,
            extra_placeholder: false,
            bottom_spacer: 0,
        },
        selected: Set::empty(),
        multi_select: false,
        board: BoardView {
            sections: Seq::empty(),
            displayed: Seq::empty(),
            extra: None,
            next_child: 0,
        },
    }
}

/// A new grid for the list `items`: one on screen is built at once, one that is
/// not waits until it is.
pub open spec fn new_grid(
    blank: GridView,
    items: Seq<MediaItem>,
    viewport_width: u32,
) -> GridView {
    if blank.flags.active {
        blank.rebuilt(items, viewport_width)
    } else {
        GridView { flags: GridFlags { dirty_model: true, ..blank.flags }, ..blank }
    }
}

impl MediaGrid {
    fn blank(
        config: GridConfig,
        mode: GroupBy,
        enable_context_menu: bool,
        active: bool,
        progressive_first_render: bool,
        full_library_context: bool,
    ) -> (grid: MediaGrid)
        ensures
            grid.wf(),
            grid@ == blank_grid(
                config,
                mode,
                enable_context_menu,
                active,
                progressive_first_render,
                full_library_context,
            ),
    {
        MediaGrid {
            config,
            flags: GridFlags {
                mode,
                enable_context_menu,
                full_library_context,
                flat_sections: false,
                active,
                dirty_model: false,
            },
            paging: PagingState {
                window_start: 0,
                total: 0,
                page_loading: false,
                query_in_flight: false,
                pending: PendingVirtualPage { start: None, ratio: None },
                generation: 0,
                pending_scroll_ratio: None,
                restoring_scroll: false,
                applying_page: false,
            },
            progress: RenderProgress {
                rendered_limit: config.rendered_ceiling(),
                progressive_pending: progressive_first_render,
                generation: 0,
                rebuild_scheduled: false,
            },
            metadata: LibraryMetadata::new(),
            stats: StatsLine { shown: None, timer: false, refresh_running: false },
            layout: Layout {
                top_spacer: 0,
                placeholders: 0,
                extra_placeholder: false,
                bottom_spacer: 0,
            },
            selection: Selection::new(),
            board: Board::new(),
        }
    }

    fn new_with_options(
        config: GridConfig,
        list: &MediaList,
        mode: GroupBy,
        viewport_width: u32,
        enable_context_menu: bool,
        initial_active: bool,
        progressive_first_render: bool,
        full_library_context: bool,
    ) -> (made: (MediaGrid, Option<RebuildOutcome>))
        requires
            list.wf(),
        ensures
            made.0.wf(),
            ({
                let blank = blank_grid(
                    config,
                    mode,
                    enable_context_menu,
                    initial_active,
                    progressive_first_render,
                    full_library_context,
                );
                &&& made.0@ == new_grid(blank, list@.items, viewport_width)
                &&& made.1 == if initial_active {
                    Some(blank.rebuild_outcome(list@.items.len() as int))
                } else {
                    None
                }
            }),
    {
        let mut grid: MediaGrid = MediaGrid::blank(
            config,
            mode,
            enable_context_menu,
            initial_active,
            progressive_first_render,
            full_library_context,
        );
        if initial_active {
            let outcome: RebuildOutcome = grid.rebuild(list, viewport_width);
            (grid, Some(outcome))
        } else {
            grid.flags.dirty_model = true;
            (grid, None)
        }
    }

    /// A grid of the whole library that is on screen.
    pub fn new(
        config: GridConfig,
        list: &MediaList,
        mode: GroupBy,
        viewport_width: u32,
        enable_context_menu: bool,
    ) -> (made: (MediaGrid, Option<RebuildOutcome>))
        requires
            list.wf(),
        ensures
            made.0.wf(),
            ({
                let blank = blank_grid(config, mode, enable_context_menu, true, true, true);
                &&& made.0@ == new_grid(blank, list@.items, viewport_width)
                &&& made.1 == Some(blank.rebuild_outcome(list@.items.len() as int))
            }),
    {
        Self::new_with_initial_active(
            config,
            list,
            mode,
            viewport_width,
            enable_context_menu,
            true,
        )
    }

    /// A grid of the whole library, on screen or not.
    pub fn new_with_initial_active(
        config: GridConfig,
        list: &MediaList,
        mode: GroupBy,
        viewport_width: u32,
        enable_context_menu: bool,
        initial_active: bool,
    ) -> (made: (MediaGrid, Option<RebuildOutcome>))
        requires
            list.wf(),
        ensures
            made.0.wf(),
            ({
                let blank = blank_grid(
                    config,
                    mode,
                    enable_context_menu,
                    initial_active,
                    true,
                    true,
                );
                &&& made.0@ == new_grid(blank, list@.items, viewport_width)
                &&& made.1 == if initial_active {
                    Some(blank.rebuild_outcome(list@.items.len() as int))
                } else {
                    None
                }
            }),
    {
        Self::new_with_options(
            config,
            list,
            mode,
            viewport_width,
            enable_context_menu,
            initial_active,
            true,
            true,
        )
    }

    /// A grid of an album, without context menu.
    pub fn new_for_album(
        config: GridConfig,
        list: &MediaList,
        mode: GroupBy,
        viewport_width: u32,
    ) -> (made: (MediaGrid, Option<RebuildOutcome>))
        requires
            list.wf(),
        ensures
            made.0.wf(),
            ({
                let blank = blank_grid(config, mode, false, true, true, false);
                &&& made.0@ == new_grid(blank, list@.items, viewport_width)
                &&& made.1 == Some(blank.rebuild_outcome(list@.items.len() as int))
            }),
    {
        Self::new_with_options(config, list, mode, viewport_width, false, true, true, false)
    }

    /// A grid of an album, with context menu.
    pub fn new_for_album_with_context_menu(
        config: GridConfig,
        list: &MediaList,
        mode: GroupBy,
        viewport_width: u32,
    ) -> (made: (MediaGrid, Option<RebuildOutcome>))
        requires
            list.wf(),
        ensures
            made.0.wf(),
            ({
                let blank = blank_grid(config, mode, true, true, true, false);
                &&& made.0@ == new_grid(blank, list@.items, viewport_width)
                &&& made.1 == Some(blank.rebuild_outcome(list@.items.len() as int))
            }),
    {
        Self::new_with_options(config, list, mode, viewport_width, true, true, true, false)
    }
}

// ---------------------------------------------------------------------------
// Settings

/// What switching a grid on or off did.
#[derive(Clone, Copy, Debug, PartialEq, Eq, Structural)]
pub enum Activation {
    /// It came on screen out of date, and was rebuilt.
    Rebuilt(ImmediateRebuild),
    /// It came on or went off screen as it is.
    Changed,
    /// It was so already.
    Unchanged,
}

impl GridView {
    /// The grid with a running fill cancelled.
    pub open spec fn fill_cancelled(self) -> GridView {
        GridView {
            progress: RenderProgress {
                generation: self.progress.generation.wrapping_add(1),
                ..self.progress
            },
            ..self
        }
    }

    /// The grid switched on or off, before a rebuild that may be due. Only a
    /// real switch cancels a running fill.
    pub open spec fn switched(self, active: bool) -> GridView {
        let switched = GridView { flags: GridFlags { active, ..self.flags }, ..self };
        if self.flags.active != active {
            switched.fill_cancelled()
        } else {
            switched
        }
    }

    /// The grid with nothing on its way from the library.
    pub open spec fn without_pages(self) -> GridView {
        GridView {
            paging: PagingState {
                page_loading: false,
                query_in_flight: false,
                pending: PendingVirtualPage { start: None, ratio: None },
                generation: self.paging.generation.saturating_add(1),
                ..self.paging
            },
            ..self
        }
    }
}

impl GridView {
    /// The grid with another view.
    pub open spec fn with_mode(
        self,
        mode: GroupBy,
        items: Seq<MediaItem>,
        viewport_width: u32,
    ) -> GridView {
        let cancelled = self.fill_cancelled();
        (GridView { flags: GridFlags { mode, ..cancelled.flags }, ..cancelled }).rebuilt(
            items,
            viewport_width,
        )
    }

    /// The grid after it came on or went off screen.
    pub open spec fn on_screen(
        self,
        active: bool,
        items: Seq<MediaItem>,
        viewport_width: u32,
    ) -> GridView {
        let switched = self.switched(active);
        if active && self.flags.dirty_model {
            (GridView {
                flags: GridFlags { dirty_model: false, ..switched.flags },
                ..switched
            }).rebuilt_now(items, viewport_width)
        } else {
            switched
        }
    }

    /// The grid of the whole library, or of a part of it.
    pub open spec fn in_context(
        self,
        full_library: bool,
        items: Seq<MediaItem>,
        viewport_width: u32,
    ) -> GridView {
        if self.flags.full_library_context == full_library {
            self
        } else {
            (GridView {
                flags: GridFlags { full_library_context: full_library, ..self.flags },
                ..self
            }).with_stale_metadata().without_pages().rebuilt_now(items, viewport_width)
        }
    }

    /// The grid with one section, or with sections by date.
    pub open spec fn flattened(
        self,
        flat: bool,
        items: Seq<MediaItem>,
        viewport_width: u32,
    ) -> GridView {
        if self.flags.flat_sections == flat {
            self
        } else {
            (GridView {
                flags: GridFlags { flat_sections: flat, ..self.flags },
                ..self
            }).rebuilt_now(items, viewport_width)
        }
    }
}

impl MediaGrid {
    /// Show another view.
    pub fn set_mode(&mut self, list: &MediaList, mode: GroupBy, viewport_width: u32) -> (outcome:
        RebuildOutcome)
        requires
            old(self).wf(),
            list.wf(),
        ensures
            final(self).wf(),
            ({
                let cancelled = old(self)@.fill_cancelled();
                let turned = GridView {
                    flags: GridFlags { mode, ..cancelled.flags },
                    ..cancelled
                };
                &&& final(self)@ == turned.rebuilt(list@.items, viewport_width)
                &&& outcome == turned.rebuild_outcome(list@.items.len() as int)
            }),
            final(self)@ == old(self)@.with_mode(mode, list@.items, viewport_width),
    {
        self.invalidate_progressive_render_fill();
        self.flags.mode = mode;
        self.rebuild(list, viewport_width)
    }

    /// Note that the grid came on or went off screen. One that comes on screen
    /// out of date is rebuilt.
    pub fn set_active(&mut self, active: bool, list: &MediaList, viewport_width: u32) -> (outcome:
        Activation)
        requires
            old(self).wf(),
            list.wf(),
        ensures
            final(self).wf(),
            ({
                let switched = old(self)@.switched(active);
                let clean = GridView {
                    flags: GridFlags { dirty_model: false, ..switched.flags },
                    ..switched
                };
                &&& (outcome is Rebuilt <==> active && old(self)@.flags.dirty_model)
                &&& (outcome == Activation::Changed <==> !(outcome is Rebuilt) && old(
                    self,
                )@.flags.active != active)
                &&& final(self)@ == if outcome is Rebuilt {
                    clean.rebuilt_now(list@.items, viewport_width)
                } else {
                    switched
                }
                &&& (outcome matches Activation::Rebuilt(done) ==> done.rebuild
                    == clean.rebuild_outcome(list@.items.len() as int) && done.canceled_pending
                    == old(self)@.progress.rebuild_scheduled && done.selection_changed == (old(
                    self,
                )@.selected != Set::<i64>::empty()))
            }),
            final(self)@ == old(self)@.on_screen(active, list@.items, viewport_width),
    {
        let before: bool = self.flags.active;
        self.flags.active = active;
        if before != active {
            self.invalidate_progressive_render_fill();
        }
        if active && self.flags.dirty_model {
            self.flags.dirty_model = false;
            Activation::Rebuilt(self.rebuild_immediately(list, viewport_width))
        } else if before != active {
            Activation::Changed
        } else {
            Activation::Unchanged
        }
    }

    /// Say whether the list is the whole library. Numbers of the library are
    /// only kept for grids of which it is.
    pub fn set_full_library_context(
        &mut self,
        enabled: bool,
        list: &MediaList,
        viewport_width: u32,
    ) -> (done: Option<ImmediateRebuild>)
        requires
            old(self).wf(),
            list.wf(),
        ensures
            final(self).wf(),
            done is Some <==> old(self)@.flags.full_library_context != enabled,
            ({
                let turned = (GridView {
                    flags: GridFlags { full_library_context: enabled, ..old(self)@.flags },
                    ..old(self)@
                }).with_stale_metadata().without_pages();
                &&& final(self)@ == if done is Some {
                    turned.rebuilt_now(list@.items, viewport_width)
                } else {
                    old(self)@
                }
                &&& (done matches Some(rebuilt) ==> rebuilt.rebuild == turned.rebuild_outcome(
                    list@.items.len() as int,
                ))
            }),
            final(self)@ == old(self)@.in_context(enabled, list@.items, viewport_width),
    {
        if self.flags.full_library_context == enabled {
            return None;
        }
        self.flags.full_library_context = enabled;
        self.invalidate_library_metadata();
        self.paging.page_loading = false;
        self.paging.query_in_flight = false;
        self.paging.pending = PendingVirtualPage { start: None, ratio: None };
        self.paging.generation = self.paging.generation.saturating_add(1);
        Some(self.rebuild_immediately(list, viewport_width))
    }

    /// Show one section without headers, or sections by date.
    pub fn set_flat_sections(&mut self, enabled: bool, list: &MediaList, viewport_width: u32) -> (
    done: Option<ImmediateRebuild>)
        requires
            old(self).wf(),
            list.wf(),
        ensures
            final(self).wf(),
            done is Some <==> old(self)@.flags.flat_sections != enabled,
            ({
                let turned = GridView {
                    flags: GridFlags { flat_sections: enabled, ..old(self)@.flags },
                    ..old(self)@
                };
                &&& final(self)@ == if done is Some {
                    turned.rebuilt_now(list@.items, viewport_width)
                } else {
                    old(self)@
                }
                &&& (done matches Some(rebuilt) ==> rebuilt.rebuild == turned.rebuild_outcome(
                    list@.items.len() as int,
                ))
            }),
            final(self)@ == old(self)@.flattened(enabled, list@.items, viewport_width),
    {
        if self.flags.flat_sections == enabled {
            return None;
        }
        self.flags.flat_sections = enabled;
        Some(self.rebuild_immediately(list, viewport_width))
    }

    /// A debounced rebuild is due.
    pub fn run_scheduled_rebuild(&mut self, list: &MediaList, viewport_width: u32) -> (done:
        ImmediateRebuild)
        requires
            old(self).wf(),
            list.wf(),
        ensures
            final(self).wf(),
            final(self)@ == old(self)@.rebuilt_now(list@.items, viewport_width),
            done.rebuild == old(self)@.rebuild_outcome(list@.items.len() as int),
            done.selection_changed == (old(self)@.selected != Set::<i64>::empty()),
    {
        self.rebuild_immediately(list, viewport_width)
    }

    /// Put an extra child, such as a "show more" tile, behind the photos of the
    /// last section. Putting it there again moves it; nothing is left behind.
    /// Without a section there is no place for it.
    pub fn append_extra_child(&mut self)
        requires
            old(self).wf(),
            old(self).board.next_child < u64::MAX,
        ensures
            final(self).wf(),
            final(self)@ == if old(self)@.layout.placeholders > 0 {
                GridView {
                    layout: Layout { extra_placeholder: true, ..old(self)@.layout },
                    ..old(self)@
                }
            } else {
                GridView { board: board_with_extra(old(self)@.board), ..old(self)@ }
            },
    {
        if self.layout.placeholders > 0 {
            self.layout.extra_placeholder = true;
            return;
        }
        proof {
            the_extra_child_keeps_the_board_in_order(self.board@);
        }
        let ghost before = self.board@;
        self.board.append_extra();
        assert(headers_fit(self.board@.sections, self.flags.flat_sections)) by {
            let now = self.board@.sections;
            assert forall|i: int| 0 <= i < now.len() implies ((#[trigger] now[i]).header is None
                <==> self.flags.flat_sections) by {
                assert(before.sections[i].header is None <==> self.flags.flat_sections);
            }
        }
    }
}

// ---------------------------------------------------------------------------
// Photos on screen

/// What activating a tile does.
#[derive(Clone, Copy, Debug, PartialEq, Eq, Structural)]
pub enum TileActivation {
    /// The tile shows no photo.
    Nothing,
    /// The photo opens in the viewer.
    Open(i64),
    /// The photo is selected now, or is not any more.
    Toggled(i64, bool),
}

/// Whether a tile is marked as selected.
#[derive(Clone, Copy, Debug, PartialEq, Eq, Structural)]
pub struct TileMark {
    pub flow_child: u64,
    pub selected: bool,
}

/// The position of the first photo with `id`, or the number of photos.
pub open spec fn id_position(items: Seq<MediaItem>, id: i64) -> int
    decreases items.len(),
{
    if items.len() == 0 || items[0].id == id {
        0
    } else {
        1 + id_position(items.subrange(1, items.len() as int), id)
    }
}

pub proof fn lemma_id_position_is(items: Seq<MediaItem>, id: i64, p: int)
    requires
        0 <= p <= items.len(),
        forall|i: int| 0 <= i < p ==> (#[trigger] items[i]).id != id,
        p < items.len() ==> items[p].id == id,
    ensures
        id_position(items, id) == p,
    decreases items.len(),
{
    if items.len() > 0 && p > 0 {
        assert(items[0].id != id);
        let rest = items.subrange(1, items.len() as int);
        assert forall|i: int| 0 <= i < p - 1 implies (#[trigger] rest[i]).id != id by {
            assert(items[i + 1].id != id);
        }
        lemma_id_position_is(rest, id, p - 1);
    }
}

/// A photo is found by its id at the first place that holds it; an id that no
/// photo has is found nowhere.
pub proof fn ids_are_found_at_their_first_place(items: Seq<MediaItem>, id: i64)
    ensures
        0 <= id_position(items, id) <= items.len(),
        id_position(items, id) < items.len() ==> items[id_position(items, id)].id == id,
        forall|i: int| 0 <= i < id_position(items, id) ==> (#[trigger] items[i]).id != id,
        id_position(items, id) < items.len() <==> exists|i: int|
            0 <= i < items.len() && (#[trigger] items[i]).id == id,
    decreases items.len(),
{
    if items.len() > 0 && items[0].id != id {
        let rest = items.subrange(1, items.len() as int);
        ids_are_found_at_their_first_place(rest, id);
        let p = id_position(rest, id);
        assert forall|i: int| 0 <= i < p + 1 implies (#[trigger] items[i]).id != id by {
            if i > 0 {
                assert(rest[i - 1] == items[i]);
            }
        }
        if p < rest.len() {
            assert(rest[p] == items[p + 1]);
        }
    }
}

/// The first photo of the list with `id`.
pub fn media_item_for_id(list: &MediaList, id: i64) -> (item: Option<MediaItem>)
    requires
        list.wf(),
    ensures
        item is Some <==> id_position(list@.items, id) < list@.items.len(),
        item matches Some(found) ==> found == list@.items[id_position(list@.items, id)],
{
    let n: u32 = list.n_items();
    let mut i: u32 = 0;
    while i < n
        invariant
            n == list@.items.len(),
            i <= n,
            forall|k: int| 0 <= k < i ==> (#[trigger] list@.items[k]).id != id,
        decreases n - i,
    {
        let item: &MediaItem = list.item(i).unwrap();
        if item.id == id {
            proof {
                lemma_id_position_is(list@.items, id, i as int);
            }
            return Some(item.clone());
        }
        i += 1;
    }
    proof {
        lemma_id_position_is(list@.items, id, n as int);
    }
    None
}

impl GridView {
    /// The ids of the displayed photos, in grid order.
    pub open spec fn displayed_ids(self) -> Seq<i64> {
        self.board.displayed.map_values(|item: DisplayedItem| item.media_id)
    }

    pub open spec fn with_selection(self, selected: Set<i64>, multi_select: bool) -> GridView {
        GridView { selected, multi_select, ..self }
    }
}

impl MediaGrid {
    /// The list positions of the displayed photos, in grid order.
    pub fn displayed_indices(&self) -> (indices: Vec<u32>)
        ensures
            indices@ == self@.board.displayed.map_values(
                |item: DisplayedItem| item.window_index,
            ),
    {
        self.board.displayed_indices()
    }

    /// Answer the activation of a tile: in multi-select mode it toggles the
    /// photo, else it opens it.
    pub fn activate_child(&mut self, child: u64) -> (activation: TileActivation)
        requires
            old(self).wf(),
        ensures
            final(self).wf(),
            activation == TileActivation::Nothing <==> forall|k: int|
                0 <= k < old(self)@.board.displayed.len() ==> (
                #[trigger] old(self)@.board.displayed[k]).flow_child != child,
            forall|k: int|
                0 <= k < old(self)@.board.displayed.len() && (
                #[trigger] old(self)@.board.displayed[k]).flow_child == child ==> {
                    let id = old(self)@.board.displayed[k].media_id;
                    activation == if old(self)@.multi_select {
                        TileActivation::Toggled(id, !old(self)@.selected.contains(id))
                    } else {
                        TileActivation::Open(id)
                    }
                },
            final(self)@ == match activation {
                TileActivation::Toggled(id, _) => old(self)@.with_selection(
                    toggled(old(self)@.selected, id),
                    old(self)@.multi_select,
                ),
                _ => old(self)@,
            },
    {
        match self.board.displayed_item_for_child(child) {
            Some(item) => {
                proof {
                    let d = self@.board.displayed;
                    let m = choose|m: int| 0 <= m < d.len() && d[m] == item;
                    assert forall|k: int|
                        0 <= k < d.len() && (#[trigger] d[k]).flow_child == child implies d[k]
                        == item by {
                        if k < m {
                            assert(d[k].flow_child != d[m].flow_child);
                        } else if m < k {
                            assert(d[m].flow_child != d[k].flow_child);
                        }
                    }
                    assert(d[m].flow_child == child);
                }
                let id: i64 = item.media_id;
                if self.selection.is_multi_select_mode() {
                    let now: bool = self.selection.toggle_selection(id);
                    TileActivation::Toggled(id, now)
                } else {
                    TileActivation::Open(id)
                }
            },
            None => TileActivation::Nothing,
        }
    }

    /// Select every displayed photo, in multi-select mode. Returns whether the
    /// selection changed.
    pub fn select_all(&mut self) -> (changed: bool)
        requires
            old(self).wf(),
        ensures
            final(self).wf(),
            final(self)@ == old(self)@.with_selection(old(self)@.displayed_ids().to_set(), true),
            changed == (old(self)@.selected != final(self)@.selected),
    {
        let ids: Vec<i64> = self.board.displayed_ids();
        self.selection.select_all(&ids)
    }

    /// Select exactly `ids`, displayed or not. Returns whether the selection
    /// changed.
    pub fn select_ids(&mut self, ids: &Vec<i64>) -> (changed: bool)
        requires
            old(self).wf(),
        ensures
            final(self).wf(),
            final(self)@ == old(self)@.with_selection(ids@.to_set(), ids@.len() > 0),
            changed == (old(self)@.selected != final(self)@.selected),
    {
        self.selection.select_ids(ids)
    }

    /// Turn multi-select mode on or off; off clears the selection. Returns
    /// whether the selection changed.
    pub fn set_multi_select_mode(&mut self, enabled: bool) -> (changed: bool)
        requires
            old(self).wf(),
        ensures
            final(self).wf(),
            final(self)@ == old(self)@.with_selection(
                if enabled {
                    old(self)@.selected
                } else {
                    Set::empty()
                },
                enabled,
            ),
            changed == (old(self)@.selected != final(self)@.selected),
    {
        self.selection.set_multi_select_mode(enabled)
    }

    /// Whether multi-select mode is on.
    pub fn is_multi_select_mode(&self) -> (enabled: bool)
        ensures
            enabled == self@.multi_select,
    {
        self.selection.is_multi_select_mode()
    }

    /// Select nothing and leave multi-select mode. Returns whether the selection
    /// changed.
    pub fn clear_selection(&mut self) -> (changed: bool)
        requires
            old(self).wf(),
        ensures
            final(self).wf(),
            final(self)@ == old(self)@.deselected(),
            changed == (old(self)@.selected != Set::<i64>::empty()),
    {
        self.selection.clear_selection()
    }

    /// Are all displayed photos selected? Never so when none is displayed.
    pub fn is_all_displayed_selected(&self) -> (all: bool)
        requires
            self.wf(),
        ensures
            all == (self@.displayed_ids().len() > 0 && self@.displayed_ids().to_set().subset_of(
                self@.selected,
            )),
    {
        let ids: Vec<i64> = self.board.displayed_ids();
        self.selection.is_all_displayed_selected(&ids)
    }

    /// The selected ids.
    pub fn selected_ids(&self) -> (ids: Vec<i64>)
        requires
            self.wf(),
        ensures
            ids@.to_set() == self@.selected,
            increasing(ids@),
    {
        self.selection.selected_ids()
    }

    /// How the tiles have to be marked, in the order of the displayed photos.
    pub fn sync_visible_selection(&self) -> (marks: Vec<TileMark>)
        requires
            self.wf(),
        ensures
            marks@.len() == self@.board.displayed.len(),
            forall|k: int|
                0 <= k < marks@.len() ==> #[trigger] marks@[k] == (TileMark {
                    flow_child: self@.board.displayed[k].flow_child,
                    selected: self@.selected.contains(self@.board.displayed[k].media_id),
                }),
    {
        let mut marks: Vec<TileMark> = Vec::new();
        let mut i: usize = 0;
        while i < self.board.displayed.len()
            invariant
                self.wf(),
                i <= self.board.displayed@.len(),
                marks@.len() == i,
                forall|k: int|
                    0 <= k < i ==> #[trigger] marks@[k] == (TileMark {
                        flow_child: self.board.displayed@[k].flow_child,
                        selected: self@.selected.contains(self.board.displayed@[k].media_id),
                    }),
            decreases self.board.displayed@.len() - i,
        {
            let item: DisplayedItem = self.board.displayed[i];
            marks.push(
                TileMark {
                    flow_child: item.flow_child,
                    selected: self.selection.ids.contains(item.media_id),
                },
            );
            i += 1;
        }
        marks
    }
}

} // verus!
