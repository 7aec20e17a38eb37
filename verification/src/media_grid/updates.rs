//! How a grid follows the media list: in place where it can, else by a rebuild.

#[allow(unused_imports)]
use super::board::{
    board_after_addition, board_after_removal, board_with_photo, lost_displayed, range_end,
    relabelled, section_with_child, section_with_key, shows_photo, shows_section, with_children,
    without_children, BoardView, SectionTiles,
};
use super::board::DisplayedItem;
#[allow(unused_imports)]
use super::board_laws::{
    a_late_photo_keeps_the_board_in_order, addition_keeps_the_board_in_order,
    displayed_sections_exist, relabelling_keeps_the_board_in_order,
    removal_keeps_the_board_in_order,
};
use super::loading::ImmediateRebuild;
use super::metadata::should_show_library_stats;
#[allow(unused_imports)]
use super::metadata::stats_unfinished;
use super::rebuild::{group_for, RebuildOutcome};
#[allow(unused_imports)]
use super::rebuild::lemma_shown_groups;
use super::sections::{MediaSection, SectionCounts};
#[allow(unused_imports)]
use super::sections::{grouped, groups_of};
#[allow(unused_imports)]
use super::state::{headers_fit, GridFlags, GridView, PagingState, StatsLine};
use super::state::MediaGrid;
use crate::apply_to_media_list::find_uri;
#[allow(unused_imports)]
use crate::apply_to_media_list::uri_position;
use crate::media::{section_key_for_item, GroupBy, MediaItem, SectionKey};
#[allow(unused_imports)]
use crate::media::section_of;
use crate::media_list::MediaList;
use vstd::prelude::*;

verus! {

// ---------------------------------------------------------------------------
// Headers and progress line

impl GridView {
    /// The number of loaded photos that are rendered.
    pub open spec fn rendered_now(self, len: int) -> int {
        if len > self.progress.rendered_limit {
            self.progress.rendered_limit as int
        } else {
            len
        }
    }

    /// The grid with its headers renewed for the list `items`.
    pub open spec fn with_fresh_headers(self, items: Seq<MediaItem>) -> GridView {
        if self.flags.flat_sections {
            self
        } else {
            let groups = grouped(
                items.subrange(0, self.rendered_now(items.len() as int)),
                self.flags.mode,
            );
            GridView {
                board: BoardView {
                    sections: relabelled(self.board.sections, groups, self.header_counts()),
                    ..self.board
                },
                ..self
            }
        }
    }

    /// The grid with its progress line renewed; a finished line disappears.
    pub open spec fn with_fresh_stats(self) -> GridView {
        if self.metadata.stats is Some && self.stats.shown is Some {
            let stats = self.metadata.stats->0;
            GridView {
                stats: if stats_unfinished(stats) {
                    StatsLine { shown: Some(stats), ..self.stats }
                } else {
                    StatsLine { shown: None, timer: false, ..self.stats }
                },
                ..self
            }
        } else {
            self
        }
    }
}

impl MediaGrid {
    /// Renew the section headers after the list or the counts changed.
    pub fn refresh_section_header_labels(&mut self, list: &MediaList)
        requires
            old(self).wf(),
            list.wf(),
        ensures
            final(self).wf(),
            final(self)@ == old(self)@.with_fresh_headers(list@.items),
    {
        if self.flags.flat_sections {
            return;
        }
        let ghost before = self@;
        let source_len: u32 = list.n_items();
        let rendered: usize = if source_len as usize > self.progress.rendered_limit {
            self.progress.rendered_limit
        } else {
            source_len as usize
        };
        let sections: Vec<MediaSection> = group_for(list, rendered, false, self.flags.mode);
        let ghost groups = groups_of(sections@);
        proof {
            lemma_shown_groups(list@.items, rendered as int, false, self.flags.mode);
            relabelling_keeps_the_board_in_order(before.board, groups, before.header_counts());
        }
        let counts: Option<&SectionCounts> = if self.flags.full_library_context {
            self.metadata.counts(self.flags.mode)
        } else {
            None
        };
        self.board.relabel(&sections, counts);
        assert(self@.board == before.with_fresh_headers(list@.items).board);
    }

    /// Renew the progress line after its numbers changed.
    pub fn refresh_stats_label_after_cached_change(&mut self)
        ensures
            final(self)@ == old(self)@.with_fresh_stats(),
            final(self).wf() == old(self).wf(),
    {
        match self.metadata.stats {
            Some(stats) => {
                if self.stats.shown.is_some() {
                    if should_show_library_stats(&stats) {
                        self.stats.shown = Some(stats);
                    } else {
                        self.stats.shown = None;
                        self.stats.timer = false;
                    }
                }
            },
            None => {},
        }
    }
}

// ---------------------------------------------------------------------------
// Removals

/// The selection without the photos that went away.
pub open spec fn selected_after(selected: Set<i64>, lost: Seq<DisplayedItem>) -> Set<i64> {
    Set::new(|id: i64| selected.contains(id) && !shows_photo(lost, id))
}

/// Was any of the photos that went away selected?
pub open spec fn lost_selected(selected: Set<i64>, lost: Seq<DisplayedItem>) -> bool {
    exists|k: int| 0 <= k < lost.len() && selected.contains((#[trigger] lost[k]).media_id)
}

impl GridView {
    /// The displayed photos that a removal takes away.
    pub open spec fn lost_by(self, position: u32, removed: u32) -> Seq<DisplayedItem> {
        lost_displayed(self.board.displayed, position as int, range_end(position, removed))
    }

    /// The grid after the list lost `removed` photos at `position`; `items` is
    /// what is left.
    pub open spec fn after_removal(
        self,
        items: Seq<MediaItem>,
        position: u32,
        removed: u32,
    ) -> GridView {
        if removed == 0 {
            self
        } else {
            let lost = self.lost_by(position, removed);
            let shrunk = GridView {
                paging: PagingState {
                    total: self.paging.total.saturating_sub(removed),
                    ..self.paging
                },
                metadata: self.metadata.after_removal(self.flags.mode, removed, lost),
                selected: selected_after(self.selected, lost),
                board: board_after_removal(self.board, position, removed),
                ..self
            };
            shrunk.with_fresh_headers(items).with_fresh_stats()
        }
    }
}

proof fn lemma_headers_without(
    sections: Seq<SectionTiles>,
    lost: Seq<DisplayedItem>,
    flat: bool,
)
    requires
        headers_fit(sections, flat),
    ensures
        headers_fit(without_children(sections, lost), flat),
    decreases lost.len(),
{
    if lost.len() > 0 {
        lemma_headers_without(sections, lost.drop_last(), flat);
        let before = without_children(sections, lost.drop_last());
        let after = without_children(sections, lost);
        let at = section_with_child(before, lost.last().flow_child);
        super::board::lemma_section_with_child(before, lost.last().flow_child);
        assert forall|i: int| 0 <= i < after.len() implies ((#[trigger] after[i]).header is None
            <==> flat) by {
            if after.len() < before.len() && i >= at {
                assert(before[i + 1].header is None <==> flat);
            } else {
                assert(before[i].header is None <==> flat);
            }
        }
    }
}

impl MediaGrid {
    /// Deselect the photos that went away; `true` when one was selected.
    fn deselect_lost(&mut self, lost: &Vec<DisplayedItem>) -> (changed: bool)
        requires
            old(self).wf(),
        ensures
            final(self).wf(),
            final(self)@ == (GridView {
                selected: selected_after(old(self)@.selected, lost@),
                ..old(self)@
            }),
            changed == lost_selected(old(self)@.selected, lost@),
    {
        let ghost start = self@;
        let mut changed: bool = false;
        let mut i: usize = 0;
        assert(self@.selected =~= selected_after(start.selected, lost@.subrange(0, 0)));
        while i < lost.len()
            invariant
                i <= lost@.len(),
                self.wf(),
                self@ == (GridView {
                    selected: selected_after(start.selected, lost@.subrange(0, i as int)),
                    ..start
                }),
                changed == exists|k: int|
                    0 <= k < i && start.selected.contains((#[trigger] lost@[k]).media_id),
            decreases lost@.len() - i,
        {
            let id: i64 = lost[i].media_id;
            let ghost seen = lost@.subrange(0, i as int);
            let ghost now = lost@.subrange(0, i + 1);
            let ghost selected = self@.selected;
            let gone: bool = self.selection.deselect(id);
            proof {
                assert forall|x: i64| shows_photo(now, x) <==> shows_photo(seen, x) || x == id by {
                    if shows_photo(now, x) {
                        let k = choose|k: int|
                            0 <= k < now.len() && (#[trigger] now[k]).media_id == x;
                        if k < i {
                            assert(seen[k].media_id == x);
                        }
                    }
                    if shows_photo(seen, x) {
                        let k = choose|k: int|
                            0 <= k < seen.len() && (#[trigger] seen[k]).media_id == x;
                        assert(now[k].media_id == x);
                    }
                    assert(now[i as int].media_id == id);
                }
                assert(selected.remove(id) =~= selected_after(start.selected, now));
                if gone {
                    assert(start.selected.contains(lost@[i as int].media_id));
                } else if start.selected.contains(id) {
                    assert(shows_photo(seen, id));
                    let k = choose|k: int| 0 <= k < seen.len() && (#[trigger] seen[k]).media_id == id;
                    assert(lost@[k].media_id == id);
                }
            }
            changed = changed || gone;
            i += 1;
        }
        assert(lost@.subrange(0, lost@.len() as int) =~= lost@);
        changed
    }

    /// Follow a removal in place: the tiles of the lost photos go, all others
    /// stay. `list` is what is left.
    pub fn apply_incremental_removal(
        &mut self,
        position: u32,
        removed: u32,
        list: &MediaList,
    ) -> (gone: (Vec<DisplayedItem>, bool))
        requires
            old(self).wf(),
            list.wf(),
        ensures
            final(self).wf(),
            final(self)@ == old(self)@.after_removal(list@.items, position, removed),
            gone.0@ == if removed == 0 {
                Seq::empty()
            } else {
                old(self)@.lost_by(position, removed)
            },
            gone.1 == lost_selected(old(self)@.selected, gone.0@),
    {
        if removed == 0 {
            return (Vec::new(), false);
        }
        let ghost start = self@;
        proof {
            removal_keeps_the_board_in_order(start.board, position, removed);
            lemma_headers_without(
                start.board.sections,
                start.lost_by(position, removed),
                self.flags.flat_sections,
            );
        }
        let lost: Vec<DisplayedItem> = self.board.remove_range(position, removed);
        let selection_changed: bool = self.deselect_lost(&lost);
        self.paging.total = self.paging.total.saturating_sub(removed);
        let mode: GroupBy = self.flags.mode;
        self.metadata.decrement_cached_metadata_after_removal(mode, removed, &lost);
        self.refresh_section_header_labels(list);
        self.refresh_stats_label_after_cached_change();
        (lost, selection_changed)
    }
}

// ---------------------------------------------------------------------------
// Additions

/// Are all photos of one section?
pub open spec fn all_in_section(items: Seq<MediaItem>, key: SectionKey, mode: GroupBy) -> bool {
    forall|i: int| 0 <= i < items.len() ==> section_of(#[trigger] items[i], mode) == key
}

/// Every one of `count` photos is ready to be shown.
pub open spec fn all_ready(count: int) -> Seq<bool> {
    Seq::new(count as nat, |i: int| true)
}

/// The list positions, counted from `position`, of the photos that are not
/// ready to be shown.
pub open spec fn unready_positions(position: int, ready: Seq<bool>) -> Seq<u32>
    decreases ready.len(),
{
    if ready.len() == 0 {
        Seq::empty()
    } else {
        let front = unready_positions(position, ready.drop_last());
        if ready.last() {
            front
        } else {
            front.push((position + ready.len() - 1) as u32)
        }
    }
}

impl GridView {
    /// Can the grid follow an insertion in place? `items` is the list with the
    /// new photos in it. They have to fall in one section that is on screen.
    pub open spec fn can_add(self, items: Seq<MediaItem>, position: u32, added: u32) -> bool {
        &&& added > 0
        &&& !self.flags.flat_sections
        &&& position + added <= items.len()
        &&& all_in_section(
            items.subrange(position as int, position + added),
            section_of(items[position as int], self.flags.mode),
            self.flags.mode,
        )
        &&& shows_section(
            self.board.displayed,
            section_of(items[position as int], self.flags.mode),
        )
    }

    /// The grid after an insertion that it can follow in place. `count_in` says
    /// whether the photos are new to the library.
    pub open spec fn after_addition(
        self,
        items: Seq<MediaItem>,
        position: u32,
        added: u32,
        ready: Seq<bool>,
        count_in: bool,
    ) -> GridView {
        let key = section_of(items[position as int], self.flags.mode);
        let placed = GridView {
            board: board_after_addition(
                self.board,
                items.subrange(position as int, position + added),
                ready,
                position,
                key,
            ),
            ..self
        };
        let counted = if count_in {
            GridView {
                paging: PagingState {
                    total: self.paging.total.saturating_add(added),
                    ..self.paging
                },
                metadata: self.metadata.after_addition(self.flags.mode, added, key),
                ..placed
            }
        } else {
            placed
        };
        counted.with_fresh_headers(items).with_fresh_stats()
    }
}

/// The photos from `position` on, copied; `None` when the list ends before
/// `added` of them.
fn copy_range(list: &MediaList, position: u32, added: u32) -> (items: Option<Vec<MediaItem>>)
    requires
        list.wf(),
    ensures
        items is Some <==> position + added <= list@.items.len(),
        items matches Some(copies) ==> copies@ == list@.items.subrange(
            position as int,
            position + added,
        ),
{
    if position as u64 + added as u64 > list.n_items() as u64 {
        return None;
    }
    let mut copies: Vec<MediaItem> = Vec::new();
    let mut i: u32 = 0;
    while i < added
        invariant
            position + added <= list@.items.len() <= u32::MAX,
            i <= added,
            copies@ =~= list@.items.subrange(position as int, position + i),
        decreases added - i,
    {
        copies.push(list.item(position + i).unwrap().clone());
        i += 1;
    }
    Some(copies)
}

fn share_section(items: &Vec<MediaItem>, key: SectionKey, mode: GroupBy) -> (same: bool)
    ensures
        same == all_in_section(items@, key, mode),
{
    let mut i: usize = 0;
    while i < items.len()
        invariant
            i <= items@.len(),
            forall|k: int| 0 <= k < i ==> section_of(#[trigger] items@[k], mode) == key,
        decreases items@.len() - i,
    {
        if section_key_for_item(&items[i], mode) != key {
            assert(section_of(items@[i as int], mode) != key);
            return false;
        }
        i += 1;
    }
    true
}

fn positions_to_wait_for(position: u32, ready: &Vec<bool>) -> (positions: Vec<u32>)
    requires
        position + ready@.len() <= u32::MAX,
    ensures
        positions@ == unready_positions(position as int, ready@),
{
    let mut positions: Vec<u32> = Vec::new();
    let mut i: usize = 0;
    assert(ready@.subrange(0, 0) =~= Seq::<bool>::empty());
    while i < ready.len()
        invariant
            i <= ready@.len(),
            position + ready@.len() <= u32::MAX,
            positions@ == unready_positions(position as int, ready@.subrange(0, i as int)),
        decreases ready@.len() - i,
    {
        proof {
            assert(ready@.subrange(0, i + 1).drop_last() =~= ready@.subrange(0, i as int));
            assert(ready@.subrange(0, i + 1).last() == ready@[i as int]);
        }
        if !ready[i] {
            positions.push(position + i as u32);
        }
        i += 1;
    }
    assert(ready@.subrange(0, ready@.len() as int) =~= ready@);
    positions
}

proof fn lemma_headers_with(
    sections: Seq<SectionTiles>,
    at: int,
    slot: int,
    children: Seq<u64>,
    flat: bool,
)
    requires
        headers_fit(sections, flat),
        0 <= at < sections.len(),
    ensures
        headers_fit(with_children(sections, at, slot, children), flat),
{
    let after = with_children(sections, at, slot, children);
    assert forall|i: int| 0 <= i < after.len() implies ((#[trigger] after[i]).header is None
        <==> flat) by {
        assert(sections[i].header is None <==> flat);
    }
}

impl MediaGrid {
    /// Follow an insertion in place, where that is possible: the tiles on
    /// screen stay, and the new photos that are ready get tiles among them.
    /// `true` when it was possible.
    fn apply_incremental_addition_inner(
        &mut self,
        position: u32,
        added: u32,
        list: &MediaList,
        ready: &Vec<bool>,
        count_in: bool,
    ) -> (applied: bool)
        requires
            old(self).wf(),
            list.wf(),
            ready@.len() == added,
            old(self).board.next_child + added <= u64::MAX,
        ensures
            final(self).wf(),
            applied == old(self)@.can_add(list@.items, position, added),
            final(self)@ == if applied {
                old(self)@.after_addition(list@.items, position, added, ready@, count_in)
            } else {
                old(self)@
            },
    {
        if added == 0 || self.flags.flat_sections {
            return false;
        }
        let ghost start = self@;
        match copy_range(list, position, added) {
            Some(items) => {
                let mode: GroupBy = self.flags.mode;
                assert(items@[0] == list@.items[position as int]);
                let key: SectionKey = section_key_for_item(&items[0], mode);
                if !share_section(&items, key, mode) || !self.board.shows_section(key) {
                    return false;
                }
                proof {
                    displayed_sections_exist(start.board, key);
                    addition_keeps_the_board_in_order(
                        start.board,
                        items@,
                        ready@,
                        position,
                        key,
                    );
                    super::board::lemma_section_with_key(start.board.sections, key);
                }
                self.board.add_range(&items, ready, position, key);
                assert(headers_fit(self.board@.sections, self.flags.flat_sections)) by {
                    let at = section_with_key(start.board.sections, key);
                    let slot = super::board::tile_slot(
                        start.board.displayed,
                        start.board.sections[at].tiles,
                        key,
                        position,
                    );
                    let fresh = super::board::fresh_displayed(
                        items@,
                        ready@,
                        position,
                        key,
                        start.board.next_child,
                    );
                    lemma_headers_with(
                        start.board.sections,
                        at,
                        slot,
                        super::board::children_of(fresh),
                        self.flags.flat_sections,
                    );
                }
                if count_in {
                    self.paging.total = self.paging.total.saturating_add(added);
                    self.metadata.increment_cached_metadata_after_addition(mode, added, key);
                }
                self.refresh_section_header_labels(list);
                self.refresh_stats_label_after_cached_change();
                true
            },
            None => false,
        }
    }

    /// Follow photos that are new to the library. Those whose thumbnail is not
    /// ready stay off the grid; their list positions are returned, to be placed
    /// when their thumbnail arrives or fails. `None` when the grid cannot
    /// follow in place.
    pub fn apply_incremental_addition(
        &mut self,
        position: u32,
        added: u32,
        list: &MediaList,
        ready: &Vec<bool>,
    ) -> (deferred: Option<Vec<u32>>)
        requires
            old(self).wf(),
            list.wf(),
            ready@.len() == added,
            old(self).board.next_child + added <= u64::MAX,
        ensures
            final(self).wf(),
            deferred is Some <==> old(self)@.can_add(list@.items, position, added),
            deferred matches Some(waiting) ==> waiting@ == unready_positions(
                position as int,
                ready@,
            ),
            final(self)@ == if deferred is Some {
                old(self)@.after_addition(list@.items, position, added, ready@, true)
            } else {
                old(self)@
            },
    {
        if self.apply_incremental_addition_inner(position, added, list, ready, true) {
            Some(positions_to_wait_for(position, ready))
        } else {
            None
        }
    }

    /// Render more of the list, in place; `true` when that was possible.
    pub fn apply_progressive_render_addition(
        &mut self,
        position: u32,
        added: u32,
        list: &MediaList,
    ) -> (applied: bool)
        requires
            old(self).wf(),
            list.wf(),
            old(self).board.next_child + added <= u64::MAX,
        ensures
            final(self).wf(),
            applied == old(self)@.can_add(list@.items, position, added),
            final(self)@ == if applied {
                old(self)@.after_addition(
                    list@.items,
                    position,
                    added,
                    all_ready(added as int),
                    false,
                )
            } else {
                old(self)@
            },
    {
        if position as u64 + added as u64 > list.n_items() as u64 {
            return false;
        }
        let mut ready: Vec<bool> = Vec::new();
        let mut i: u32 = 0;
        while i < added
            invariant
                i <= added,
                ready@ =~= all_ready(i as int),
            decreases added - i,
        {
            ready.push(true);
            i += 1;
        }
        self.apply_incremental_addition_inner(position, added, list, &ready, false)
    }
}

// ---------------------------------------------------------------------------
// Late photos

/// What came of a photo whose thumbnail was waited for.
#[derive(Clone, Copy, Debug, PartialEq, Eq, Structural)]
pub enum DeferredInsert {
    /// The grid is not on screen; it rebuilds when it is.
    MarkedDirty,
    /// The photo has a tile by now.
    AlreadyShown,
    /// The photo has left the list.
    Gone,
    /// The section of the photo is not on screen; a rebuild is waiting.
    Scheduled,
    /// The photo got its tile.
    Inserted,
}

/// Does a displayed photo stand at a list position with `uri`?
pub open spec fn shows_uri(
    displayed: Seq<DisplayedItem>,
    items: Seq<MediaItem>,
    uri: Seq<char>,
) -> bool {
    exists|k: int|
        0 <= k < displayed.len() && (#[trigger] displayed[k]).window_index < items.len()
            && items[displayed[k].window_index as int].uri@ == uri
}

impl GridView {
    /// What comes of the photo `uri`, which was asked for under the view `mode`.
    pub open spec fn deferred_insert(
        self,
        items: Seq<MediaItem>,
        uri: Seq<char>,
        mode: GroupBy,
    ) -> DeferredInsert {
        let at = uri_position(items, uri);
        if !self.flags.active {
            DeferredInsert::MarkedDirty
        } else if shows_uri(self.board.displayed, items, uri) {
            DeferredInsert::AlreadyShown
        } else if at >= items.len() {
            DeferredInsert::Gone
        } else if !shows_section(self.board.displayed, section_of(items[at], mode)) {
            DeferredInsert::Scheduled
        } else if shows_photo(self.board.displayed, items[at].id) {
            DeferredInsert::AlreadyShown
        } else {
            DeferredInsert::Inserted
        }
    }

    /// The grid after the thumbnail of the photo `uri` arrived or failed.
    pub open spec fn after_deferred_insert(
        self,
        items: Seq<MediaItem>,
        uri: Seq<char>,
        mode: GroupBy,
    ) -> GridView {
        match self.deferred_insert(items, uri, mode) {
            DeferredInsert::MarkedDirty => GridView {
                flags: GridFlags { dirty_model: true, ..self.flags },
                ..self
            },
            DeferredInsert::Scheduled => self.scheduled(),
            DeferredInsert::Inserted => {
                let at = uri_position(items, uri);
                (GridView {
                    board: board_with_photo(
                        self.board,
                        items[at].id,
                        at as u32,
                        section_of(items[at], mode),
                    ),
                    ..self
                }).with_fresh_stats()
            },
            _ => self,
        }
    }
}

impl MediaGrid {
    fn displays_uri(&self, list: &MediaList, uri: &String) -> (shown: bool)
        ensures
            shown == shows_uri(self@.board.displayed, list@.items, uri@),
    {
        let mut i: usize = 0;
        while i < self.board.displayed.len()
            invariant
                i <= self.board.displayed@.len(),
                forall|k: int|
                    0 <= k < i ==> !((#[trigger] self.board.displayed@[k]).window_index
                        < list@.items.len() && list@.items[self.board.displayed@[k].window_index as int].uri@
                        == uri@),
            decreases self.board.displayed@.len() - i,
        {
            match list.item(self.board.displayed[i].window_index) {
                Some(item) => {
                    if item.uri == *uri {
                        assert(self@.board.displayed[i as int].window_index < list@.items.len());
                        return true;
                    }
                },
                None => {},
            }
            i += 1;
        }
        false
    }

    /// Give a photo its tile after its thumbnail arrived or failed. `mode` is
    /// the view under which the thumbnail was asked for.
    pub fn insert_deferred_incremental_item(
        &mut self,
        list: &MediaList,
        uri: &String,
        mode: GroupBy,
    ) -> (outcome: DeferredInsert)
        requires
            old(self).wf(),
            list.wf(),
            old(self).board.next_child < u64::MAX,
        ensures
            final(self).wf(),
            outcome == old(self)@.deferred_insert(list@.items, uri@, mode),
            final(self)@ == old(self)@.after_deferred_insert(list@.items, uri@, mode),
    {
        let ghost start = self@;
        if !self.flags.active {
            self.flags.dirty_model = true;
            return DeferredInsert::MarkedDirty;
        }
        if self.displays_uri(list, uri) {
            return DeferredInsert::AlreadyShown;
        }
        match find_uri(list, uri) {
            Some(index) => {
                let item: &MediaItem = list.item(index).unwrap();
                let key: SectionKey = section_key_for_item(item, mode);
                if !self.board.shows_section(key) {
                    let _ = self.schedule_rebuild();
                    return DeferredInsert::Scheduled;
                }
                if self.board.shows_photo(item.id) {
                    return DeferredInsert::AlreadyShown;
                }
                proof {
                    displayed_sections_exist(start.board, key);
                    a_late_photo_keeps_the_board_in_order(start.board, item.id, index, key);
                    super::board::lemma_section_with_key(start.board.sections, key);
                }
                self.board.add_photo(item.id, index, key);
                assert(headers_fit(self.board@.sections, self.flags.flat_sections)) by {
                    let at = section_with_key(start.board.sections, key);
                    let slot = super::board::tile_slot(
                        start.board.displayed,
                        start.board.sections[at].tiles,
                        key,
                        index,
                    );
                    lemma_headers_with(
                        start.board.sections,
                        at,
                        slot,
                        seq![start.board.next_child],
                        self.flags.flat_sections,
                    );
                }
                self.refresh_stats_label_after_cached_change();
                DeferredInsert::Inserted
            },
            None => DeferredInsert::Gone,
        }
    }
}

// ---------------------------------------------------------------------------
// Signals of the list

/// How a grid answers a change of the list.
#[derive(Clone, Copy, Debug, PartialEq, Eq, Structural)]
pub enum ChangeAnswer {
    /// The grid is not on screen; it rebuilds when it is.
    MarkDirty,
    /// The grid itself is replacing the list by another page.
    Ignore,
    /// Take the tiles away in place.
    Remove,
    /// Rebuild at once: photos were replaced and may have moved.
    RebuildReplaced,
    /// Rebuild at once: these are the first photos.
    RebuildFirst,
    /// Place tiles among those on screen.
    Insert,
    /// Rebuild after a quiet moment, to absorb a burst of changes.
    Schedule,
    /// Nothing changed.
    Nothing,
}

/// What a change of the list leaves for others to do.
pub struct ModelChange {
    pub answer: ChangeAnswer,
    /// The rebuild that was carried out.
    pub rebuild: Option<RebuildOutcome>,
    /// A debounced rebuild was waiting and is not needed any more.
    pub canceled_pending: bool,
    /// A debounced rebuild has to be set up.
    pub newly_scheduled: bool,
    /// The selection changed.
    pub selection_changed: bool,
    /// The photos that lost their tiles.
    pub lost: Vec<DisplayedItem>,
    /// List positions of photos whose thumbnail has to be waited for.
    pub deferred: Vec<u32>,
}

impl GridView {
    /// How the grid answers a change: at `position`, `removed` photos went and
    /// `added` came; `items` is the list after that.
    pub open spec fn answer(
        self,
        items: Seq<MediaItem>,
        position: u32,
        removed: u32,
        added: u32,
    ) -> ChangeAnswer {
        if !self.flags.active {
            ChangeAnswer::MarkDirty
        } else if self.paging.applying_page {
            ChangeAnswer::Ignore
        } else if removed > 0 && added == 0 {
            ChangeAnswer::Remove
        } else if removed > 0 {
            ChangeAnswer::RebuildReplaced
        } else if added == 0 {
            ChangeAnswer::Nothing
        } else if items.len() <= added {
            ChangeAnswer::RebuildFirst
        } else if self.can_add(items, position, added) {
            ChangeAnswer::Insert
        } else {
            ChangeAnswer::Schedule
        }
    }

    /// The grid after a change of the list.
    pub open spec fn after_change(
        self,
        items: Seq<MediaItem>,
        position: u32,
        removed: u32,
        added: u32,
        ready: Seq<bool>,
        viewport_width: u32,
    ) -> GridView {
        match self.answer(items, position, removed, added) {
            ChangeAnswer::MarkDirty => GridView {
                flags: GridFlags { dirty_model: true, ..self.flags },
                ..self
            },
            ChangeAnswer::Remove => self.after_removal(items, position, removed),
            ChangeAnswer::RebuildReplaced => self.with_stale_metadata().rebuilt_now(
                items,
                viewport_width,
            ),
            ChangeAnswer::RebuildFirst => self.with_stale_metadata().rebuilt_now(
                items,
                viewport_width,
            ),
            ChangeAnswer::Insert => self.with_stale_metadata().after_addition(
                items,
                position,
                added,
                ready,
                true,
            ),
            ChangeAnswer::Schedule => self.with_stale_metadata().scheduled(),
            ChangeAnswer::Ignore => self,
            ChangeAnswer::Nothing => self,
        }
    }
}

impl MediaGrid {
    /// Answer a change of the list. `list` is the list after the change, and
    /// `ready` says of each new photo whether its thumbnail is at hand.
    pub fn handle_items_changed(
        &mut self,
        list: &MediaList,
        position: u32,
        removed: u32,
        added: u32,
        ready: &Vec<bool>,
        viewport_width: u32,
    ) -> (change: ModelChange)
        requires
            old(self).wf(),
            list.wf(),
            ready@.len() == added,
            old(self).board.next_child + added <= u64::MAX,
        ensures
            final(self).wf(),
            final(self)@ == old(self)@.after_change(
                list@.items,
                position,
                removed,
                added,
                ready@,
                viewport_width,
            ),
            change.answer == old(self)@.answer(list@.items, position, removed, added),
            change.rebuild == match change.answer {
                ChangeAnswer::RebuildReplaced | ChangeAnswer::RebuildFirst => Some(
                    old(self)@.with_stale_metadata().rebuild_outcome(list@.items.len() as int),
                ),
                _ => None,
            },
            change.canceled_pending == (old(self)@.progress.rebuild_scheduled && (change.answer
                == ChangeAnswer::RebuildReplaced || change.answer == ChangeAnswer::RebuildFirst)),
            change.newly_scheduled == (!old(self)@.progress.rebuild_scheduled && change.answer
                == ChangeAnswer::Schedule),
            change.selection_changed == (old(self)@.selected != final(self)@.selected),
            change.lost@ == if change.answer == ChangeAnswer::Remove {
                old(self)@.lost_by(position, removed)
            } else {
                Seq::empty()
            },
            change.deferred@ == if change.answer == ChangeAnswer::Insert {
                unready_positions(position as int, ready@)
            } else {
                Seq::empty()
            },
    {
        let ghost start = self@;
        let mut change = ModelChange {
            answer: ChangeAnswer::Nothing,
            rebuild: None,
            canceled_pending: false,
            newly_scheduled: false,
            selection_changed: false,
            lost: Vec::new(),
            deferred: Vec::new(),
        };
        if !self.flags.active {
            self.flags.dirty_model = true;
            change.answer = ChangeAnswer::MarkDirty;
            return change;
        }
        if self.paging.applying_page {
            change.answer = ChangeAnswer::Ignore;
            return change;
        }
        if removed > 0 && added == 0 {
            let (lost, selection_changed): (Vec<DisplayedItem>, bool) =
                self.apply_incremental_removal(position, removed, list);
            proof {
                lemma_selection_changes(start.selected, lost@);
            }
            change.answer = ChangeAnswer::Remove;
            change.lost = lost;
            change.selection_changed = selection_changed;
            return change;
        }
        if removed == 0 && added == 0 {
            return change;
        }
        self.invalidate_library_metadata();
        let was_empty: bool = list.n_items().saturating_sub(added) == 0;
        if removed > 0 || was_empty {
            let done: ImmediateRebuild = self.rebuild_immediately(list, viewport_width);
            change.answer = if removed > 0 {
                ChangeAnswer::RebuildReplaced
            } else {
                ChangeAnswer::RebuildFirst
            };
            change.rebuild = Some(done.rebuild);
            change.canceled_pending = done.canceled_pending;
            change.selection_changed = done.selection_changed;
            return change;
        }
        match self.apply_incremental_addition(position, added, list, ready) {
            Some(deferred) => {
                change.answer = ChangeAnswer::Insert;
                change.deferred = deferred;
            },
            None => {
                change.newly_scheduled = self.schedule_rebuild();
                change.answer = ChangeAnswer::Schedule;
            },
        }
        change
    }
}

proof fn lemma_selection_changes(selected: Set<i64>, lost: Seq<DisplayedItem>)
    ensures
        lost_selected(selected, lost) <==> selected != selected_after(selected, lost),
{
    let after = selected_after(selected, lost);
    if lost_selected(selected, lost) {
        let k = choose|k: int|
            0 <= k < lost.len() && selected.contains((#[trigger] lost[k]).media_id);
        assert(!after.contains(lost[k].media_id));
    } else {
        assert forall|id: i64| after.contains(id) <==> selected.contains(id) by {
            if selected.contains(id) && shows_photo(lost, id) {
                let k = choose|k: int| 0 <= k < lost.len() && (#[trigger] lost[k]).media_id == id;
                assert(selected.contains(lost[k].media_id));
            }
        }
        assert(after =~= selected);
    }
}

} // verus!
