//! The tiles on screen: sections of tiles, and for every displayed photo the
//! tile that shows it, its position in the media list and its section.
//!
//! Tiles are named by numbers. A number stays with a tile from the moment it is
//! placed until the next rebuild, so that a widget can be found by it.

use super::sections::{MediaSection, SectionCounts};
#[allow(unused_imports)]
use super::sections::{groups_of, SectionGroup};
use crate::media::{MediaItem, SectionKey};
use crate::media_list::MediaList;
use vstd::prelude::*;

verus! {

/// A displayed photo.
#[derive(Clone, Copy, Debug, PartialEq, Eq, Structural)]
pub struct DisplayedItem {
    pub flow_child: u64,
    pub window_index: u32,
    pub media_id: i64,
    pub section_key: SectionKey,
}

/// What the header of a section says: the section it names and its photo count.
#[derive(Clone, Copy, Debug, PartialEq, Eq, Structural)]
pub struct HeaderLabel {
    pub key: SectionKey,
    pub count: u32,
}

/// A section on screen: what its header says, where it has a header, and its
/// tiles in order.
pub struct GridSection {
    pub key: SectionKey,
    pub header: Option<HeaderLabel>,
    pub tiles: Vec<u64>,
}

/// The meaning of a `GridSection`.
pub struct SectionTiles {
    pub key: SectionKey,
    pub header: Option<HeaderLabel>,
    pub tiles: Seq<u64>,
}

impl View for GridSection {
    type V = SectionTiles;

    open spec fn view(&self) -> SectionTiles {
        SectionTiles { key: self.key, header: self.header, tiles: self.tiles@ }
    }
}

/// The sections and the displayed photos of a grid, and the tile of the extra
/// child that a page may have put behind the photos.
pub struct Board {
    pub sections: Vec<GridSection>,
    pub displayed: Vec<DisplayedItem>,
    pub extra: Option<u64>,
    pub next_child: u64,
}

/// The meaning of a `Board`.
#[verifier::ext_equal]
pub struct BoardView {
    pub sections: Seq<SectionTiles>,
    pub displayed: Seq<DisplayedItem>,
    pub extra: Option<u64>,
    pub next_child: u64,
}

impl View for Board {
    type V = BoardView;

    open spec fn view(&self) -> BoardView {
        BoardView {
            sections: Seq::new(self.sections@.len(), |i: int| self.sections@[i]@),
            displayed: self.displayed@,
            extra: self.extra,
            next_child: self.next_child,
        }
    }
}

/// The tiles of all sections, each with the key of its section.
pub open spec fn tiles_of(sections: Seq<SectionTiles>) -> Set<(SectionKey, u64)> {
    Set::new(
        |tile: (SectionKey, u64)|
            exists|i: int, t: int|
                #![trigger sections[i].tiles[t]]
                0 <= i < sections.len() && 0 <= t < sections[i].tiles.len() && sections[i].key
                    == tile.0 && sections[i].tiles[t] == tile.1,
    )
}

/// The tiles that show the displayed photos, each with the key of its section.
pub open spec fn tiles_shown(displayed: Seq<DisplayedItem>) -> Set<(SectionKey, u64)> {
    Set::new(
        |tile: (SectionKey, u64)|
            exists|k: int|
                0 <= k < displayed.len() && (#[trigger] displayed[k]).section_key == tile.0
                    && displayed[k].flow_child == tile.1,
    )
}

/// No two sections share a key, and every section has a tile.
pub open spec fn proper_sections(sections: Seq<SectionTiles>) -> bool {
    &&& forall|i: int, j: int|
        #![trigger sections[i], sections[j]]
        0 <= i < j < sections.len() ==> sections[i].key != sections[j].key
    &&& forall|i: int| 0 <= i < sections.len() ==> (#[trigger] sections[i]).tiles.len() > 0
}

/// Every tile is in one place, and was handed out before `next`.
pub open spec fn tiles_unique(sections: Seq<SectionTiles>, next: u64) -> bool {
    &&& forall|i: int, t: int, j: int, u: int|
        #![trigger sections[i].tiles[t], sections[j].tiles[u]]
        0 <= i < sections.len() && 0 <= t < sections[i].tiles.len() && 0 <= j < sections.len() && 0
            <= u < sections[j].tiles.len() && sections[i].tiles[t] == sections[j].tiles[u] ==> i == j
            && t == u
    &&& forall|i: int, t: int|
        #![trigger sections[i].tiles[t]]
        0 <= i < sections.len() && 0 <= t < sections[i].tiles.len() ==> sections[i].tiles[t] < next
}

/// No two displayed photos share a tile.
pub open spec fn children_unique(displayed: Seq<DisplayedItem>) -> bool {
    forall|i: int, j: int|
        #![trigger displayed[i], displayed[j]]
        0 <= i < j < displayed.len() ==> displayed[i].flow_child != displayed[j].flow_child
}

impl BoardView {
    /// Is `tile` the extra child? It stands in the last section.
    pub open spec fn is_extra(self, tile: (SectionKey, u64)) -> bool {
        &&& self.extra == Some(tile.1)
        &&& self.sections.len() > 0
        &&& self.sections.last().key == tile.0
    }

    /// The tiles that show a photo or are the extra child, each with the key of
    /// its section.
    pub open spec fn tiles_used(self) -> Set<(SectionKey, u64)> {
        Set::new(
            |tile: (SectionKey, u64)|
                tiles_shown(self.displayed).contains(tile) || self.is_extra(tile),
        )
    }

    /// Sections and displayed photos fit together: every displayed photo has
    /// exactly one tile, in its section, the extra child has a tile of its own
    /// in the last section, and there are no other tiles.
    pub open spec fn wf(self) -> bool {
        &&& proper_sections(self.sections)
        &&& tiles_unique(self.sections, self.next_child)
        &&& children_unique(self.displayed)
        &&& self.extra matches Some(extra) ==> self.sections.len() > 0 && (forall|k: int|
            0 <= k < self.displayed.len() ==> (#[trigger] self.displayed[k]).flow_child != extra)
        &&& tiles_of(self.sections) == self.tiles_used()
    }
}

// ---------------------------------------------------------------------------
// Finding tiles and sections

/// The position of `child` among `tiles`, or their number.
pub open spec fn tile_position(tiles: Seq<u64>, child: u64) -> int
    decreases tiles.len(),
{
    if tiles.len() == 0 || tiles[0] == child {
        0
    } else {
        1 + tile_position(tiles.subrange(1, tiles.len() as int), child)
    }
}

/// The section that holds `child`, or the number of sections.
pub open spec fn section_with_child(sections: Seq<SectionTiles>, child: u64) -> int
    decreases sections.len(),
{
    if sections.len() == 0 || sections[0].tiles.contains(child) {
        0
    } else {
        1 + section_with_child(sections.subrange(1, sections.len() as int), child)
    }
}

/// The section with `key`, or the number of sections.
pub open spec fn section_with_key(sections: Seq<SectionTiles>, key: SectionKey) -> int
    decreases sections.len(),
{
    if sections.len() == 0 || sections[0].key == key {
        0
    } else {
        1 + section_with_key(sections.subrange(1, sections.len() as int), key)
    }
}

pub proof fn lemma_tile_position(tiles: Seq<u64>, child: u64)
    ensures
        0 <= tile_position(tiles, child) <= tiles.len(),
        forall|i: int| 0 <= i < tile_position(tiles, child) ==> #[trigger] tiles[i] != child,
        tile_position(tiles, child) < tiles.len() ==> tiles[tile_position(tiles, child)] == child,
        tile_position(tiles, child) < tiles.len() <==> tiles.contains(child),
    decreases tiles.len(),
{
    if tiles.len() > 0 && tiles[0] != child {
        let rest = tiles.subrange(1, tiles.len() as int);
        lemma_tile_position(rest, child);
        let p = tile_position(rest, child);
        assert forall|i: int| 0 <= i < p + 1 implies #[trigger] tiles[i] != child by {
            if i > 0 {
                assert(rest[i - 1] == tiles[i]);
            }
        }
        if p < rest.len() {
            assert(rest[p] == tiles[p + 1]);
        }
        if tiles.contains(child) {
            let k = choose|k: int| 0 <= k < tiles.len() && tiles[k] == child;
            assert(rest[k - 1] == child);
        }
    }
}

pub proof fn lemma_section_with_child(sections: Seq<SectionTiles>, child: u64)
    ensures
        0 <= section_with_child(sections, child) <= sections.len(),
        forall|i: int|
            0 <= i < section_with_child(sections, child) ==> !(
            #[trigger] sections[i]).tiles.contains(child),
        section_with_child(sections, child) < sections.len() ==> sections[section_with_child(
            sections,
            child,
        )].tiles.contains(child),
    decreases sections.len(),
{
    if sections.len() > 0 && !sections[0].tiles.contains(child) {
        let rest = sections.subrange(1, sections.len() as int);
        lemma_section_with_child(rest, child);
        let p = section_with_child(rest, child);
        assert forall|i: int| 0 <= i < p + 1 implies !(#[trigger] sections[i]).tiles.contains(
            child,
        ) by {
            if i > 0 {
                assert(rest[i - 1] == sections[i]);
            }
        }
        if p < rest.len() {
            assert(rest[p] == sections[p + 1]);
        }
    }
}

pub proof fn lemma_section_with_key(sections: Seq<SectionTiles>, key: SectionKey)
    ensures
        0 <= section_with_key(sections, key) <= sections.len(),
        forall|i: int|
            0 <= i < section_with_key(sections, key) ==> (#[trigger] sections[i]).key != key,
        section_with_key(sections, key) < sections.len() ==> sections[section_with_key(
            sections,
            key,
        )].key == key,
    decreases sections.len(),
{
    if sections.len() > 0 && sections[0].key != key {
        let rest = sections.subrange(1, sections.len() as int);
        lemma_section_with_key(rest, key);
        let p = section_with_key(rest, key);
        assert forall|i: int| 0 <= i < p + 1 implies (#[trigger] sections[i]).key != key by {
            if i > 0 {
                assert(rest[i - 1] == sections[i]);
            }
        }
        if p < rest.len() {
            assert(rest[p] == sections[p + 1]);
        }
    }
}

proof fn lemma_section_with_key_is(sections: Seq<SectionTiles>, key: SectionKey, p: int)
    requires
        0 <= p <= sections.len(),
        forall|i: int| 0 <= i < p ==> (#[trigger] sections[i]).key != key,
        p < sections.len() ==> sections[p].key == key,
    ensures
        section_with_key(sections, key) == p,
{
    lemma_section_with_key(sections, key);
    let q = section_with_key(sections, key);
    if p < q {
        assert(sections[p].key != key);
    } else if q < p {
        assert(sections[q].key != key);
    }
}

// ---------------------------------------------------------------------------
// Taking tiles away

/// The sections without the tile `child`. A section that loses its last tile
/// goes with it.
pub open spec fn without_child(sections: Seq<SectionTiles>, child: u64) -> Seq<SectionTiles> {
    let at = section_with_child(sections, child);
    if at < sections.len() {
        let left = sections[at].tiles.remove(tile_position(sections[at].tiles, child));
        if left.len() == 0 {
            sections.remove(at)
        } else {
            sections.update(at, SectionTiles { tiles: left, ..sections[at] })
        }
    } else {
        sections
    }
}

/// The sections without the tiles of `items`, taken away one after the other.
pub open spec fn without_children(
    sections: Seq<SectionTiles>,
    items: Seq<DisplayedItem>,
) -> Seq<SectionTiles>
    decreases items.len(),
{
    if items.len() == 0 {
        sections
    } else {
        without_child(without_children(sections, items.drop_last()), items.last().flow_child)
    }
}

/// Does a list position fall among those removed?
pub open spec fn in_removed_range(index: int, position: int, end: int) -> bool {
    position <= index < end
}

/// The displayed photos that stay when the list loses the positions from
/// `position` up to `end`: those behind move up by `removed`.
pub open spec fn kept_displayed(
    displayed: Seq<DisplayedItem>,
    position: int,
    end: int,
    removed: u32,
) -> Seq<DisplayedItem>
    decreases displayed.len(),
{
    if displayed.len() == 0 {
        displayed
    } else {
        let front = kept_displayed(displayed.drop_last(), position, end, removed);
        let item = displayed.last();
        if in_removed_range(item.window_index as int, position, end) {
            front
        } else if item.window_index >= end {
            front.push(
                DisplayedItem { window_index: item.window_index.saturating_sub(removed), ..item },
            )
        } else {
            front.push(item)
        }
    }
}

/// The displayed photos that go when the list loses the positions from
/// `position` up to `end`.
pub open spec fn lost_displayed(
    displayed: Seq<DisplayedItem>,
    position: int,
    end: int,
) -> Seq<DisplayedItem>
    decreases displayed.len(),
{
    if displayed.len() == 0 {
        displayed
    } else {
        let front = lost_displayed(displayed.drop_last(), position, end);
        let item = displayed.last();
        if in_removed_range(item.window_index as int, position, end) {
            front.push(item)
        } else {
            front
        }
    }
}

/// `position + removed`, held at the largest list position.
pub open spec fn range_end(position: u32, removed: u32) -> int {
    position.saturating_add(removed) as int
}

/// The board after the list lost `removed` items at `position`.
pub open spec fn board_after_removal(board: BoardView, position: u32, removed: u32) -> BoardView {
    let end = range_end(position, removed);
    let lost = lost_displayed(board.displayed, position as int, end);
    BoardView {
        sections: without_children(board.sections, lost),
        displayed: kept_displayed(board.displayed, position as int, end, removed),
        extra: board.extra,
        next_child: board.next_child,
    }
}

impl Board {
    /// An empty board.
    pub fn new() -> (board: Board)
        ensures
            board@.wf(),
            board@.sections == Seq::<SectionTiles>::empty(),
            board@.displayed == Seq::<DisplayedItem>::empty(),
            board.extra is None,
            board.next_child == 0,
    {
        let board = Board {
            sections: Vec::new(),
            displayed: Vec::new(),
            extra: None,
            next_child: 0,
        };
        proof {
            assert(board@.sections =~= Seq::<SectionTiles>::empty());
            assert(tiles_of(board@.sections) =~= board@.tiles_used());
        }
        board
    }

    /// The list positions of the displayed photos, in grid order.
    pub fn displayed_indices(&self) -> (indices: Vec<u32>)
        ensures
            indices@ == self@.displayed.map_values(|item: DisplayedItem| item.window_index),
    {
        let mut indices: Vec<u32> = Vec::new();
        let mut i: usize = 0;
        while i < self.displayed.len()
            invariant
                i <= self.displayed@.len(),
                indices@.len() == i,
                forall|k: int| 0 <= k < i ==> indices@[k] == self.displayed@[k].window_index,
            decreases self.displayed@.len() - i,
        {
            indices.push(self.displayed[i].window_index);
            i += 1;
        }
        assert(indices@ =~= self@.displayed.map_values(|item: DisplayedItem| item.window_index));
        indices
    }

    /// The ids of the displayed photos, in grid order.
    pub fn displayed_ids(&self) -> (ids: Vec<i64>)
        ensures
            ids@ == self@.displayed.map_values(|item: DisplayedItem| item.media_id),
    {
        let mut ids: Vec<i64> = Vec::new();
        let mut i: usize = 0;
        while i < self.displayed.len()
            invariant
                i <= self.displayed@.len(),
                ids@.len() == i,
                forall|k: int| 0 <= k < i ==> ids@[k] == self.displayed@[k].media_id,
            decreases self.displayed@.len() - i,
        {
            ids.push(self.displayed[i].media_id);
            i += 1;
        }
        assert(ids@ =~= self@.displayed.map_values(|item: DisplayedItem| item.media_id));
        ids
    }

    /// The displayed photo that the tile `child` shows.
    pub fn displayed_item_for_child(&self, child: u64) -> (item: Option<DisplayedItem>)
        ensures
            item is Some <==> exists|k: int|
                0 <= k < self@.displayed.len() && (#[trigger] self@.displayed[k]).flow_child == child,
            item matches Some(found) ==> found.flow_child == child && self@.displayed.contains(
                found,
            ),
    {
        let mut i: usize = 0;
        while i < self.displayed.len()
            invariant
                i <= self.displayed@.len(),
                forall|k: int| 0 <= k < i ==> (#[trigger] self.displayed@[k]).flow_child != child,
            decreases self.displayed@.len() - i,
        {
            if self.displayed[i].flow_child == child {
                assert(self@.displayed[i as int].flow_child == child);
                return Some(self.displayed[i]);
            }
            i += 1;
        }
        None
    }

    /// Take the tile `child` away, and its section where it was the last.
    pub fn remove_displayed_child(&mut self, child: u64)
        ensures
            final(self)@.sections == without_child(old(self)@.sections, child),
            final(self)@.displayed == old(self)@.displayed,
            final(self)@.extra == old(self)@.extra,
            final(self)@.next_child == old(self)@.next_child,
    {
        let ghost before = self@.sections;
        let mut i: usize = 0;
        while i < self.sections.len()
            invariant
                self@ == old(self)@,
                before == self@.sections,
                i <= self.sections@.len(),
                forall|k: int| 0 <= k < i ==> !(#[trigger] before[k]).tiles.contains(child),
            decreases self.sections@.len() - i,
        {
            assert(before[i as int] == self.sections@[i as int]@);
            match find_tile(&self.sections[i].tiles, child) {
                Some(t) => {
                    proof {
                        lemma_section_with_child(before, child);
                        assert(section_with_child(before, child) == i) by {
                            let q = section_with_child(before, child);
                            if q < i {
                                assert(!before[q].tiles.contains(child));
                            } else if q > i {
                                assert(!before[i as int].tiles.contains(child));
                            }
                        }
                    }
                    let mut section: GridSection = self.sections.remove(i);
                    let _ = section.tiles.remove(t);
                    if !section.tiles.is_empty() {
                        self.sections.insert(i, section);
                    }
                    assert(self@.sections =~= without_child(before, child));
                    return;
                },
                None => {},
            }
            i += 1;
        }
        proof {
            lemma_section_with_child(before, child);
            let q = section_with_child(before, child);
            if q < before.len() {
                assert(!before[q].tiles.contains(child));
            }
        }
    }

    /// Follow a removal from the list: drop the tiles of the lost photos and
    /// move the photos behind them up. Returns the lost photos.
    pub fn remove_range(&mut self, position: u32, removed: u32) -> (lost: Vec<DisplayedItem>)
        ensures
            final(self)@ == board_after_removal(old(self)@, position, removed),
            lost@ == lost_displayed(
                old(self)@.displayed,
                position as int,
                range_end(position, removed),
            ),
    {
        let end: u32 = position.saturating_add(removed);
        let mut kept: Vec<DisplayedItem> = Vec::new();
        let mut lost: Vec<DisplayedItem> = Vec::new();
        let mut i: usize = 0;
        let ghost all = self.displayed@;
        assert(all.subrange(0, 0) =~= Seq::<DisplayedItem>::empty());
        while i < self.displayed.len()
            invariant
                self@ == old(self)@,
                all == self.displayed@,
                end == range_end(position, removed),
                i <= all.len(),
                kept@ == kept_displayed(
                    all.subrange(0, i as int),
                    position as int,
                    end as int,
                    removed,
                ),
                lost@ == lost_displayed(all.subrange(0, i as int), position as int, end as int),
            decreases all.len() - i,
        {
            proof {
                assert(all.subrange(0, i + 1).drop_last() =~= all.subrange(0, i as int));
                assert(all.subrange(0, i + 1).last() == all[i as int]);
            }
            let item: DisplayedItem = self.displayed[i];
            if item.window_index >= position && item.window_index < end {
                lost.push(item);
            } else if item.window_index >= end {
                kept.push(
                    DisplayedItem {
                        flow_child: item.flow_child,
                        window_index: item.window_index.saturating_sub(removed),
                        media_id: item.media_id,
                        section_key: item.section_key,
                    },
                );
            } else {
                kept.push(item);
            }
            i += 1;
        }
        assert(all.subrange(0, all.len() as int) =~= all);
        self.displayed = kept;
        let mut k: usize = 0;
        let ghost sections = self@.sections;
        assert(lost@.subrange(0, 0) =~= Seq::<DisplayedItem>::empty());
        while k < lost.len()
            invariant
                k <= lost@.len(),
                self@.displayed == kept@,
                self@.extra == old(self)@.extra,
                self@.next_child == old(self)@.next_child,
                self@.sections == without_children(sections, lost@.subrange(0, k as int)),
            decreases lost@.len() - k,
        {
            proof {
                assert(lost@.subrange(0, k + 1).drop_last() =~= lost@.subrange(0, k as int));
                assert(lost@.subrange(0, k + 1).last() == lost@[k as int]);
            }
            let child: u64 = lost[k].flow_child;
            self.remove_displayed_child(child);
            k += 1;
        }
        assert(lost@.subrange(0, lost@.len() as int) =~= lost@);
        lost
    }
}

fn find_tile(tiles: &Vec<u64>, child: u64) -> (place: Option<usize>)
    ensures
        place is Some <==> tiles@.contains(child),
        place matches Some(t) ==> t < tiles@.len() && t == tile_position(tiles@, child),
{
    let mut t: usize = 0;
    while t < tiles.len()
        invariant
            t <= tiles@.len(),
            forall|k: int| 0 <= k < t ==> #[trigger] tiles@[k] != child,
        decreases tiles@.len() - t,
    {
        if tiles[t] == child {
            proof {
                lemma_tile_position(tiles@, child);
                let q = tile_position(tiles@, child);
                if q < t {
                    assert(tiles@[q] != child);
                } else if q > t {
                    assert(tiles@[t as int] != child);
                }
                assert(tiles@.contains(tiles@[t as int]));
            }
            return Some(t);
        }
        t += 1;
    }
    None
}

// ---------------------------------------------------------------------------
// Placing tiles

/// The sections with new tiles placed in front of the tile at `slot` of section
/// `at`.
pub open spec fn with_children(
    sections: Seq<SectionTiles>,
    at: int,
    slot: int,
    children: Seq<u64>,
) -> Seq<SectionTiles> {
    let tiles = sections[at].tiles;
    sections.update(
        at,
        SectionTiles {
            tiles: tiles.subrange(0, slot) + children + tiles.subrange(slot, tiles.len() as int),
            ..sections[at]
        },
    )
}

/// Where a photo at list position `position` goes among the tiles of its
/// section: in front of the first tile that shows a photo of the section at
/// that position or behind it, or at the end.
pub open spec fn tile_slot(
    displayed: Seq<DisplayedItem>,
    tiles: Seq<u64>,
    key: SectionKey,
    position: u32,
) -> int
    decreases displayed.len(),
{
    if displayed.len() == 0 {
        tiles.len() as int
    } else {
        let front = tile_slot(displayed.drop_last(), tiles, key, position);
        let item = displayed.last();
        if item.section_key == key && item.window_index >= position && tile_position(
            tiles,
            item.flow_child,
        ) < front {
            tile_position(tiles, item.flow_child)
        } else {
            front
        }
    }
}

/// The displayed photos after the list grew by `added` items at `position`.
pub open spec fn shifted_displayed(
    displayed: Seq<DisplayedItem>,
    position: u32,
    added: u32,
) -> Seq<DisplayedItem> {
    displayed.map_values(
        |item: DisplayedItem|
            if item.window_index >= position {
                DisplayedItem { window_index: item.window_index.saturating_add(added), ..item }
            } else {
                item
            },
    )
}

/// The entries for the new photos that are ready to be shown; `items` are the
/// photos at `position` and behind it.
pub open spec fn fresh_displayed(
    items: Seq<MediaItem>,
    ready: Seq<bool>,
    position: u32,
    key: SectionKey,
    next: u64,
) -> Seq<DisplayedItem>
    decreases items.len(),
{
    if items.len() == 0 {
        Seq::empty()
    } else {
        let front = fresh_displayed(items.drop_last(), ready, position, key, next);
        if ready[items.len() - 1] {
            front.push(
                DisplayedItem {
                    flow_child: (next + front.len()) as u64,
                    window_index: (position + items.len() - 1) as u32,
                    media_id: items.last().id,
                    section_key: key,
                },
            )
        } else {
            front
        }
    }
}

/// The place of a photo among others that stand in list order: behind all those
/// not behind it.
pub open spec fn index_slot(displayed: Seq<DisplayedItem>, item: DisplayedItem) -> int
    decreases displayed.len(),
{
    if displayed.len() == 0 || displayed[0].window_index > item.window_index {
        0
    } else {
        1 + index_slot(displayed.subrange(1, displayed.len() as int), item)
    }
}

/// Displayed photos put in list order; photos of one position keep their order.
pub open spec fn in_list_order(displayed: Seq<DisplayedItem>) -> Seq<DisplayedItem>
    decreases displayed.len(),
{
    if displayed.len() == 0 {
        displayed
    } else {
        let front = in_list_order(displayed.drop_last());
        front.insert(index_slot(front, displayed.last()), displayed.last())
    }
}

/// The tiles named by a list of displayed photos.
pub open spec fn children_of(displayed: Seq<DisplayedItem>) -> Seq<u64> {
    displayed.map_values(|item: DisplayedItem| item.flow_child)
}

/// The board after the photos `items` entered the list at `position`, all of
/// them in the section `key`; those that are not ready stay off the board.
pub open spec fn board_after_addition(
    board: BoardView,
    items: Seq<MediaItem>,
    ready: Seq<bool>,
    position: u32,
    key: SectionKey,
) -> BoardView {
    let at = section_with_key(board.sections, key);
    let slot = tile_slot(board.displayed, board.sections[at].tiles, key, position);
    let fresh = fresh_displayed(items, ready, position, key, board.next_child);
    BoardView {
        sections: with_children(board.sections, at, slot, children_of(fresh)),
        displayed: in_list_order(
            shifted_displayed(board.displayed, position, items.len() as u32) + fresh,
        ),
        extra: board.extra,
        next_child: (board.next_child + fresh.len()) as u64,
    }
}

pub proof fn lemma_index_slot(displayed: Seq<DisplayedItem>, item: DisplayedItem)
    ensures
        0 <= index_slot(displayed, item) <= displayed.len(),
        forall|i: int|
            0 <= i < index_slot(displayed, item) ==> (#[trigger] displayed[i]).window_index
                <= item.window_index,
        index_slot(displayed, item) < displayed.len() ==> displayed[index_slot(
            displayed,
            item,
        )].window_index > item.window_index,
    decreases displayed.len(),
{
    if displayed.len() > 0 && displayed[0].window_index <= item.window_index {
        let rest = displayed.subrange(1, displayed.len() as int);
        lemma_index_slot(rest, item);
        let p = index_slot(rest, item);
        assert forall|i: int| 0 <= i < p + 1 implies (#[trigger] displayed[i]).window_index
            <= item.window_index by {
            if i > 0 {
                assert(rest[i - 1] == displayed[i]);
            }
        }
        if p < rest.len() {
            assert(rest[p] == displayed[p + 1]);
        }
    }
}

fn sort_by_window_index(displayed: &Vec<DisplayedItem>) -> (sorted: Vec<DisplayedItem>)
    ensures
        sorted@ == in_list_order(displayed@),
{
    let mut sorted: Vec<DisplayedItem> = Vec::new();
    let mut i: usize = 0;
    assert(displayed@.subrange(0, 0) =~= Seq::<DisplayedItem>::empty());
    while i < displayed.len()
        invariant
            i <= displayed@.len(),
            sorted@ == in_list_order(displayed@.subrange(0, i as int)),
        decreases displayed@.len() - i,
    {
        let item: DisplayedItem = displayed[i];
        let mut p: usize = 0;
        while p < sorted.len() && sorted[p].window_index <= item.window_index
            invariant
                p <= sorted@.len(),
                forall|k: int|
                    0 <= k < p ==> (#[trigger] sorted@[k]).window_index <= item.window_index,
            decreases sorted@.len() - p,
        {
            p += 1;
        }
        proof {
            lemma_index_slot(sorted@, item);
            let q = index_slot(sorted@, item);
            if q < p {
                assert(sorted@[q].window_index <= item.window_index);
            } else if p < q {
                assert(sorted@[p as int].window_index <= item.window_index);
            }
            assert(displayed@.subrange(0, i + 1).drop_last() =~= displayed@.subrange(0, i as int));
            assert(displayed@.subrange(0, i + 1).last() == item);
        }
        sorted.insert(p, item);
        i += 1;
    }
    assert(displayed@.subrange(0, displayed@.len() as int) =~= displayed@);
    sorted
}

pub proof fn lemma_tile_slot(
    displayed: Seq<DisplayedItem>,
    tiles: Seq<u64>,
    key: SectionKey,
    position: u32,
)
    ensures
        0 <= tile_slot(displayed, tiles, key, position) <= tiles.len(),
    decreases displayed.len(),
{
    if displayed.len() > 0 {
        lemma_tile_slot(displayed.drop_last(), tiles, key, position);
        lemma_tile_position(tiles, displayed.last().flow_child);
    }
}

pub proof fn lemma_fresh_len(
    items: Seq<MediaItem>,
    ready: Seq<bool>,
    position: u32,
    key: SectionKey,
    next: u64,
)
    ensures
        fresh_displayed(items, ready, position, key, next).len() <= items.len(),
    decreases items.len(),
{
    if items.len() > 0 {
        lemma_fresh_len(items.drop_last(), ready, position, key, next);
    }
}

impl Board {
    /// The section with `key`.
    pub fn find_section(&self, key: SectionKey) -> (place: Option<usize>)
        ensures
            place is Some <==> section_with_key(self@.sections, key) < self@.sections.len(),
            place matches Some(i) ==> i == section_with_key(self@.sections, key),
    {
        let mut i: usize = 0;
        while i < self.sections.len()
            invariant
                i <= self.sections@.len(),
                forall|k: int| 0 <= k < i ==> (#[trigger] self@.sections[k]).key != key,
            decreases self.sections@.len() - i,
        {
            assert(self@.sections[i as int] == self.sections@[i as int]@);
            if self.sections[i].key == key {
                proof {
                    lemma_section_with_key_is(self@.sections, key, i as int);
                }
                return Some(i);
            }
            i += 1;
        }
        proof {
            lemma_section_with_key_is(self@.sections, key, i as int);
        }
        None
    }

    /// Where a photo at list position `position` goes in section `at`.
    fn find_slot(&self, at: usize, key: SectionKey, position: u32) -> (slot: usize)
        requires
            at < self.sections@.len(),
        ensures
            slot == tile_slot(self@.displayed, self@.sections[at as int].tiles, key, position),
            slot <= self@.sections[at as int].tiles.len(),
    {
        let tiles: &Vec<u64> = &self.sections[at].tiles;
        let mut slot: usize = tiles.len();
        let mut i: usize = 0;
        let ghost all = self.displayed@;
        assert(all.subrange(0, 0) =~= Seq::<DisplayedItem>::empty());
        while i < self.displayed.len()
            invariant
                all == self.displayed@,
                i <= all.len(),
                slot == tile_slot(all.subrange(0, i as int), tiles@, key, position),
                slot <= tiles@.len(),
            decreases all.len() - i,
        {
            let item: DisplayedItem = self.displayed[i];
            proof {
                assert(all.subrange(0, i + 1).drop_last() =~= all.subrange(0, i as int));
                assert(all.subrange(0, i + 1).last() == item);
                lemma_tile_position(tiles@, item.flow_child);
            }
            if item.section_key == key && item.window_index >= position {
                match find_tile(tiles, item.flow_child) {
                    Some(t) => {
                        if t < slot {
                            slot = t;
                        }
                    },
                    None => {},
                }
            }
            i += 1;
        }
        assert(all.subrange(0, all.len() as int) =~= all);
        slot
    }

    /// Put the tiles `children` in front of the tile at `slot` of section `at`.
    fn place_children(&mut self, at: usize, slot: usize, children: Vec<u64>)
        requires
            at < old(self).sections@.len(),
            slot <= old(self)@.sections[at as int].tiles.len(),
        ensures
            final(self)@.sections == with_children(
                old(self)@.sections,
                at as int,
                slot as int,
                children@,
            ),
            final(self)@.displayed == old(self)@.displayed,
            final(self)@.extra == old(self)@.extra,
            final(self)@.next_child == old(self)@.next_child,
    {
        let ghost before = self@.sections;
        let mut section: GridSection = self.sections.remove(at);
        let mut tail: Vec<u64> = section.tiles.split_off(slot);
        let mut middle: Vec<u64> = children;
        section.tiles.append(&mut middle);
        section.tiles.append(&mut tail);
        self.sections.insert(at, section);
        assert(self@.sections =~= with_children(before, at as int, slot as int, children@));
    }

    /// Follow an insertion into the list: move the photos behind it down and
    /// place tiles for the new photos that are ready. All new photos belong to
    /// the section `key`, which is on the board.
    pub fn add_range(
        &mut self,
        items: &Vec<MediaItem>,
        ready: &Vec<bool>,
        position: u32,
        key: SectionKey,
    )
        requires
            section_with_key(old(self)@.sections, key) < old(self)@.sections.len(),
            items@.len() == ready@.len(),
            position + items@.len() <= u32::MAX,
            old(self).next_child + items@.len() <= u64::MAX,
        ensures
            final(self)@ == board_after_addition(old(self)@, items@, ready@, position, key),
    {
        let ghost start = self@;
        let at: usize = self.find_section(key).unwrap();
        let slot: usize = self.find_slot(at, key, position);
        let added: u32 = items.len() as u32;
        let mut all: Vec<DisplayedItem> = Vec::new();
        let mut i: usize = 0;
        while i < self.displayed.len()
            invariant
                self@ == start,
                i <= self.displayed@.len(),
                all@.len() == i,
                forall|k: int|
                    0 <= k < i ==> all@[k] == shifted_displayed(
                        self.displayed@,
                        position,
                        added,
                    )[k],
            decreases self.displayed@.len() - i,
        {
            let item: DisplayedItem = self.displayed[i];
            if item.window_index >= position {
                all.push(
                    DisplayedItem {
                        flow_child: item.flow_child,
                        window_index: item.window_index.saturating_add(added),
                        media_id: item.media_id,
                        section_key: item.section_key,
                    },
                );
            } else {
                all.push(item);
            }
            i += 1;
        }
        let ghost shifted = shifted_displayed(start.displayed, position, added);
        assert(all@ =~= shifted);
        let mut children: Vec<u64> = Vec::new();
        let mut k: usize = 0;
        let ghost mut fresh = Seq::<DisplayedItem>::empty();
        assert(items@.subrange(0, 0) =~= Seq::<MediaItem>::empty());
        assert(children_of(fresh) =~= children@);
        assert(all@ =~= shifted + fresh);
        while k < items.len()
            invariant
                self@ == start,
                k <= items@.len(),
                items@.len() == ready@.len(),
                position + items@.len() <= u32::MAX,
                start.next_child + items@.len() <= u64::MAX,
                fresh == fresh_displayed(
                    items@.subrange(0, k as int),
                    ready@,
                    position,
                    key,
                    start.next_child,
                ),
                fresh.len() <= k,
                children@ == children_of(fresh),
                all@ == shifted + fresh,
            decreases items@.len() - k,
        {
            proof {
                let now = items@.subrange(0, k + 1);
                assert(now.drop_last() =~= items@.subrange(0, k as int));
                assert(now.last() == items@[k as int]);
            }
            if ready[k] {
                let child: u64 = self.next_child + children.len() as u64;
                let item = DisplayedItem {
                    flow_child: child,
                    window_index: position + k as u32,
                    media_id: items[k].id,
                    section_key: key,
                };
                all.push(item);
                children.push(child);
                proof {
                    let before = fresh;
                    fresh = before.push(item);
                    assert(children@ =~= children_of(fresh));
                    assert(all@ =~= shifted + fresh);
                }
            }
            k += 1;
        }
        assert(items@.subrange(0, items@.len() as int) =~= items@);
        let placed: u64 = children.len() as u64;
        self.place_children(at, slot, children);
        self.displayed = sort_by_window_index(&all);
        self.next_child = self.next_child + placed;
    }
}

// ---------------------------------------------------------------------------
// Building a board

/// The last position with `uri`, or -1.
pub open spec fn last_uri_index(items: Seq<MediaItem>, uri: Seq<char>) -> int
    decreases items.len(),
{
    if items.len() == 0 {
        -1
    } else if items.last().uri@ == uri {
        items.len() - 1
    } else {
        last_uri_index(items.drop_last(), uri)
    }
}

/// What the header of a section says: its library-wide photo count where that
/// is known, else the number of loaded photos.
pub open spec fn header_label(
    key: SectionKey,
    loaded: int,
    counts: Option<Map<SectionKey, u32>>,
) -> HeaderLabel {
    let count = match counts {
        Some(known) => if known.dom().contains(key) {
            known[key]
        } else {
            loaded as u32
        },
        None => loaded as u32,
    };
    HeaderLabel { key, count }
}

/// The entries of one section, its tiles numbered from `start`.
pub open spec fn displayed_run(
    items: Seq<MediaItem>,
    group: SectionGroup,
    start: int,
) -> Seq<DisplayedItem> {
    Seq::new(
        group.members.len(),
        |m: int|
            DisplayedItem {
                flow_child: (start + m) as u64,
                window_index: last_uri_index(items, items[group.members[m] as int].uri@) as u32,
                media_id: items[group.members[m] as int].id,
                section_key: group.key,
            },
    )
}

/// The displayed photos of a freshly built board: section after section.
pub open spec fn built_displayed(
    items: Seq<MediaItem>,
    groups: Seq<SectionGroup>,
) -> Seq<DisplayedItem>
    decreases groups.len(),
{
    if groups.len() == 0 {
        Seq::empty()
    } else {
        let front = built_displayed(items, groups.drop_last());
        front + displayed_run(items, groups.last(), front.len() as int)
    }
}

/// The sections of a freshly built board. A group without photos makes none.
pub open spec fn built_sections(
    items: Seq<MediaItem>,
    groups: Seq<SectionGroup>,
    flat: bool,
    counts: Option<Map<SectionKey, u32>>,
) -> Seq<SectionTiles>
    decreases groups.len(),
{
    if groups.len() == 0 {
        Seq::empty()
    } else {
        let front = built_sections(items, groups.drop_last(), flat, counts);
        let group = groups.last();
        if group.members.len() == 0 {
            front
        } else {
            let start = built_displayed(items, groups.drop_last()).len();
            front.push(
                SectionTiles {
                    key: group.key,
                    header: if flat {
                        None
                    } else {
                        Some(header_label(group.key, group.members.len() as int, counts))
                    },
                    tiles: Seq::new(group.members.len(), |m: int| (start + m) as u64),
                },
            )
        }
    }
}

/// A freshly built board.
pub open spec fn built_board(
    items: Seq<MediaItem>,
    groups: Seq<SectionGroup>,
    flat: bool,
    counts: Option<Map<SectionKey, u32>>,
) -> BoardView {
    BoardView {
        sections: built_sections(items, groups, flat, counts),
        displayed: built_displayed(items, groups),
        extra: None,
        next_child: built_displayed(items, groups).len() as u64,
    }
}

/// The counts that a board's headers may draw on.
pub open spec fn counts_view(counts: Option<&SectionCounts>) -> Option<Map<SectionKey, u32>> {
    match counts {
        Some(known) => Some(known@),
        None => None,
    }
}

/// The last position of `uri` in the list.
fn find_last_uri(list: &MediaList, uri: &String) -> (place: Option<u32>)
    requires
        list.wf(),
    ensures
        place is Some <==> last_uri_index(list@.items, uri@) >= 0,
        place matches Some(i) ==> i == last_uri_index(list@.items, uri@),
{
    let ghost items = list@.items;
    let mut i: u32 = list.n_items();
    assert(items.subrange(0, items.len() as int) =~= items);
    while i > 0
        invariant
            items == list@.items,
            i <= items.len(),
            last_uri_index(items, uri@) == last_uri_index(items.subrange(0, i as int), uri@),
        decreases i,
    {
        let item: &MediaItem = list.item(i - 1).unwrap();
        assert(items.subrange(0, i as int).last() == items[i - 1]);
        assert(items.subrange(0, i as int).drop_last() =~= items.subrange(0, i - 1));
        if item.uri == *uri {
            return Some(i - 1);
        }
        i -= 1;
    }
    None
}

pub proof fn lemma_last_uri_index(items: Seq<MediaItem>, at: int)
    requires
        0 <= at < items.len(),
    ensures
        at <= last_uri_index(items, items[at].uri@) < items.len(),
        items[last_uri_index(items, items[at].uri@)].uri@ == items[at].uri@,
    decreases items.len(),
{
    if items.last().uri@ != items[at].uri@ {
        assert(items.drop_last()[at] == items[at]);
        lemma_last_uri_index(items.drop_last(), at);
        let k = last_uri_index(items.drop_last(), items[at].uri@);
        assert(items.drop_last()[k] == items[k]);
    }
}

/// What the header of `section` says.
fn label_for(section: &MediaSection, counts: Option<&SectionCounts>) -> (label: HeaderLabel)
    requires
        counts matches Some(known) ==> known.wf(),
        section.members@.len() <= u32::MAX,
    ensures
        label == header_label(section.key, section.members@.len() as int, counts_view(counts)),
{
    let loaded: u32 = section.members.len() as u32;
    let count: u32 = match counts {
        Some(known) => match known.get(section.key) {
            Some(count) => count,
            None => loaded,
        },
        None => loaded,
    };
    HeaderLabel { key: section.key, count }
}

impl Board {
    /// Build a board for the sections of a grouped list. Tiles are numbered
    /// anew, in grid order.
    pub fn build(
        list: &MediaList,
        sections: &Vec<MediaSection>,
        flat: bool,
        counts: Option<&SectionCounts>,
    ) -> (board: Board)
        requires
            list.wf(),
            counts matches Some(known) ==> known.wf(),
            forall|g: int, m: int|
                #![trigger groups_of(sections@)[g].members[m]]
                0 <= g < sections@.len() && 0 <= m < groups_of(sections@)[g].members.len()
                    ==> groups_of(sections@)[g].members[m] < list@.items.len(),
            forall|g: int|
                0 <= g < sections@.len() ==> (#[trigger] groups_of(sections@)[g]).members.len()
                    <= u32::MAX,
        ensures
            board@ == built_board(list@.items, groups_of(sections@), flat, counts_view(counts)),
            built_displayed(list@.items, groups_of(sections@)).len() <= u64::MAX,
    {
        let ghost groups = groups_of(sections@);
        let mut out = Board {
            sections: Vec::new(),
            displayed: Vec::new(),
            extra: None,
            next_child: 0,
        };
        let mut g: usize = 0;
        assert(groups.subrange(0, 0) =~= Seq::<SectionGroup>::empty());
        assert(out@.sections =~= Seq::<SectionTiles>::empty());
        while g < sections.len()
            invariant
                list.wf(),
                counts matches Some(known) ==> known.wf(),
                groups == groups_of(sections@),
                g <= sections@.len(),
                forall|g: int, m: int|
                    #![trigger groups[g].members[m]]
                    0 <= g < sections@.len() && 0 <= m < groups[g].members.len()
                        ==> groups[g].members[m] < list@.items.len(),
                forall|g: int|
                    0 <= g < sections@.len() ==> (#[trigger] groups[g]).members.len() <= u32::MAX,
                out@.sections == built_sections(
                    list@.items,
                    groups.subrange(0, g as int),
                    flat,
                    counts_view(counts),
                ),
                out@.displayed == built_displayed(list@.items, groups.subrange(0, g as int)),
                out.extra is None,
            decreases sections@.len() - g,
        {
            let section: &MediaSection = &sections[g];
            let ghost group = groups[g as int];
            let ghost before = out@;
            assert(group == section@);
            let start: usize = out.displayed.len();
            let mut tiles: Vec<u64> = Vec::new();
            let mut m: usize = 0;
            while m < section.members.len()
                invariant
                    list.wf(),
                    group == section@,
                    m <= section.members@.len(),
                    start == before.displayed.len(),
                    out@.sections == before.sections,
                    out.extra is None,
                    forall|k: int|
                        0 <= k < section.members@.len() ==> #[trigger] section.members@[k]
                            < list@.items.len(),
                    tiles@.len() == m,
                    forall|k: int| 0 <= k < m ==> tiles@[k] == (start + k) as u64,
                    out.displayed@.len() == start + m,
                    out.displayed@ =~= before.displayed + displayed_run(
                        list@.items,
                        group,
                        start as int,
                    ).subrange(0, m as int),
                decreases section.members@.len() - m,
            {
                let index: u32 = section.members[m] as u32;
                let item: &MediaItem = list.item(index).unwrap();
                proof {
                    lemma_last_uri_index(list@.items, index as int);
                }
                let window_index: u32 = find_last_uri(list, &item.uri).unwrap();
                let child: u64 = out.displayed.len() as u64;
                out.displayed.push(
                    DisplayedItem {
                        flow_child: child,
                        window_index,
                        media_id: item.id,
                        section_key: section.key,
                    },
                );
                tiles.push(child);
                m += 1;
            }
            proof {
                let run = displayed_run(list@.items, group, start as int);
                assert(run.subrange(0, run.len() as int) =~= run);
                let now = groups.subrange(0, g + 1);
                assert(now.drop_last() =~= groups.subrange(0, g as int));
                assert(now.last() == group);
                assert(tiles@ =~= Seq::new(group.members.len(), |m: int| (start + m) as u64));
            }
            if !tiles.is_empty() {
                let header: Option<HeaderLabel> = if flat {
                    None
                } else {
                    Some(label_for(section, counts))
                };
                out.sections.push(GridSection { key: section.key, header, tiles });
                assert(out@.sections =~= before.sections.push(out.sections@.last()@));
            }
            g += 1;
        }
        assert(groups.subrange(0, groups.len() as int) =~= groups);
        out.next_child = out.displayed.len() as u64;
        out
    }
}

// ---------------------------------------------------------------------------
// Single tiles and headers

/// Is a photo of the section `key` displayed?
pub open spec fn shows_section(displayed: Seq<DisplayedItem>, key: SectionKey) -> bool {
    exists|k: int| 0 <= k < displayed.len() && (#[trigger] displayed[k]).section_key == key
}

/// Is the photo `id` displayed?
pub open spec fn shows_photo(displayed: Seq<DisplayedItem>, id: i64) -> bool {
    exists|k: int| 0 <= k < displayed.len() && (#[trigger] displayed[k]).media_id == id
}

/// The board with a tile for a photo that has been in the list at `index` for a
/// while, in its section `key`.
pub open spec fn board_with_photo(
    board: BoardView,
    id: i64,
    index: u32,
    key: SectionKey,
) -> BoardView {
    let at = section_with_key(board.sections, key);
    let slot = tile_slot(board.displayed, board.sections[at].tiles, key, index);
    let item = DisplayedItem {
        flow_child: board.next_child,
        window_index: index,
        media_id: id,
        section_key: key,
    };
    BoardView {
        sections: with_children(board.sections, at, slot, seq![board.next_child]),
        displayed: in_list_order(board.displayed.push(item)),
        extra: board.extra,
        next_child: (board.next_child + 1) as u64,
    }
}

/// Tiles without the extra child.
pub open spec fn without_extra(tiles: Seq<u64>, extra: Option<u64>) -> Seq<u64> {
    match extra {
        Some(child) => if tiles.contains(child) {
            tiles.remove(tile_position(tiles, child))
        } else {
            tiles
        },
        None => tiles,
    }
}

/// The board with the extra child put behind all photos of the last section,
/// and taken from where it was.
pub open spec fn board_with_extra(board: BoardView) -> BoardView {
    if board.sections.len() == 0 {
        board
    } else {
        let last = board.sections.last();
        BoardView {
            sections: board.sections.update(
                board.sections.len() - 1,
                SectionTiles {
                    tiles: without_extra(last.tiles, board.extra).push(board.next_child),
                    ..last
                },
            ),
            displayed: board.displayed,
            extra: Some(board.next_child),
            next_child: (board.next_child + 1) as u64,
        }
    }
}

/// The sections with their headers renewed, the first header from the first
/// group and so on.
pub open spec fn relabelled(
    sections: Seq<SectionTiles>,
    groups: Seq<SectionGroup>,
    counts: Option<Map<SectionKey, u32>>,
) -> Seq<SectionTiles> {
    Seq::new(
        sections.len(),
        |i: int|
            if i < groups.len() && sections[i].header is Some {
                SectionTiles {
                    header: Some(
                        header_label(groups[i].key, groups[i].members.len() as int, counts),
                    ),
                    ..sections[i]
                }
            } else {
                sections[i]
            },
    )
}

impl Board {
    /// Is a photo of the section `key` displayed?
    pub fn shows_section(&self, key: SectionKey) -> (shown: bool)
        ensures
            shown == shows_section(self@.displayed, key),
    {
        let mut i: usize = 0;
        while i < self.displayed.len()
            invariant
                i <= self.displayed@.len(),
                forall|k: int| 0 <= k < i ==> (#[trigger] self.displayed@[k]).section_key != key,
            decreases self.displayed@.len() - i,
        {
            if self.displayed[i].section_key == key {
                assert(self@.displayed[i as int].section_key == key);
                return true;
            }
            i += 1;
        }
        false
    }

    /// Is the photo `id` displayed?
    pub fn shows_photo(&self, id: i64) -> (shown: bool)
        ensures
            shown == shows_photo(self@.displayed, id),
    {
        let mut i: usize = 0;
        while i < self.displayed.len()
            invariant
                i <= self.displayed@.len(),
                forall|k: int| 0 <= k < i ==> (#[trigger] self.displayed@[k]).media_id != id,
            decreases self.displayed@.len() - i,
        {
            if self.displayed[i].media_id == id {
                assert(self@.displayed[i as int].media_id == id);
                return true;
            }
            i += 1;
        }
        false
    }

    /// Place a tile for the photo `id`, which is at list position `index`, in
    /// its section.
    pub fn add_photo(&mut self, id: i64, index: u32, key: SectionKey)
        requires
            section_with_key(old(self)@.sections, key) < old(self)@.sections.len(),
            old(self).next_child < u64::MAX,
        ensures
            final(self)@ == board_with_photo(old(self)@, id, index, key),
    {
        let at: usize = self.find_section(key).unwrap();
        let slot: usize = self.find_slot(at, key, index);
        let child: u64 = self.next_child;
        let mut children: Vec<u64> = Vec::new();
        children.push(child);
        assert(children@ =~= seq![child]);
        self.place_children(at, slot, children);
        self.displayed.push(
            DisplayedItem { flow_child: child, window_index: index, media_id: id, section_key: key },
        );
        self.displayed = sort_by_window_index(&self.displayed);
        self.next_child = child + 1;
    }

    /// Put the extra child behind all photos; an extra child that is already on
    /// the board moves there. Nothing happens while there is no section.
    pub fn append_extra(&mut self)
        requires
            old(self).next_child < u64::MAX,
        ensures
            final(self)@ == board_with_extra(old(self)@),
    {
        if self.sections.is_empty() {
            assert(self@ =~= board_with_extra(self@));
            return;
        }
        let ghost before = self@;
        let last: usize = self.sections.len() - 1;
        let mut section: GridSection = self.sections.remove(last);
        match self.extra {
            Some(extra) => {
                match find_tile(&section.tiles, extra) {
                    Some(t) => {
                        let _ = section.tiles.remove(t);
                    },
                    None => {},
                }
            },
            None => {},
        }
        let child: u64 = self.next_child;
        section.tiles.push(child);
        self.sections.push(section);
        self.extra = Some(child);
        self.next_child = child + 1;
        assert(self@.sections =~= board_with_extra(before).sections);
    }

    /// Renew the headers after the list or the counts changed.
    pub fn relabel(&mut self, groups: &Vec<MediaSection>, counts: Option<&SectionCounts>)
        requires
            counts matches Some(known) ==> known.wf(),
            forall|g: int|
                0 <= g < groups@.len() ==> (#[trigger] groups_of(groups@)[g]).members.len()
                    <= u32::MAX,
        ensures
            final(self)@ == (BoardView {
                sections: relabelled(
                    old(self)@.sections,
                    groups_of(groups@),
                    counts_view(counts),
                ),
                ..old(self)@
            }),
    {
        let ghost before = self@;
        let ghost views = groups_of(groups@);
        let mut i: usize = 0;
        while i < self.sections.len() && i < groups.len()
            invariant
                views == groups_of(groups@),
                counts matches Some(known) ==> known.wf(),
                forall|g: int|
                    0 <= g < groups@.len() ==> (#[trigger] views[g]).members.len() <= u32::MAX,
                i <= self.sections@.len(),
                i <= groups@.len(),
                self.sections@.len() == before.sections.len(),
                self@.displayed == before.displayed,
                self@.extra == before.extra,
                self@.next_child == before.next_child,
                forall|k: int|
                    0 <= k < i ==> self@.sections[k] == relabelled(
                        before.sections,
                        views,
                        counts_view(counts),
                    )[k],
                forall|k: int|
                    i <= k < before.sections.len() ==> self@.sections[k] == before.sections[k],
            decreases self.sections@.len() - i,
        {
            assert(self@.sections[i as int] == self.sections@[i as int]@);
            assert(views[i as int] == groups@[i as int]@);
            let ghost now = self@.sections;
            if self.sections[i].header.is_some() {
                let label: HeaderLabel = label_for(&groups[i], counts);
                let mut section: GridSection = self.sections.remove(i);
                section.header = Some(label);
                self.sections.insert(i, section);
                proof {
                    assert forall|k: int| 0 <= k < before.sections.len() && k != i implies self@.sections[k]
                        == now[k] by {
                        assert(self.sections@[k]@ == now[k]);
                    }
                }
            }
            assert(self@.sections[i as int] == relabelled(
                before.sections,
                views,
                counts_view(counts),
            )[i as int]) by {
                assert(self@.sections[i as int] == self.sections@[i as int]@);
                assert(now[i as int] == before.sections[i as int]);
            }
            assert forall|k: int| 0 <= k < i implies self@.sections[k] == relabelled(
                before.sections,
                views,
                counts_view(counts),
            )[k] by {
                assert(self@.sections[k] == now[k]);
            }
            i += 1;
        }
        assert(self@.sections =~= relabelled(before.sections, views, counts_view(counts)));
    }
}

} // verus!
