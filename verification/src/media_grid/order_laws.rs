//! The order of tiles on screen is the order of the list.

use super::board::{
    board_after_addition, board_after_removal, board_with_extra, board_with_photo, built_displayed,
    built_sections, children_of, displayed_run, fresh_displayed, in_list_order,
    in_removed_range, kept_displayed, last_uri_index, lemma_last_uri_index,
    lemma_section_with_child, lemma_section_with_key, lemma_tile_position, lemma_tile_slot,
    lost_displayed, range_end, section_with_child, section_with_key, shifted_displayed,
    tile_position, tile_slot, tiles_of, tiles_shown, with_children, without_child,
    without_children, BoardView, DisplayedItem, SectionTiles,
};
use super::board_laws::{
    displayed_sections_exist, lemma_fresh, lemma_in_list_order, lemma_kept, points_at,
};
use super::rebuild::{lemma_shown_groups, shown_groups};
use super::sections::{grouping_places_every_photo, members_in_order, SectionGroup};
use super::state::GridView;
use super::updates::{ChangeAnswer, DeferredInsert};
use crate::apply_to_media_list::{lemma_uri_position, uri_position};
use crate::media::{distinct_uris, section_of, GroupBy, MediaItem, SectionKey};
use crate::media_list::{edit_fits, edited, EditView};
use vstd::prelude::*;

verus! {

/// Do the tiles of every section, read in order, show photos of ever later list
/// positions?
pub open spec fn tiles_follow_list(
    sections: Seq<SectionTiles>,
    displayed: Seq<DisplayedItem>,
) -> bool {
    forall|i: int, t: int, u: int, a: int, b: int|
        #![trigger sections[i].tiles[t], sections[i].tiles[u], displayed[a], displayed[b]]
        0 <= i < sections.len() && 0 <= t < u < sections[i].tiles.len() && 0 <= a < displayed.len()
            && 0 <= b < displayed.len() && displayed[a].flow_child == sections[i].tiles[t]
            && displayed[b].flow_child == sections[i].tiles[u] ==> displayed[a].window_index
            < displayed[b].window_index
}

/// A displayed photo whose tile stands in a section belongs to that section, and
/// its tile was handed out before.
proof fn lemma_shown_in_section(board: BoardView, i: int, t: int, a: int)
    requires
        board.wf(),
        0 <= i < board.sections.len(),
        0 <= t < board.sections[i].tiles.len(),
        0 <= a < board.displayed.len(),
        board.displayed[a].flow_child == board.sections[i].tiles[t],
    ensures
        board.displayed[a].section_key == board.sections[i].key,
{
    let item = board.displayed[a];
    let tile = (item.section_key, item.flow_child);
    assert(tiles_shown(board.displayed).contains(tile));
    assert(board.tiles_used().contains(tile));
    assert(tiles_of(board.sections).contains(tile));
    let (j, u) = choose|j: int, u: int|
        #![trigger board.sections[j].tiles[u]]
        0 <= j < board.sections.len() && 0 <= u < board.sections[j].tiles.len()
            && board.sections[j].key == tile.0 && board.sections[j].tiles[u] == tile.1;
    assert(board.sections[i].tiles[t] == board.sections[j].tiles[u]);
}

/// Every displayed photo has its tile somewhere on the board.
proof fn lemma_shown_has_tile(board: BoardView, a: int) -> (place: (int, int))
    requires
        board.wf(),
        0 <= a < board.displayed.len(),
    ensures
        0 <= place.0 < board.sections.len(),
        0 <= place.1 < board.sections[place.0].tiles.len(),
        board.sections[place.0].tiles[place.1] == board.displayed[a].flow_child,
        board.sections[place.0].key == board.displayed[a].section_key,
        board.displayed[a].flow_child < board.next_child,
{
    let item = board.displayed[a];
    let tile = (item.section_key, item.flow_child);
    assert(tiles_shown(board.displayed).contains(tile));
    assert(board.tiles_used().contains(tile));
    assert(tiles_of(board.sections).contains(tile));
    let (j, u) = choose|j: int, u: int|
        #![trigger board.sections[j].tiles[u]]
        0 <= j < board.sections.len() && 0 <= u < board.sections[j].tiles.len()
            && board.sections[j].key == tile.0 && board.sections[j].tiles[u] == tile.1;
    assert(board.sections[j].tiles[u] < board.next_child);
    (j, u)
}

// ---------------------------------------------------------------------------
// Placing tiles

proof fn lemma_slot(
    displayed: Seq<DisplayedItem>,
    tiles: Seq<u64>,
    key: SectionKey,
    position: u32,
)
    ensures
        forall|a: int|
            0 <= a < displayed.len() && (#[trigger] displayed[a]).section_key == key
                && displayed[a].window_index >= position ==> tile_position(
                tiles,
                displayed[a].flow_child,
            ) >= tile_slot(displayed, tiles, key, position),
        tile_slot(displayed, tiles, key, position) < tiles.len() ==> exists|a: int|
            0 <= a < displayed.len() && (#[trigger] displayed[a]).section_key == key
                && displayed[a].window_index >= position && tile_position(
                tiles,
                displayed[a].flow_child,
            ) == tile_slot(displayed, tiles, key, position),
    decreases displayed.len(),
{
    if displayed.len() > 0 {
        let front = displayed.drop_last();
        lemma_slot(front, tiles, key, position);
        let slot = tile_slot(displayed, tiles, key, position);
        let before = tile_slot(front, tiles, key, position);
        assert forall|a: int|
            0 <= a < displayed.len() && (#[trigger] displayed[a]).section_key == key
                && displayed[a].window_index >= position implies tile_position(
            tiles,
            displayed[a].flow_child,
        ) >= slot by {
            if a < front.len() {
                assert(front[a] == displayed[a]);
            }
        }
        if slot < tiles.len() {
            if slot == before {
                let a = choose|a: int|
                    0 <= a < front.len() && (#[trigger] front[a]).section_key == key
                        && front[a].window_index >= position && tile_position(
                        tiles,
                        front[a].flow_child,
                    ) == before;
                assert(displayed[a] == front[a]);
            } else {
                assert(displayed[displayed.len() - 1].section_key == key);
            }
        }
    }
}

/// Tiles of the section `at` that stand in front of the slot for `position` show
/// photos in front of it; those behind the slot show photos at it or behind.
proof fn lemma_slot_divides(board: BoardView, at: int, position: u32, t: int, a: int)
    requires
        board.wf(),
        tiles_follow_list(board.sections, board.displayed),
        0 <= at < board.sections.len(),
        0 <= t < board.sections[at].tiles.len(),
        0 <= a < board.displayed.len(),
        board.displayed[a].flow_child == board.sections[at].tiles[t],
    ensures
        t < tile_slot(
            board.displayed,
            board.sections[at].tiles,
            board.sections[at].key,
            position,
        ) <==> board.displayed[a].window_index < position,
{
    let tiles = board.sections[at].tiles;
    let key = board.sections[at].key;
    let slot = tile_slot(board.displayed, tiles, key, position);
    lemma_slot(board.displayed, tiles, key, position);
    lemma_tile_slot(board.displayed, tiles, key, position);
    lemma_shown_in_section(board, at, t, a);
    lemma_tile_position(tiles, board.displayed[a].flow_child);
    let p = tile_position(tiles, board.displayed[a].flow_child);
    assert(tiles.contains(tiles[t]));
    assert(board.sections[at].tiles[p] == board.sections[at].tiles[t]);
    assert(p == t);
    if t >= slot {
        let e = choose|e: int|
            0 <= e < board.displayed.len() && (#[trigger] board.displayed[e]).section_key == key
                && board.displayed[e].window_index >= position && tile_position(
                tiles,
                board.displayed[e].flow_child,
            ) == slot;
        lemma_tile_position(tiles, board.displayed[e].flow_child);
        assert(board.sections[at].tiles[slot] == board.displayed[e].flow_child);
        if t > slot {
            assert(board.displayed[e].window_index < board.displayed[a].window_index);
        } else if e < a {
            assert(board.displayed[e].flow_child != board.displayed[a].flow_child);
        } else if a < e {
            assert(board.displayed[a].flow_child != board.displayed[e].flow_child);
        }
    }
}

/// New tiles placed at the slot for `position` stand between the tiles of the
/// photos in front and behind.
proof fn lemma_placing_follows(
    board: BoardView,
    base: Seq<DisplayedItem>,
    fresh: Seq<DisplayedItem>,
    at: int,
    position: u32,
)
    requires
        board.wf(),
        tiles_follow_list(board.sections, board.displayed),
        0 <= at < board.sections.len(),
        base.len() == board.displayed.len(),
        board.next_child + fresh.len() <= u64::MAX,
        forall|k: int|
            0 <= k < base.len() ==> {
                &&& (#[trigger] base[k]).flow_child == board.displayed[k].flow_child
                &&& board.displayed[k].window_index < position ==> base[k].window_index
                    == board.displayed[k].window_index
                &&& board.displayed[k].window_index >= position ==> base[k].window_index
                    >= position
            },
        forall|j: int, k: int|
            #![trigger base[j], base[k]]
            0 <= j < base.len() && 0 <= k < base.len() && board.displayed[j].window_index
                < board.displayed[k].window_index ==> base[j].window_index < base[k].window_index,
        forall|k: int|
            0 <= k < fresh.len() ==> {
                &&& (#[trigger] fresh[k]).flow_child == board.next_child + k
                &&& position <= fresh[k].window_index
            },
        forall|j: int, k: int|
            #![trigger fresh[j], base[k]]
            0 <= j < fresh.len() && 0 <= k < base.len() && board.displayed[k].window_index
                >= position ==> fresh[j].window_index < base[k].window_index,
        forall|j: int, k: int|
            #![trigger fresh[j], fresh[k]]
            0 <= j < k < fresh.len() ==> fresh[j].window_index < fresh[k].window_index,
    ensures
        tiles_follow_list(
            with_children(
                board.sections,
                at,
                tile_slot(
                    board.displayed,
                    board.sections[at].tiles,
                    board.sections[at].key,
                    position,
                ),
                children_of(fresh),
            ),
            in_list_order(base + fresh),
        ),
{
    let old_tiles = board.sections[at].tiles;
    let slot = tile_slot(board.displayed, old_tiles, board.sections[at].key, position);
    lemma_tile_slot(board.displayed, old_tiles, board.sections[at].key, position);
    let children = children_of(fresh);
    let n = children.len() as int;
    let sections = with_children(board.sections, at, slot, children);
    let all = base + fresh;
    let after = in_list_order(all);
    lemma_in_list_order(all);
    assert forall|i: int, t: int, u: int, a: int, b: int|
        #![trigger sections[i].tiles[t], sections[i].tiles[u], after[a], after[b]]
        0 <= i < sections.len() && 0 <= t < u < sections[i].tiles.len() && 0 <= a < after.len() && 0
            <= b < after.len() && after[a].flow_child == sections[i].tiles[t] && after[b].flow_child
            == sections[i].tiles[u] implies after[a].window_index < after[b].window_index by {
        assert(after.contains(after[a]) && after.contains(after[b]));
        let x = choose|x: int| 0 <= x < all.len() && all[x] == after[a];
        let y = choose|y: int| 0 <= y < all.len() && all[y] == after[b];
        let new_t = i == at && slot <= t < slot + n;
        let new_u = i == at && slot <= u < slot + n;
        let t0 = if i == at && t >= slot + n { t - n } else { t };
        let u0 = if i == at && u >= slot + n { u - n } else { u };
        if new_t {
            assert(sections[i].tiles[t] == children[t - slot]);
            assert(fresh[t - slot].flow_child == board.next_child + (t - slot));
        } else {
            assert(sections[i].tiles[t] == board.sections[i].tiles[t0]);
            assert(board.sections[i].tiles[t0] < board.next_child);
        }
        if new_u {
            assert(sections[i].tiles[u] == children[u - slot]);
            assert(fresh[u - slot].flow_child == board.next_child + (u - slot));
        } else {
            assert(sections[i].tiles[u] == board.sections[i].tiles[u0]);
            assert(board.sections[i].tiles[u0] < board.next_child);
        }
        if x < base.len() {
            assert(base[x].flow_child == board.displayed[x].flow_child);
            let place = lemma_shown_has_tile(board, x);
        } else {
            assert(all[x] == fresh[x - base.len()]);
        }
        if y < base.len() {
            assert(base[y].flow_child == board.displayed[y].flow_child);
            let place = lemma_shown_has_tile(board, y);
        } else {
            assert(all[y] == fresh[y - base.len()]);
        }
        if !new_t && !new_u {
            assert(board.displayed[x].window_index < board.displayed[y].window_index);
            assert(base[x].window_index < base[y].window_index);
        } else if new_t && new_u {
            assert(fresh[t - slot].window_index < fresh[u - slot].window_index);
        } else if new_t {
            lemma_slot_divides(board, at, position, u0, y);
            assert(fresh[t - slot].window_index < base[y].window_index);
        } else {
            lemma_slot_divides(board, at, position, t0, x);
            assert(base[x].window_index < position);
        }
    }
}

proof fn lemma_fresh_climbs(
    items: Seq<MediaItem>,
    ready: Seq<bool>,
    position: u32,
    key: SectionKey,
    next: u64,
)
    requires
        position + items.len() <= u32::MAX,
        next + items.len() <= u64::MAX,
    ensures
        ({
            let fresh = fresh_displayed(items, ready, position, key, next);
            forall|j: int, k: int|
                #![trigger fresh[j], fresh[k]]
                0 <= j < k < fresh.len() ==> fresh[j].window_index < fresh[k].window_index
        }),
    decreases items.len(),
{
    if items.len() > 0 {
        let front = items.drop_last();
        lemma_fresh_climbs(front, ready, position, key, next);
        lemma_fresh(front, ready, position, key, next);
        let before = fresh_displayed(front, ready, position, key, next);
        let fresh = fresh_displayed(items, ready, position, key, next);
        assert forall|j: int, k: int|
            #![trigger fresh[j], fresh[k]]
            0 <= j < k < fresh.len() implies fresh[j].window_index < fresh[k].window_index by {
            assert(fresh[j] == before[j]);
            if k < before.len() {
                assert(fresh[k] == before[k]);
            }
        }
    }
}

/// After an insertion that the board follows in place the tiles of every section
/// show their photos in list order, as they did before.
pub proof fn additions_keep_tiles_in_list_order(
    board: BoardView,
    items: Seq<MediaItem>,
    ready: Seq<bool>,
    position: u32,
    key: SectionKey,
)
    requires
        board.wf(),
        tiles_follow_list(board.sections, board.displayed),
        section_with_key(board.sections, key) < board.sections.len(),
        position + items.len() <= u32::MAX,
        board.next_child + items.len() <= u64::MAX,
        forall|k: int|
            0 <= k < board.displayed.len() ==> (#[trigger] board.displayed[k]).window_index
                + items.len() <= u32::MAX,
    ensures
        ({
            let after = board_after_addition(board, items, ready, position, key);
            tiles_follow_list(after.sections, after.displayed)
        }),
{
    lemma_section_with_key(board.sections, key);
    let at = section_with_key(board.sections, key);
    let added = items.len() as u32;
    let fresh = fresh_displayed(items, ready, position, key, board.next_child);
    let shifted = shifted_displayed(board.displayed, position, added);
    lemma_fresh(items, ready, position, key, board.next_child);
    lemma_fresh_climbs(items, ready, position, key, board.next_child);
    assert forall|k: int| 0 <= k < shifted.len() implies (#[trigger] shifted[k]).window_index
        == if board.displayed[k].window_index >= position {
        board.displayed[k].window_index + added
    } else {
        board.displayed[k].window_index as int
    } by {
        assert(board.displayed[k].window_index + items.len() <= u32::MAX);
    }
    lemma_placing_follows(board, shifted, fresh, at, position);
}

/// After a late photo got its tile the tiles of every section show their photos
/// in list order, as they did before.
pub proof fn late_photos_keep_tiles_in_list_order(
    board: BoardView,
    id: i64,
    index: u32,
    key: SectionKey,
)
    requires
        board.wf(),
        tiles_follow_list(board.sections, board.displayed),
        section_with_key(board.sections, key) < board.sections.len(),
        board.next_child < u64::MAX,
        forall|k: int|
            0 <= k < board.displayed.len() ==> (#[trigger] board.displayed[k]).window_index
                != index,
    ensures
        ({
            let after = board_with_photo(board, id, index, key);
            tiles_follow_list(after.sections, after.displayed)
        }),
{
    lemma_section_with_key(board.sections, key);
    let at = section_with_key(board.sections, key);
    let item = DisplayedItem {
        flow_child: board.next_child,
        window_index: index,
        media_id: id,
        section_key: key,
    };
    let fresh = seq![item];
    assert(children_of(fresh) =~= seq![board.next_child]);
    assert(board.displayed.push(item) =~= board.displayed + fresh);
    assert forall|j: int, k: int|
        #![trigger fresh[j], board.displayed[k]]
        0 <= j < fresh.len() && 0 <= k < board.displayed.len() && board.displayed[k].window_index
            >= index implies fresh[j].window_index < board.displayed[k].window_index by {
        assert(board.displayed[k].window_index != index);
    }
    lemma_placing_follows(board, board.displayed, fresh, at, index);
}

// ---------------------------------------------------------------------------
// Taking tiles away

proof fn lemma_without_child_follows(
    sections: Seq<SectionTiles>,
    displayed: Seq<DisplayedItem>,
    child: u64,
)
    requires
        tiles_follow_list(sections, displayed),
    ensures
        tiles_follow_list(without_child(sections, child), displayed),
{
    lemma_section_with_child(sections, child);
    let at = section_with_child(sections, child);
    let after = without_child(sections, child);
    if at < sections.len() {
        lemma_tile_position(sections[at].tiles, child);
        let p = tile_position(sections[at].tiles, child);
        let gone = after.len() < sections.len();
        assert forall|i: int, t: int, u: int, a: int, b: int|
            #![trigger after[i].tiles[t], after[i].tiles[u], displayed[a], displayed[b]]
            0 <= i < after.len() && 0 <= t < u < after[i].tiles.len() && 0 <= a < displayed.len()
                && 0 <= b < displayed.len() && displayed[a].flow_child == after[i].tiles[t]
                && displayed[b].flow_child == after[i].tiles[u] implies displayed[a].window_index
            < displayed[b].window_index by {
            let j = if gone && i >= at { i + 1 } else { i };
            let t0 = if !gone && i == at && t >= p { t + 1 } else { t };
            let u0 = if !gone && i == at && u >= p { u + 1 } else { u };
            assert(after[i].tiles[t] == sections[j].tiles[t0]);
            assert(after[i].tiles[u] == sections[j].tiles[u0]);
        }
    }
}

proof fn lemma_without_children_follows(
    sections: Seq<SectionTiles>,
    displayed: Seq<DisplayedItem>,
    lost: Seq<DisplayedItem>,
)
    requires
        tiles_follow_list(sections, displayed),
    ensures
        tiles_follow_list(without_children(sections, lost), displayed),
    decreases lost.len(),
{
    if lost.len() > 0 {
        lemma_without_children_follows(sections, displayed, lost.drop_last());
        lemma_without_child_follows(
            without_children(sections, lost.drop_last()),
            displayed,
            lost.last().flow_child,
        );
    }
}

/// After a removal the tiles of every section show their photos in list order,
/// as they did before.
pub proof fn removals_keep_tiles_in_list_order(board: BoardView, position: u32, removed: u32)
    requires
        tiles_follow_list(board.sections, board.displayed),
        position + removed <= u32::MAX,
    ensures
        ({
            let after = board_after_removal(board, position, removed);
            tiles_follow_list(after.sections, after.displayed)
        }),
{
    let end = range_end(position, removed);
    let d = board.displayed;
    let lost = lost_displayed(d, position as int, end);
    let kept = kept_displayed(d, position as int, end, removed);
    let sections = without_children(board.sections, lost);
    lemma_without_children_follows(board.sections, d, lost);
    lemma_kept(d, position as int, end, removed);
    assert forall|i: int, t: int, u: int, a: int, b: int|
        #![trigger sections[i].tiles[t], sections[i].tiles[u], kept[a], kept[b]]
        0 <= i < sections.len() && 0 <= t < u < sections[i].tiles.len() && 0 <= a < kept.len() && 0
            <= b < kept.len() && kept[a].flow_child == sections[i].tiles[t] && kept[b].flow_child
            == sections[i].tiles[u] implies kept[a].window_index < kept[b].window_index by {
        let x = choose|x: int|
            #![trigger d[x]]
            {
                let item = kept[a];
                &&& 0 <= x < d.len()
                &&& !in_removed_range(d[x].window_index as int, position as int, end)
                &&& item.flow_child == d[x].flow_child
                &&& item.media_id == d[x].media_id
                &&& item.section_key == d[x].section_key
                &&& item.window_index == if d[x].window_index >= end {
                    d[x].window_index.saturating_sub(removed)
                } else {
                    d[x].window_index
                }
            };
        let y = choose|y: int|
            #![trigger d[y]]
            {
                let item = kept[b];
                &&& 0 <= y < d.len()
                &&& !in_removed_range(d[y].window_index as int, position as int, end)
                &&& item.flow_child == d[y].flow_child
                &&& item.media_id == d[y].media_id
                &&& item.section_key == d[y].section_key
                &&& item.window_index == if d[y].window_index >= end {
                    d[y].window_index.saturating_sub(removed)
                } else {
                    d[y].window_index
                }
            };
        assert(d[x].window_index < d[y].window_index);
    }
}

// ---------------------------------------------------------------------------
// Building, and the extra child

proof fn lemma_build_follows(
    items: Seq<MediaItem>,
    groups: Seq<SectionGroup>,
    flat: bool,
    counts: Option<Map<SectionKey, u32>>,
)
    requires
        distinct_uris(items),
        items.len() <= u32::MAX,
        super::sections::proper_groups(groups),
        members_in_order(groups),
        forall|g: int, m: int|
            #![trigger groups[g].members[m]]
            0 <= g < groups.len() && 0 <= m < groups[g].members.len() ==> groups[g].members[m]
                < items.len(),
        built_displayed(items, groups).len() <= u64::MAX,
    ensures
        tiles_follow_list(
            built_sections(items, groups, flat, counts),
            built_displayed(items, groups),
        ),
    decreases groups.len(),
{
    if groups.len() > 0 {
        let front = groups.drop_last();
        let group = groups.last();
        let last = groups.len() - 1;
        assert forall|i: int, j: int| 0 <= i < j < front.len() implies (#[trigger] front[i]).key != (
        #[trigger] front[j]).key by {
            assert(groups[i].key != groups[j].key);
        }
        assert forall|i: int| 0 <= i < front.len() implies (
        #[trigger] front[i]).members.len() > 0 by {
            assert(groups[i].members.len() > 0);
        }
        assert forall|g: int, m: int, n: int|
            #![trigger front[g].members[m], front[g].members[n]]
            0 <= g < front.len() && 0 <= m < n < front[g].members.len() implies front[g].members[m]
            < front[g].members[n] by {
            assert(groups[g].members[m] < groups[g].members[n]);
        }
        assert forall|g: int, m: int|
            #![trigger front[g].members[m]]
            0 <= g < front.len() && 0 <= m < front[g].members.len() implies front[g].members[m]
            < items.len() by {
            assert(groups[g].members[m] < items.len());
        }
        lemma_build_follows(items, front, flat, counts);
        super::board_laws::lemma_built(items, front, flat, counts);
        super::board_laws::lemma_built(items, groups, flat, counts);
        let before = built_sections(items, front, flat, counts);
        let shown = built_displayed(items, front);
        let start = shown.len() as int;
        let run = displayed_run(items, group, start);
        let sections = built_sections(items, groups, flat, counts);
        let displayed = built_displayed(items, groups);
        assert(groups[last].members.len() > 0);
        assert(displayed == shown + run);
        assert(sections == before.push(sections.last()));
        assert forall|i: int, t: int, u: int, a: int, b: int|
            #![trigger sections[i].tiles[t], sections[i].tiles[u], displayed[a], displayed[b]]
            0 <= i < sections.len() && 0 <= t < u < sections[i].tiles.len() && 0 <= a
                < displayed.len() && 0 <= b < displayed.len() && displayed[a].flow_child
                == sections[i].tiles[t] && displayed[b].flow_child
                == sections[i].tiles[u] implies displayed[a].window_index
            < displayed[b].window_index by {
            assert(displayed[a].flow_child == a && displayed[b].flow_child == b);
            if i < before.len() {
                assert(before[i].tiles[t] < start as u64);
                assert(before[i].tiles[u] < start as u64);
                assert(shown[a] == displayed[a] && shown[b] == displayed[b]);
            } else {
                assert(sections[i].tiles[t] == start + t && sections[i].tiles[u] == start + u);
                assert(displayed[a] == run[t] && displayed[b] == run[u]);
                lemma_own_position(items, groups[last].members[t] as int);
                lemma_own_position(items, groups[last].members[u] as int);
                assert(groups[last].members[t] < groups[last].members[u]);
            }
        }
    }
}

proof fn lemma_own_position(items: Seq<MediaItem>, at: int)
    requires
        distinct_uris(items),
        0 <= at < items.len(),
    ensures
        last_uri_index(items, items[at].uri@) == at,
{
    lemma_last_uri_index(items, at);
    let found = last_uri_index(items, items[at].uri@);
    if at < found {
        assert(items[at].uri@ != items[found].uri@);
    }
}

/// The extra child does not come between photos: the tiles show their photos in
/// list order, as they did before, and the extra child is the last tile of all.
pub proof fn the_extra_child_comes_last(board: BoardView)
    requires
        board.wf(),
        tiles_follow_list(board.sections, board.displayed),
        board.next_child < u64::MAX,
        board.sections.len() > 0,
    ensures
        ({
            let after = board_with_extra(board);
            &&& tiles_follow_list(after.sections, after.displayed)
            &&& after.extra is Some
            &&& after.sections.last().tiles.last() == after.extra->0
            &&& after.displayed == board.displayed
            &&& forall|k: int|
                0 <= k < after.displayed.len() ==> (#[trigger] after.displayed[k]).flow_child
                    != after.extra->0
        }),
{
    let after = board_with_extra(board);
    let d = board.displayed;
    let last = board.sections.len() - 1;
    let tiles = board.sections[last].tiles;
    assert forall|k: int| 0 <= k < d.len() implies (#[trigger] d[k]).flow_child
        < board.next_child by {
        let place = lemma_shown_has_tile(board, k);
    }
    let gone = board.extra is Some && tiles.contains(board.extra->0);
    let p = tile_position(tiles, board.extra->0);
    if gone {
        lemma_tile_position(tiles, board.extra->0);
    }
    assert forall|i: int, t: int, u: int, a: int, b: int|
        #![trigger after.sections[i].tiles[t], after.sections[i].tiles[u], d[a], d[b]]
        0 <= i < after.sections.len() && 0 <= t < u < after.sections[i].tiles.len() && 0 <= a
            < d.len() && 0 <= b < d.len() && d[a].flow_child == after.sections[i].tiles[t]
            && d[b].flow_child == after.sections[i].tiles[u] implies d[a].window_index
        < d[b].window_index by {
        assert(d[b].flow_child < board.next_child);
        let t0 = if i == last && gone && t >= p { t + 1 } else { t };
        let u0 = if i == last && gone && u >= p { u + 1 } else { u };
        if i == last {
            assert(u < after.sections[i].tiles.len() - 1);
        }
        assert(after.sections[i].tiles[t] == board.sections[i].tiles[t0]);
        assert(after.sections[i].tiles[u] == board.sections[i].tiles[u0]);
    }
}

// ---------------------------------------------------------------------------
// Which photos are shown

/// After an insertion that the board follows in place every new photo that is
/// ready is shown, at its own position and in its section; one that is not ready
/// is not shown; and every photo that was shown still is, on the same tile and
/// as many positions further down as photos came in front of it.
pub proof fn additions_show_the_new_photos(
    board: BoardView,
    items: Seq<MediaItem>,
    ready: Seq<bool>,
    position: u32,
    key: SectionKey,
)
    requires
        position + items.len() <= u32::MAX,
        board.next_child + items.len() <= u64::MAX,
        forall|k: int|
            0 <= k < board.displayed.len() ==> (#[trigger] board.displayed[k]).window_index
                + items.len() <= u32::MAX,
    ensures
        ({
            let after = board_after_addition(board, items, ready, position, key).displayed;
            &&& forall|i: int|
                0 <= i < items.len() ==> (#[trigger] ready[i] <==> exists|k: int|
                    0 <= k < after.len() && (#[trigger] after[k]).window_index == position + i
                        && after[k].media_id == items[i].id && after[k].section_key == key)
            &&& forall|k: int|
                0 <= k < board.displayed.len() ==> after.contains(
                    DisplayedItem {
                        window_index: (if board.displayed[k].window_index < position {
                            board.displayed[k].window_index as int
                        } else {
                            board.displayed[k].window_index + items.len()
                        }) as u32,
                        ..#[trigger] board.displayed[k]
                    },
                )
            &&& after.len() <= board.displayed.len() + items.len()
        }),
{
    let added = items.len() as u32;
    let fresh = fresh_displayed(items, ready, position, key, board.next_child);
    let shifted = shifted_displayed(board.displayed, position, added);
    let all = shifted + fresh;
    let after = board_after_addition(board, items, ready, position, key).displayed;
    lemma_in_list_order(all);
    lemma_fresh(items, ready, position, key, board.next_child);
    lemma_fresh_positions(items, ready, position, key, board.next_child);
    assert forall|i: int| 0 <= i < items.len() implies (#[trigger] ready[i] <==> exists|k: int|
        0 <= k < after.len() && (#[trigger] after[k]).window_index == position + i
            && after[k].media_id == items[i].id && after[k].section_key == key) by {
        if ready[i] {
            let f = choose|f: int|
                0 <= f < fresh.len() && (#[trigger] fresh[f]).window_index == position + i;
            assert(all[shifted.len() + f] == fresh[f]);
            assert(all.contains(fresh[f]));
            assert(after.contains(fresh[f]));
            let k = choose|k: int| 0 <= k < after.len() && after[k] == fresh[f];
            assert(after[k].window_index == position + i);
        }
        if exists|k: int|
            0 <= k < after.len() && (#[trigger] after[k]).window_index == position + i
                && after[k].media_id == items[i].id && after[k].section_key == key {
            let k = choose|k: int|
                0 <= k < after.len() && (#[trigger] after[k]).window_index == position + i
                    && after[k].media_id == items[i].id && after[k].section_key == key;
            assert(after.contains(after[k]));
            let j = choose|j: int| 0 <= j < all.len() && all[j] == after[k];
            if j < shifted.len() {
                assert(board.displayed[j].window_index + items.len() <= u32::MAX);
                assert(shifted[j] == after[k]);
            } else {
                assert(all[j] == fresh[j - shifted.len()]);
            }
        }
    }
    assert forall|k: int| 0 <= k < board.displayed.len() implies after.contains(
        DisplayedItem {
            window_index: (if board.displayed[k].window_index < position {
                board.displayed[k].window_index as int
            } else {
                board.displayed[k].window_index + items.len()
            }) as u32,
            ..#[trigger] board.displayed[k]
        },
    ) by {
        assert(board.displayed[k].window_index + items.len() <= u32::MAX);
        assert(all[k] == shifted[k]);
        assert(all.contains(shifted[k]));
        assert(after.contains(shifted[k]));
    }
}

proof fn lemma_fresh_positions(
    items: Seq<MediaItem>,
    ready: Seq<bool>,
    position: u32,
    key: SectionKey,
    next: u64,
)
    requires
        position + items.len() <= u32::MAX,
        next + items.len() <= u64::MAX,
    ensures
        ({
            let fresh = fresh_displayed(items, ready, position, key, next);
            &&& forall|i: int|
                0 <= i < items.len() && #[trigger] ready[i] ==> exists|f: int|
                    0 <= f < fresh.len() && (#[trigger] fresh[f]).window_index == position + i
            &&& forall|f: int|
                0 <= f < fresh.len() ==> ready[(#[trigger] fresh[f]).window_index - position]
        }),
    decreases items.len(),
{
    if items.len() > 0 {
        let front = items.drop_last();
        lemma_fresh_positions(front, ready, position, key, next);
        let before = fresh_displayed(front, ready, position, key, next);
        let fresh = fresh_displayed(items, ready, position, key, next);
        assert forall|i: int| 0 <= i < items.len() && #[trigger] ready[i] implies exists|f: int|
            0 <= f < fresh.len() && (#[trigger] fresh[f]).window_index == position + i by {
            if i < front.len() {
                let f = choose|f: int|
                    0 <= f < before.len() && (#[trigger] before[f]).window_index == position + i;
                assert(fresh[f] == before[f]);
            } else {
                assert(fresh[fresh.len() - 1].window_index == position + i);
            }
        }
        assert forall|f: int| 0 <= f < fresh.len() implies ready[(
        #[trigger] fresh[f]).window_index - position] by {
            if f < before.len() {
                assert(fresh[f] == before[f]);
            }
        }
    }
}

proof fn lemma_kept_all(
    displayed: Seq<DisplayedItem>,
    position: int,
    end: int,
    removed: u32,
    k: int,
)
    requires
        0 <= k < displayed.len(),
        !in_removed_range(displayed[k].window_index as int, position, end),
    ensures
        kept_displayed(displayed, position, end, removed).contains(
            DisplayedItem {
                window_index: if displayed[k].window_index >= end {
                    displayed[k].window_index.saturating_sub(removed)
                } else {
                    displayed[k].window_index
                },
                ..displayed[k]
            },
        ),
    decreases displayed.len(),
{
    let front = displayed.drop_last();
    let kept = kept_displayed(displayed, position, end, removed);
    if k < front.len() {
        lemma_kept_all(front, position, end, removed, k);
        let before = kept_displayed(front, position, end, removed);
        let item = DisplayedItem {
            window_index: if displayed[k].window_index >= end {
                displayed[k].window_index.saturating_sub(removed)
            } else {
                displayed[k].window_index
            },
            ..displayed[k]
        };
        let j = choose|j: int| 0 <= j < before.len() && before[j] == item;
        assert(kept[j] == item);
    } else {
        assert(kept[kept.len() - 1] == kept.last());
    }
}

/// After a removal no photo of the removed positions is shown any more, and every
/// other photo that was shown still is, on the same tile and as many positions
/// further up as photos went away in front of it.
pub proof fn removals_hide_only_the_removed_photos(board: BoardView, position: u32, removed: u32)
    requires
        board.wf(),
        position + removed <= u32::MAX,
    ensures
        ({
            let after = board_after_removal(board, position, removed).displayed;
            forall|k: int|
                0 <= k < board.displayed.len() ==> {
                    let item = #[trigger] board.displayed[k];
                    if position <= item.window_index < position + removed {
                        forall|j: int|
                            0 <= j < after.len() ==> (#[trigger] after[j]).flow_child
                                != item.flow_child
                    } else {
                        after.contains(
                            DisplayedItem {
                                window_index: (if item.window_index < position {
                                    item.window_index as int
                                } else {
                                    item.window_index - removed
                                }) as u32,
                                ..item
                            },
                        )
                    }
                }
        }),
{
    let d = board.displayed;
    let end = range_end(position, removed);
    let after = board_after_removal(board, position, removed).displayed;
    lemma_kept(d, position as int, end, removed);
    assert forall|k: int| 0 <= k < d.len() implies {
        let item = #[trigger] d[k];
        if position <= item.window_index < position + removed {
            forall|j: int|
                0 <= j < after.len() ==> (#[trigger] after[j]).flow_child != item.flow_child
        } else {
            after.contains(
                DisplayedItem {
                    window_index: (if item.window_index < position {
                        item.window_index as int
                    } else {
                        item.window_index - removed
                    }) as u32,
                    ..item
                },
            )
        }
    } by {
        let item = d[k];
        if position <= item.window_index < position + removed {
            assert forall|j: int| 0 <= j < after.len() implies (#[trigger] after[j]).flow_child
                != item.flow_child by {
                let x = choose|x: int|
                    #![trigger d[x]]
                    {
                        let kept = after[j];
                        &&& 0 <= x < d.len()
                        &&& !in_removed_range(d[x].window_index as int, position as int, end)
                        &&& kept.flow_child == d[x].flow_child
                        &&& kept.media_id == d[x].media_id
                        &&& kept.section_key == d[x].section_key
                        &&& kept.window_index == if d[x].window_index >= end {
                            d[x].window_index.saturating_sub(removed)
                        } else {
                            d[x].window_index
                        }
                    };
                if x < k {
                    assert(d[x].flow_child != d[k].flow_child);
                } else if k < x {
                    assert(d[k].flow_child != d[x].flow_child);
                }
            }
        } else {
            lemma_kept_all(d, position as int, end, removed, k);
        }
    }
}

// ---------------------------------------------------------------------------
// The grid

impl GridView {
    /// Do the tiles of every section show their photos in list order?
    pub open spec fn in_list_order(self) -> bool {
        tiles_follow_list(self.board.sections, self.board.displayed)
    }
}

proof fn lemma_headers_do_not_matter(
    a: Seq<SectionTiles>,
    b: Seq<SectionTiles>,
    displayed: Seq<DisplayedItem>,
)
    requires
        tiles_follow_list(a, displayed),
        a.len() == b.len(),
        forall|i: int| 0 <= i < a.len() ==> (#[trigger] b[i]).tiles == a[i].tiles,
    ensures
        tiles_follow_list(b, displayed),
{
    assert forall|i: int, t: int, u: int, x: int, y: int|
        #![trigger b[i].tiles[t], b[i].tiles[u], displayed[x], displayed[y]]
        0 <= i < b.len() && 0 <= t < u < b[i].tiles.len() && 0 <= x < displayed.len() && 0 <= y
            < displayed.len() && displayed[x].flow_child == b[i].tiles[t]
            && displayed[y].flow_child == b[i].tiles[u] implies displayed[x].window_index
        < displayed[y].window_index by {
        assert(a[i].tiles[t] == b[i].tiles[t] && a[i].tiles[u] == b[i].tiles[u]);
    }
}

/// A rebuilt grid shows the photos of every section in list order.
pub proof fn rebuilds_show_photos_in_list_order(
    grid: GridView,
    items: Seq<MediaItem>,
    viewport_width: u32,
)
    requires
        distinct_uris(items),
        items.len() <= u32::MAX,
    ensures
        grid.rebuilt(items, viewport_width).in_list_order(),
{
    let len = items.len() as int;
    let flat = grid.flags.flat_sections;
    let mode = grid.flags.mode;
    let count = grid.rendered(len);
    let shown = items.subrange(0, count);
    if grid.placeholders(len) == 0 {
        let groups = shown_groups(shown, flat, mode);
        lemma_shown_groups(items, count, flat, mode);
        super::grid_laws::a_rebuild_shows_every_rendered_photo(grid, items, viewport_width);
        if !flat {
            grouping_places_every_photo(shown, mode);
        }
        lemma_build_follows(items, groups, flat, grid.header_counts());
    }
}

/// A grid that shows the photos of every section in list order does so after
/// every change of the list as well. The exception is a change that the grid
/// leaves to a debounced rebuild.
pub proof fn changes_keep_photos_in_list_order(
    grid: GridView,
    before: Seq<MediaItem>,
    position: u32,
    removed: u32,
    incoming: Seq<MediaItem>,
    ready: Seq<bool>,
    viewport_width: u32,
)
    requires
        grid.board.wf(),
        grid.in_list_order(),
        grid.live(before),
        grid.flags.active,
        !grid.paging.applying_page,
        before.len() <= u32::MAX,
        edit_fits(
            before,
            EditView { position: position as int, removed: removed as int, added: incoming },
        ),
        before.len() - removed + incoming.len() <= u32::MAX,
        grid.board.next_child + incoming.len() <= u64::MAX,
        distinct_uris(
            edited(
                before,
                EditView { position: position as int, removed: removed as int, added: incoming },
            ),
        ),
    ensures
        ({
            let after = edited(
                before,
                EditView { position: position as int, removed: removed as int, added: incoming },
            );
            let added = incoming.len() as u32;
            grid.answer(after, position, removed, added) != ChangeAnswer::Schedule
                ==> grid.after_change(
                after,
                position,
                removed,
                added,
                ready,
                viewport_width,
            ).in_list_order()
        }),
{
    let edit = EditView { position: position as int, removed: removed as int, added: incoming };
    let after = edited(before, edit);
    let added = incoming.len() as u32;
    let mode = grid.flags.mode;
    let next = grid.after_change(after, position, removed, added, ready, viewport_width);
    match grid.answer(after, position, removed, added) {
        ChangeAnswer::Remove => {
            removals_keep_tiles_in_list_order(grid.board, position, removed);
            let bare = board_after_removal(grid.board, position, removed);
            lemma_headers_do_not_matter(bare.sections, next.board.sections, bare.displayed);
        },
        ChangeAnswer::RebuildReplaced => {
            let fresh = grid.with_stale_metadata().unscheduled().deselected();
            rebuilds_show_photos_in_list_order(fresh, after, viewport_width);
        },
        ChangeAnswer::RebuildFirst => {
            let fresh = grid.with_stale_metadata().unscheduled().deselected();
            rebuilds_show_photos_in_list_order(fresh, after, viewport_width);
        },
        ChangeAnswer::Insert => {
            let key = section_of(after[position as int], mode);
            assert(after.subrange(position as int, position + added) =~= incoming);
            displayed_sections_exist(grid.board, key);
            assert forall|k: int| 0 <= k < grid.board.displayed.len() implies (
            #[trigger] grid.board.displayed[k]).window_index + incoming.len() <= u32::MAX by {
                assert(grid.board.displayed[k].window_index < before.len());
            }
            additions_keep_tiles_in_list_order(grid.board, incoming, ready, position, key);
            let bare = board_after_addition(grid.board, incoming, ready, position, key);
            lemma_headers_do_not_matter(bare.sections, next.board.sections, bare.displayed);
        },
        _ => {},
    }
}

/// A photo that gets its tile late gets it at its place: the grid still shows the
/// photos of every section in list order, and every displayed photo still names
/// its own position. Where it got a tile, it is shown.
pub proof fn late_photos_keep_the_grid_in_list_order(
    grid: GridView,
    items: Seq<MediaItem>,
    uri: Seq<char>,
    mode: GroupBy,
)
    requires
        grid.board.wf(),
        grid.in_list_order(),
        points_at(items, grid.board.displayed),
        items.len() <= u32::MAX,
        grid.board.next_child < u64::MAX,
    ensures
        ({
            let next = grid.after_deferred_insert(items, uri, mode);
            &&& next.in_list_order()
            &&& points_at(items, next.board.displayed)
            &&& grid.deferred_insert(items, uri, mode) == DeferredInsert::Inserted ==> exists|k: int|
                0 <= k < next.board.displayed.len() && items[(
                #[trigger] next.board.displayed[k]).window_index as int].uri@ == uri
        }),
{
    let next = grid.after_deferred_insert(items, uri, mode);
    if grid.deferred_insert(items, uri, mode) == DeferredInsert::Inserted {
        lemma_uri_position(items, uri);
        let at = uri_position(items, uri);
        let key = section_of(items[at], mode);
        displayed_sections_exist(grid.board, key);
        let d = grid.board.displayed;
        assert forall|k: int| 0 <= k < d.len() implies (#[trigger] d[k]).window_index != at by {
            if d[k].window_index == at {
                assert(items[d[k].window_index as int].id == d[k].media_id);
                assert(super::board::shows_photo(d, items[at].id));
            }
        }
        late_photos_keep_tiles_in_list_order(grid.board, items[at].id, at as u32, key);
        let item = DisplayedItem {
            flow_child: grid.board.next_child,
            window_index: at as u32,
            media_id: items[at].id,
            section_key: key,
        };
        let all = d.push(item);
        let after = next.board.displayed;
        lemma_in_list_order(all);
        assert forall|k: int| 0 <= k < after.len() implies (#[trigger] after[k]).window_index
            < items.len() && items[after[k].window_index as int].id == after[k].media_id by {
            assert(after.contains(after[k]));
            let j = choose|j: int| 0 <= j < all.len() && all[j] == after[k];
            if j < d.len() {
                assert(d[j] == after[k]);
            }
        }
        assert(all[d.len() as int] == item);
        assert(all.contains(item));
        assert(after.contains(item));
        let k = choose|k: int| 0 <= k < after.len() && after[k] == item;
        assert(items[after[k].window_index as int].uri@ == uri);
    }
}

} // verus!
