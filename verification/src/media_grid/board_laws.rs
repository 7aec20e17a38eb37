//! What every change of the board keeps true.

use super::board::{
    board_after_addition, board_after_removal, board_with_extra, board_with_photo, built_board,
    built_displayed, built_sections, children_of, children_unique, displayed_run, fresh_displayed, in_list_order, in_removed_range,
    index_slot, kept_displayed, last_uri_index, lemma_index_slot, lemma_last_uri_index,
    lemma_section_with_child, lemma_section_with_key, lemma_tile_position, lemma_tile_slot,
    lost_displayed, proper_sections, range_end, relabelled, section_with_child, section_with_key,
    shifted_displayed, shows_section, tile_position, tile_slot, tiles_of, tiles_shown, tiles_unique,
    with_children, without_child, without_children, without_extra, BoardView, DisplayedItem, SectionTiles,
};
use super::sections::{members_belong, proper_groups, SectionGroup};
use crate::media::{distinct_uris, section_of, GroupBy, MediaItem, SectionKey};
use crate::media_list::{edited, EditView};
use vstd::prelude::*;

verus! {

// ---------------------------------------------------------------------------
// Taking tiles away

proof fn lemma_without_child(sections: Seq<SectionTiles>, next: u64, child: u64)
    requires
        proper_sections(sections),
        tiles_unique(sections, next),
    ensures
        proper_sections(without_child(sections, child)),
        tiles_unique(without_child(sections, child), next),
        forall|tile: (SectionKey, u64)|
            #[trigger] tiles_of(without_child(sections, child)).contains(tile) <==> tiles_of(
                sections,
            ).contains(tile) && tile.1 != child,
{
    let result = without_child(sections, child);
    lemma_section_with_child(sections, child);
    let at = section_with_child(sections, child);
    if at < sections.len() {
        let tiles = sections[at].tiles;
        lemma_tile_position(tiles, child);
        let gone = tile_position(tiles, child);
        let left = tiles.remove(gone);
        if left.len() == 0 {
            assert(tiles.len() == 1);
            assert forall|i: int, j: int| 0 <= i < j < result.len() implies (
            #[trigger] result[i]).key != (#[trigger] result[j]).key by {
                let a = if i < at { i } else { i + 1 };
                let b = if j < at { j } else { j + 1 };
                assert(sections[a].key != sections[b].key);
            }
            assert forall|i: int| 0 <= i < result.len() implies (
            #[trigger] result[i]).tiles.len() > 0 by {
                assert(sections[if i < at { i } else { i + 1 }].tiles.len() > 0);
            }
            assert forall|i: int, t: int, j: int, u: int|
                #![trigger result[i].tiles[t], result[j].tiles[u]]
                0 <= i < result.len() && 0 <= t < result[i].tiles.len() && 0 <= j < result.len()
                    && 0 <= u < result[j].tiles.len() && result[i].tiles[t]
                    == result[j].tiles[u] implies i == j && t == u by {
                let a = if i < at { i } else { i + 1 };
                let b = if j < at { j } else { j + 1 };
                assert(sections[a].tiles[t] == sections[b].tiles[u]);
            }
            assert forall|i: int, t: int|
                #![trigger result[i].tiles[t]]
                0 <= i < result.len() && 0 <= t < result[i].tiles.len() implies result[i].tiles[t]
                < next by {
                let a = if i < at { i } else { i + 1 };
                assert(sections[a].tiles[t] < next);
            }
            assert forall|tile: (SectionKey, u64)| #[trigger]
                tiles_of(result).contains(tile) <==> tiles_of(sections).contains(tile) && tile.1
                    != child by {
                if tiles_of(result).contains(tile) {
                    let (i, t) = choose|i: int, t: int|
                        #![trigger result[i].tiles[t]]
                        0 <= i < result.len() && 0 <= t < result[i].tiles.len() && result[i].key
                            == tile.0 && result[i].tiles[t] == tile.1;
                    let a = if i < at { i } else { i + 1 };
                    assert(sections[a].tiles[t] == tile.1);
                    assert(sections[at].tiles[gone] == child);
                }
                if tiles_of(sections).contains(tile) && tile.1 != child {
                    let (a, t) = choose|a: int, t: int|
                        #![trigger sections[a].tiles[t]]
                        0 <= a < sections.len() && 0 <= t < sections[a].tiles.len()
                            && sections[a].key == tile.0 && sections[a].tiles[t] == tile.1;
                    assert(a != at);
                    let i = if a < at { a } else { a - 1 };
                    assert(result[i].tiles[t] == tile.1);
                }
            }
        } else {
            assert forall|i: int, j: int| 0 <= i < j < result.len() implies (
            #[trigger] result[i]).key != (#[trigger] result[j]).key by {
                assert(sections[i].key != sections[j].key);
            }
            assert forall|i: int, t: int, j: int, u: int|
                #![trigger result[i].tiles[t], result[j].tiles[u]]
                0 <= i < result.len() && 0 <= t < result[i].tiles.len() && 0 <= j < result.len()
                    && 0 <= u < result[j].tiles.len() && result[i].tiles[t]
                    == result[j].tiles[u] implies i == j && t == u by {
                let tt = if i == at && t >= gone { t + 1 } else { t };
                let uu = if j == at && u >= gone { u + 1 } else { u };
                assert(sections[i].tiles[tt] == result[i].tiles[t]);
                assert(sections[j].tiles[uu] == result[j].tiles[u]);
            }
            assert forall|i: int, t: int|
                #![trigger result[i].tiles[t]]
                0 <= i < result.len() && 0 <= t < result[i].tiles.len() implies result[i].tiles[t]
                < next by {
                let tt = if i == at && t >= gone { t + 1 } else { t };
                assert(sections[i].tiles[tt] == result[i].tiles[t]);
            }
            assert forall|tile: (SectionKey, u64)| #[trigger]
                tiles_of(result).contains(tile) <==> tiles_of(sections).contains(tile) && tile.1
                    != child by {
                if tiles_of(result).contains(tile) {
                    let (i, t) = choose|i: int, t: int|
                        #![trigger result[i].tiles[t]]
                        0 <= i < result.len() && 0 <= t < result[i].tiles.len() && result[i].key
                            == tile.0 && result[i].tiles[t] == tile.1;
                    let tt = if i == at && t >= gone { t + 1 } else { t };
                    assert(sections[i].tiles[tt] == tile.1);
                    assert(sections[at].tiles[gone] == child);
                }
                if tiles_of(sections).contains(tile) && tile.1 != child {
                    let (i, t) = choose|i: int, t: int|
                        #![trigger sections[i].tiles[t]]
                        0 <= i < sections.len() && 0 <= t < sections[i].tiles.len()
                            && sections[i].key == tile.0 && sections[i].tiles[t] == tile.1;
                    let tt = if i == at && t > gone { t - 1 } else { t };
                    assert(result[i].tiles[tt] == tile.1);
                }
            }
        }
    } else {
        assert forall|tile: (SectionKey, u64)| #[trigger]
            tiles_of(sections).contains(tile) implies tile.1 != child by {
            let (i, t) = choose|i: int, t: int|
                #![trigger sections[i].tiles[t]]
                0 <= i < sections.len() && 0 <= t < sections[i].tiles.len() && sections[i].key
                    == tile.0 && sections[i].tiles[t] == tile.1;
            assert(!sections[i].tiles.contains(child));
        }
    }
}

proof fn lemma_without_children(
    sections: Seq<SectionTiles>,
    next: u64,
    items: Seq<DisplayedItem>,
)
    requires
        proper_sections(sections),
        tiles_unique(sections, next),
    ensures
        proper_sections(without_children(sections, items)),
        tiles_unique(without_children(sections, items), next),
        forall|tile: (SectionKey, u64)|
            #[trigger] tiles_of(without_children(sections, items)).contains(tile) <==> tiles_of(
                sections,
            ).contains(tile) && !children_of(items).contains(tile.1),
    decreases items.len(),
{
    if items.len() > 0 {
        let front = items.drop_last();
        lemma_without_children(sections, next, front);
        let child = items.last().flow_child;
        lemma_without_child(without_children(sections, front), next, child);
        assert forall|x: u64| children_of(items).contains(x) <==> children_of(front).contains(x) || x
            == child by {
            if children_of(items).contains(x) {
                let k = choose|k: int| 0 <= k < items.len() && children_of(items)[k] == x;
                if k < front.len() {
                    assert(children_of(front)[k] == x);
                }
            }
            if children_of(front).contains(x) {
                let k = choose|k: int| 0 <= k < front.len() && children_of(front)[k] == x;
                assert(children_of(items)[k] == x);
            }
            assert(children_of(items)[items.len() - 1] == child);
        }
        let result = without_children(sections, items);
        assert forall|tile: (SectionKey, u64)| #[trigger]
            tiles_of(result).contains(tile) <==> tiles_of(sections).contains(tile) && !children_of(
                items,
            ).contains(tile.1) by {
            assert(tiles_of(without_children(sections, front)).contains(tile) <==> tiles_of(
                sections,
            ).contains(tile) && !children_of(front).contains(tile.1));
        }
    }
}

/// Does a displayed photo with this section and tile stand at a list position
/// inside (or outside) the removed range?
spec fn shown_where(
    displayed: Seq<DisplayedItem>,
    tile: (SectionKey, u64),
    position: int,
    end: int,
    removed: bool,
) -> bool {
    exists|k: int|
        0 <= k < displayed.len() && (#[trigger] displayed[k]).section_key == tile.0
            && displayed[k].flow_child == tile.1 && in_removed_range(
            displayed[k].window_index as int,
            position,
            end,
        ) == removed
}

proof fn lemma_shown_where_push(
    displayed: Seq<DisplayedItem>,
    tile: (SectionKey, u64),
    position: int,
    end: int,
    removed: bool,
)
    requires
        displayed.len() > 0,
    ensures
        shown_where(displayed, tile, position, end, removed) <==> shown_where(
            displayed.drop_last(),
            tile,
            position,
            end,
            removed,
        ) || (displayed.last().section_key == tile.0 && displayed.last().flow_child == tile.1
            && in_removed_range(displayed.last().window_index as int, position, end) == removed),
{
    let front = displayed.drop_last();
    if shown_where(displayed, tile, position, end, removed) {
        let k = choose|k: int|
            0 <= k < displayed.len() && (#[trigger] displayed[k]).section_key == tile.0
                && displayed[k].flow_child == tile.1 && in_removed_range(
                displayed[k].window_index as int,
                position,
                end,
            ) == removed;
        if k < front.len() {
            assert(front[k] == displayed[k]);
        }
    }
    if shown_where(front, tile, position, end, removed) {
        let k = choose|k: int|
            0 <= k < front.len() && (#[trigger] front[k]).section_key == tile.0
                && front[k].flow_child == tile.1 && in_removed_range(
                front[k].window_index as int,
                position,
                end,
            ) == removed;
        assert(displayed[k] == front[k]);
    }
    assert(displayed[displayed.len() - 1] == displayed.last());
}

proof fn lemma_tiles_shown_push(displayed: Seq<DisplayedItem>, item: DisplayedItem)
    ensures
        forall|tile: (SectionKey, u64)|
            #[trigger] tiles_shown(displayed.push(item)).contains(tile) <==> tiles_shown(
                displayed,
            ).contains(tile) || tile == (item.section_key, item.flow_child),
{
    let grown = displayed.push(item);
    assert forall|tile: (SectionKey, u64)| #[trigger]
        tiles_shown(grown).contains(tile) <==> tiles_shown(displayed).contains(tile) || tile == (
        item.section_key,
        item.flow_child,
    ) by {
        if tiles_shown(grown).contains(tile) {
            let k = choose|k: int|
                0 <= k < grown.len() && (#[trigger] grown[k]).section_key == tile.0
                    && grown[k].flow_child == tile.1;
            if k < displayed.len() {
                assert(displayed[k] == grown[k]);
            }
        }
        if tiles_shown(displayed).contains(tile) {
            let k = choose|k: int|
                0 <= k < displayed.len() && (#[trigger] displayed[k]).section_key == tile.0
                    && displayed[k].flow_child == tile.1;
            assert(grown[k] == displayed[k]);
        }
        assert(grown[displayed.len() as int] == item);
    }
}

proof fn lemma_kept_tiles(
    displayed: Seq<DisplayedItem>,
    position: int,
    end: int,
    removed: u32,
)
    ensures
        forall|tile: (SectionKey, u64)|
            #[trigger] tiles_shown(kept_displayed(displayed, position, end, removed)).contains(tile)
                <==> shown_where(displayed, tile, position, end, false),
    decreases displayed.len(),
{
    let kept = kept_displayed(displayed, position, end, removed);
    if displayed.len() == 0 {
        assert forall|tile: (SectionKey, u64)| !(#[trigger] tiles_shown(kept).contains(tile)) by {}
    } else {
        let before = kept_displayed(displayed.drop_last(), position, end, removed);
        lemma_kept_tiles(displayed.drop_last(), position, end, removed);
        let item = displayed.last();
        let moved = DisplayedItem {
            window_index: item.window_index.saturating_sub(removed),
            ..item
        };
        lemma_tiles_shown_push(before, item);
        lemma_tiles_shown_push(before, moved);
        assert forall|tile: (SectionKey, u64)| #[trigger]
            tiles_shown(kept).contains(tile) <==> shown_where(
                displayed,
                tile,
                position,
                end,
                false,
            ) by {
            lemma_shown_where_push(displayed, tile, position, end, false);
            assert(tiles_shown(before).contains(tile) <==> shown_where(
                displayed.drop_last(),
                tile,
                position,
                end,
                false,
            ));
        }
    }
}

proof fn lemma_lost_tiles(displayed: Seq<DisplayedItem>, position: int, end: int)
    ensures
        forall|tile: (SectionKey, u64)|
            #[trigger] tiles_shown(lost_displayed(displayed, position, end)).contains(tile)
                <==> shown_where(displayed, tile, position, end, true),
    decreases displayed.len(),
{
    let lost = lost_displayed(displayed, position, end);
    if displayed.len() == 0 {
        assert forall|tile: (SectionKey, u64)| !(#[trigger] tiles_shown(lost).contains(tile)) by {}
    } else {
        let before = lost_displayed(displayed.drop_last(), position, end);
        lemma_lost_tiles(displayed.drop_last(), position, end);
        lemma_tiles_shown_push(before, displayed.last());
        assert forall|tile: (SectionKey, u64)| #[trigger]
            tiles_shown(lost).contains(tile) <==> shown_where(
                displayed,
                tile,
                position,
                end,
                true,
            ) by {
            lemma_shown_where_push(displayed, tile, position, end, true);
            assert(tiles_shown(before).contains(tile) <==> shown_where(
                displayed.drop_last(),
                tile,
                position,
                end,
                true,
            ));
        }
    }
}

proof fn lemma_kept_children_unique(
    displayed: Seq<DisplayedItem>,
    position: int,
    end: int,
    removed: u32,
)
    requires
        children_unique(displayed),
    ensures
        children_unique(kept_displayed(displayed, position, end, removed)),
        forall|k: int|
            0 <= k < kept_displayed(displayed, position, end, removed).len() ==> exists|d: int|
                0 <= d < displayed.len() && displayed[d].flow_child == (
                #[trigger] kept_displayed(displayed, position, end, removed)[k]).flow_child,
    decreases displayed.len(),
{
    if displayed.len() > 0 {
        let front = displayed.drop_last();
        assert forall|i: int, j: int| 0 <= i < j < front.len() implies (
        #[trigger] front[i]).flow_child != (#[trigger] front[j]).flow_child by {
            assert(displayed[i].flow_child != displayed[j].flow_child);
        }
        lemma_kept_children_unique(front, position, end, removed);
        let before = kept_displayed(front, position, end, removed);
        let kept = kept_displayed(displayed, position, end, removed);
        assert forall|k: int| 0 <= k < kept.len() implies exists|d: int|
            0 <= d < displayed.len() && displayed[d].flow_child == (#[trigger] kept[k]).flow_child by {
            if k < before.len() {
                assert(kept[k] == before[k]);
                let d = choose|d: int|
                    0 <= d < front.len() && front[d].flow_child == before[k].flow_child;
                assert(displayed[d].flow_child == kept[k].flow_child);
            } else {
                assert(displayed[displayed.len() - 1].flow_child == kept[k].flow_child);
            }
        }
        assert forall|i: int, j: int| 0 <= i < j < kept.len() implies (
        #[trigger] kept[i]).flow_child != (#[trigger] kept[j]).flow_child by {
            if j < before.len() {
                assert(before[i].flow_child != before[j].flow_child);
            } else {
                assert(kept[i] == before[i]);
                let d = choose|d: int|
                    0 <= d < front.len() && front[d].flow_child == before[i].flow_child;
                assert(displayed[d].flow_child != displayed[displayed.len() - 1].flow_child);
            }
        }
    }
}

proof fn lemma_last_section_stays(
    sections: Seq<SectionTiles>,
    next: u64,
    items: Seq<DisplayedItem>,
    extra: u64,
)
    requires
        proper_sections(sections),
        tiles_unique(sections, next),
        sections.len() > 0,
        sections.last().tiles.contains(extra),
        !children_of(items).contains(extra),
    ensures
        without_children(sections, items).len() > 0,
        without_children(sections, items).last().key == sections.last().key,
        without_children(sections, items).last().tiles.contains(extra),
    decreases items.len(),
{
    if items.len() > 0 {
        let front = items.drop_last();
        let child = items.last().flow_child;
        assert(children_of(items)[items.len() - 1] == child);
        assert(!children_of(front).contains(extra)) by {
            if children_of(front).contains(extra) {
                let k = choose|k: int| 0 <= k < front.len() && children_of(front)[k] == extra;
                assert(children_of(items)[k] == extra);
            }
        }
        lemma_last_section_stays(sections, next, front, extra);
        lemma_without_children(sections, next, front);
        let before = without_children(sections, front);
        let at = section_with_child(before, child);
        lemma_section_with_child(before, child);
        let last = before.last();
        let t = choose|t: int| 0 <= t < last.tiles.len() && last.tiles[t] == extra;
        if at == before.len() - 1 {
            lemma_tile_position(last.tiles, child);
            let gone = tile_position(last.tiles, child);
            assert(t != gone);
            let left = last.tiles.remove(gone);
            assert(left[if t < gone { t } else { t - 1 }] == extra);
        }
    }
}

/// Following a removal from the list keeps the board in order.
pub proof fn removal_keeps_the_board_in_order(board: BoardView, position: u32, removed: u32)
    requires
        board.wf(),
    ensures
        board_after_removal(board, position, removed).wf(),
{
    let end = range_end(position, removed);
    let p = position as int;
    let after = board_after_removal(board, position, removed);
    let lost = lost_displayed(board.displayed, p, end);
    lemma_without_children(board.sections, board.next_child, lost);
    lemma_kept_tiles(board.displayed, p, end, removed);
    lemma_lost_tiles(board.displayed, p, end);
    lemma_kept_children_unique(board.displayed, p, end, removed);
    lemma_lost_children(board.displayed, p, end);
    match board.extra {
        Some(extra) => {
            lemma_extra_is_last(board);
            lemma_last_section_stays(board.sections, board.next_child, lost, extra);
            assert forall|k: int| 0 <= k < after.displayed.len() implies (
            #[trigger] after.displayed[k]).flow_child != extra by {
                let d = choose|d: int|
                    0 <= d < board.displayed.len() && board.displayed[d].flow_child
                        == after.displayed[k].flow_child;
                assert(board.displayed[d].flow_child != extra);
            }
        },
        None => {},
    }
    assert forall|tile: (SectionKey, u64)|
        tiles_of(after.sections).contains(tile) <==> after.tiles_used().contains(tile) by {
        assert(tiles_of(board.sections).contains(tile) <==> board.tiles_used().contains(tile));
        let d = board.displayed;
        if tiles_of(after.sections).contains(tile) && !board.is_extra(tile) {
            assert(tiles_shown(d).contains(tile));
            let k = choose|k: int|
                0 <= k < d.len() && (#[trigger] d[k]).section_key == tile.0 && d[k].flow_child
                    == tile.1;
            if in_removed_range(d[k].window_index as int, p, end) {
                assert(shown_where(d, tile, p, end, true));
                assert(tiles_shown(lost).contains(tile));
                let m = choose|m: int|
                    0 <= m < lost.len() && (#[trigger] lost[m]).section_key == tile.0
                        && lost[m].flow_child == tile.1;
                assert(children_of(lost)[m] == tile.1);
            }
            assert(shown_where(d, tile, p, end, false));
        }
        if tiles_shown(after.displayed).contains(tile) {
            assert(shown_where(d, tile, p, end, false));
            let k = choose|k: int|
                0 <= k < d.len() && (#[trigger] d[k]).section_key == tile.0 && d[k].flow_child
                    == tile.1 && !in_removed_range(d[k].window_index as int, p, end);
            assert(tiles_shown(d).contains(tile));
            if children_of(lost).contains(tile.1) {
                let m = choose|m: int|
                    0 <= m < d.len() && (#[trigger] d[m]).flow_child == tile.1
                        && in_removed_range(d[m].window_index as int, p, end);
                if k < m {
                    assert(d[k].flow_child != d[m].flow_child);
                } else if m < k {
                    assert(d[m].flow_child != d[k].flow_child);
                }
            }
        }
        if after.is_extra(tile) {
            assert(board.is_extra(tile));
        }
    }
    assert(tiles_of(after.sections) =~= after.tiles_used());
}

/// The lost photos were displayed, at a removed position.
proof fn lemma_lost_children(displayed: Seq<DisplayedItem>, position: int, end: int)
    ensures
        forall|child: u64|
            #[trigger] children_of(lost_displayed(displayed, position, end)).contains(child)
                ==> exists|m: int|
                0 <= m < displayed.len() && (#[trigger] displayed[m]).flow_child == child
                    && in_removed_range(displayed[m].window_index as int, position, end),
{
    let lost = lost_displayed(displayed, position, end);
    lemma_lost_tiles(displayed, position, end);
    assert forall|child: u64| #[trigger] children_of(lost).contains(child) implies exists|m: int|
        0 <= m < displayed.len() && (#[trigger] displayed[m]).flow_child == child
            && in_removed_range(displayed[m].window_index as int, position, end) by {
        let k = choose|k: int| 0 <= k < lost.len() && children_of(lost)[k] == child;
        let tile = (lost[k].section_key, child);
        assert(tiles_shown(lost).contains(tile));
        assert(shown_where(displayed, tile, position, end, true));
    }
}

/// The extra child's tile is in the last section.
proof fn lemma_extra_is_last(board: BoardView)
    requires
        board.wf(),
        board.extra is Some,
    ensures
        board.sections.len() > 0,
        board.sections.last().tiles.contains(board.extra->0),
{
    let extra = board.extra->0;
    let tile = (board.sections.last().key, extra);
    assert(board.is_extra(tile));
    assert(board.tiles_used().contains(tile));
    assert(tiles_of(board.sections).contains(tile));
    let (i, t) = choose|i: int, t: int|
        #![trigger board.sections[i].tiles[t]]
        0 <= i < board.sections.len() && 0 <= t < board.sections[i].tiles.len()
            && board.sections[i].key == tile.0 && board.sections[i].tiles[t] == tile.1;
    let last = board.sections.len() - 1;
    if i < last {
        assert(board.sections[i].key != board.sections[last].key);
    }
    assert(board.sections.last().tiles[t] == extra);
}

// ---------------------------------------------------------------------------
// Placing tiles

proof fn lemma_with_children(
    sections: Seq<SectionTiles>,
    next: u64,
    at: int,
    slot: int,
    children: Seq<u64>,
)
    requires
        proper_sections(sections),
        tiles_unique(sections, next),
        0 <= at < sections.len(),
        0 <= slot <= sections[at].tiles.len(),
        next + children.len() <= u64::MAX,
        forall|k: int| 0 <= k < children.len() ==> #[trigger] children[k] == next + k,
    ensures
        proper_sections(with_children(sections, at, slot, children)),
        tiles_unique(
            with_children(sections, at, slot, children),
            (next + children.len()) as u64,
        ),
        forall|tile: (SectionKey, u64)|
            #[trigger] tiles_of(with_children(sections, at, slot, children)).contains(tile)
                <==> tiles_of(sections).contains(tile) || (tile.0 == sections[at].key
                && children.contains(tile.1)),
{
    let result = with_children(sections, at, slot, children);
    let n = children.len() as int;
    let old_tiles = sections[at].tiles;
    let tiles = result[at].tiles;
    assert forall|i: int, j: int| 0 <= i < j < result.len() implies (#[trigger] result[i]).key != (
    #[trigger] result[j]).key by {
        assert(sections[i].key != sections[j].key);
    }
    assert forall|i: int| 0 <= i < result.len() implies (#[trigger] result[i]).tiles.len() > 0 by {
        assert(sections[i].tiles.len() > 0);
    }
    assert forall|i: int, t: int|
        #![trigger result[i].tiles[t]]
        0 <= i < result.len() && 0 <= t < result[i].tiles.len() implies if i == at && slot <= t
        < slot + n {
        result[i].tiles[t] == next + (t - slot)
    } else {
        let u = if i == at && t >= slot + n { t - n } else { t };
        &&& 0 <= u < sections[i].tiles.len()
        &&& result[i].tiles[t] == sections[i].tiles[u]
        &&& sections[i].tiles[u] < next
    } by {
        if i == at {
            if slot <= t < slot + n {
                assert(result[i].tiles[t] == children[t - slot]);
            } else {
                let u = if t >= slot + n { t - n } else { t };
                assert(tiles[t] == old_tiles[u]);
                assert(sections[i].tiles[u] < next);
            }
        } else {
            assert(sections[i].tiles[t] < next);
        }
    }
    assert forall|i: int, t: int, j: int, u: int|
        #![trigger result[i].tiles[t], result[j].tiles[u]]
        0 <= i < result.len() && 0 <= t < result[i].tiles.len() && 0 <= j < result.len() && 0 <= u
            < result[j].tiles.len() && result[i].tiles[t] == result[j].tiles[u] implies i == j && t
        == u by {
        let new_t = i == at && slot <= t < slot + n;
        let new_u = j == at && slot <= u < slot + n;
        if !new_t && !new_u {
            let a = if i == at && t >= slot + n { t - n } else { t };
            let b = if j == at && u >= slot + n { u - n } else { u };
            assert(sections[i].tiles[a] == sections[j].tiles[b]);
        }
    }
    assert forall|tile: (SectionKey, u64)| #[trigger]
        tiles_of(result).contains(tile) <==> tiles_of(sections).contains(tile) || (tile.0
            == sections[at].key && children.contains(tile.1)) by {
        if tiles_of(result).contains(tile) {
            let (i, t) = choose|i: int, t: int|
                #![trigger result[i].tiles[t]]
                0 <= i < result.len() && 0 <= t < result[i].tiles.len() && result[i].key == tile.0
                    && result[i].tiles[t] == tile.1;
            if i == at && slot <= t < slot + n {
                assert(children[t - slot] == tile.1);
            } else {
                let u = if i == at && t >= slot + n { t - n } else { t };
                assert(sections[i].tiles[u] == tile.1);
            }
        }
        if tiles_of(sections).contains(tile) {
            let (i, u) = choose|i: int, u: int|
                #![trigger sections[i].tiles[u]]
                0 <= i < sections.len() && 0 <= u < sections[i].tiles.len() && sections[i].key
                    == tile.0 && sections[i].tiles[u] == tile.1;
            let t = if i == at && u >= slot { u + n } else { u };
            assert(result[i].tiles[t] == tile.1);
        }
        if tile.0 == sections[at].key && children.contains(tile.1) {
            let k = choose|k: int| 0 <= k < children.len() && children[k] == tile.1;
            assert(tiles[slot + k] == tile.1);
        }
    }
}

pub proof fn lemma_fresh(
    items: Seq<MediaItem>,
    ready: Seq<bool>,
    position: u32,
    key: SectionKey,
    next: u64,
)
    requires
        position + items.len() <= u32::MAX,
        next + items.len() <= u64::MAX,
    ensures
        ({
            let fresh = fresh_displayed(items, ready, position, key, next);
            &&& fresh.len() <= items.len()
            &&& forall|k: int|
                0 <= k < fresh.len() ==> {
                    &&& (#[trigger] fresh[k]).flow_child == next + k
                    &&& fresh[k].section_key == key
                    &&& position <= fresh[k].window_index < position + items.len()
                    &&& fresh[k].media_id == items[fresh[k].window_index - position].id
                }
        }),
    decreases items.len(),
{
    if items.len() > 0 {
        let front = items.drop_last();
        lemma_fresh(front, ready, position, key, next);
        let before = fresh_displayed(front, ready, position, key, next);
        let fresh = fresh_displayed(items, ready, position, key, next);
        assert forall|k: int| 0 <= k < fresh.len() implies {
            &&& (#[trigger] fresh[k]).flow_child == next + k
            &&& fresh[k].section_key == key
            &&& position <= fresh[k].window_index < position + items.len()
            &&& fresh[k].media_id == items[fresh[k].window_index - position].id
        } by {
            if k < before.len() {
                assert(fresh[k] == before[k]);
                assert(front[before[k].window_index - position]
                    == items[before[k].window_index - position]);
            }
        }
    }
}

pub proof fn lemma_in_list_order(displayed: Seq<DisplayedItem>)
    ensures
        in_list_order(displayed).len() == displayed.len(),
        forall|item: DisplayedItem|
            #[trigger] in_list_order(displayed).contains(item) <==> displayed.contains(item),
        children_unique(displayed) ==> children_unique(in_list_order(displayed)),
        increasing_indices(in_list_order(displayed)),
    decreases displayed.len(),
{
    if displayed.len() > 0 {
        let front = displayed.drop_last();
        let last = displayed.last();
        lemma_in_list_order(front);
        let before = in_list_order(front);
        lemma_index_slot(before, last);
        let slot = index_slot(before, last);
        let after = in_list_order(displayed);
        assert(after == before.insert(slot, last));
        assert forall|item: DisplayedItem| #[trigger]
            after.contains(item) <==> displayed.contains(item) by {
            assert(before.contains(item) <==> front.contains(item));
            if after.contains(item) {
                let k = choose|k: int| 0 <= k < after.len() && after[k] == item;
                if k < slot {
                    assert(before[k] == item);
                    assert(before.contains(item));
                } else if k > slot {
                    assert(before[k - 1] == item);
                    assert(before.contains(item));
                } else {
                    assert(displayed[displayed.len() - 1] == item);
                }
                if front.contains(item) {
                    let j = choose|j: int| 0 <= j < front.len() && front[j] == item;
                    assert(displayed[j] == item);
                }
            }
            if displayed.contains(item) {
                let j = choose|j: int| 0 <= j < displayed.len() && displayed[j] == item;
                if j < front.len() {
                    assert(front[j] == item);
                    assert(front.contains(item));
                    let k = choose|k: int| 0 <= k < before.len() && before[k] == item;
                    assert(after[if k < slot { k } else { k + 1 }] == item);
                } else {
                    assert(after[slot] == item);
                }
            }
        }
        if children_unique(displayed) {
            assert(children_unique(front)) by {
                assert forall|i: int, j: int| 0 <= i < j < front.len() implies (
                #[trigger] front[i]).flow_child != (#[trigger] front[j]).flow_child by {
                    assert(displayed[i].flow_child != displayed[j].flow_child);
                }
            }
            assert forall|k: int| 0 <= k < before.len() implies (#[trigger] before[k]).flow_child
                != last.flow_child by {
                assert(before.contains(before[k]));
                let j = choose|j: int| 0 <= j < front.len() && front[j] == before[k];
                assert(displayed[j].flow_child != displayed[displayed.len() - 1].flow_child);
            }
            assert forall|i: int, j: int| 0 <= i < j < after.len() implies (
            #[trigger] after[i]).flow_child != (#[trigger] after[j]).flow_child by {
                let a = if i < slot { i } else { i - 1 };
                let b = if j < slot { j } else { j - 1 };
                if i != slot && j != slot {
                    assert(before[a].flow_child != before[b].flow_child);
                } else if i == slot {
                    assert(before[b].flow_child != last.flow_child);
                } else {
                    assert(before[a].flow_child != last.flow_child);
                }
            }
        }
        assert forall|i: int, j: int| 0 <= i < j < after.len() implies (
        #[trigger] after[i]).window_index <= (#[trigger] after[j]).window_index by {
            let a = if i < slot { i } else { i - 1 };
            let b = if j < slot { j } else { j - 1 };
            if i != slot && j != slot {
                assert(before[a].window_index <= before[b].window_index);
            } else if i == slot {
                assert(before[slot].window_index > last.window_index);
                if b > slot {
                    assert(before[slot].window_index <= before[b].window_index);
                }
            } else {
                assert(before[a].window_index <= last.window_index);
            }
        }
    }
}

/// Do the displayed photos stand in list order?
pub open spec fn increasing_indices(displayed: Seq<DisplayedItem>) -> bool {
    forall|i: int, j: int|
        #![trigger displayed[i], displayed[j]]
        0 <= i < j < displayed.len() ==> displayed[i].window_index <= displayed[j].window_index
}

/// Placing tiles for `fresh` photos in section `at`, while the displayed photos
/// keep their tiles, keeps the board in order.
proof fn lemma_placing(
    board: BoardView,
    base: Seq<DisplayedItem>,
    fresh: Seq<DisplayedItem>,
    at: int,
    slot: int,
)
    requires
        board.wf(),
        base.len() == board.displayed.len(),
        forall|k: int|
            0 <= k < base.len() ==> (#[trigger] base[k]).flow_child == board.displayed[k].flow_child
                && base[k].section_key == board.displayed[k].section_key,
        0 <= at < board.sections.len(),
        0 <= slot <= board.sections[at].tiles.len(),
        board.next_child + fresh.len() <= u64::MAX,
        forall|k: int|
            0 <= k < fresh.len() ==> (#[trigger] fresh[k]).flow_child == board.next_child + k
                && fresh[k].section_key == board.sections[at].key,
    ensures
        (BoardView {
            sections: with_children(board.sections, at, slot, children_of(fresh)),
            displayed: in_list_order(base + fresh),
            extra: board.extra,
            next_child: (board.next_child + fresh.len()) as u64,
        }).wf(),
        increasing_indices(in_list_order(base + fresh)),
{
    let after = BoardView {
        sections: with_children(board.sections, at, slot, children_of(fresh)),
        displayed: in_list_order(base + fresh),
        extra: board.extra,
        next_child: (board.next_child + fresh.len()) as u64,
    };
    let key = board.sections[at].key;
    let children = children_of(fresh);
    assert forall|k: int| 0 <= k < children.len() implies #[trigger] children[k]
        == board.next_child + k by {
        assert(fresh[k].flow_child == board.next_child + k);
    }
    lemma_with_children(board.sections, board.next_child, at, slot, children);
    let all = base + fresh;
    lemma_in_list_order(all);
    assert forall|k: int| 0 <= k < board.displayed.len() implies (
    #[trigger] board.displayed[k]).flow_child < board.next_child by {
        let item = board.displayed[k];
        assert(tiles_shown(board.displayed).contains((item.section_key, item.flow_child)));
        assert(board.tiles_used().contains((item.section_key, item.flow_child)));
        assert(tiles_of(board.sections).contains((item.section_key, item.flow_child)));
        let (i, t) = choose|i: int, t: int|
            #![trigger board.sections[i].tiles[t]]
            0 <= i < board.sections.len() && 0 <= t < board.sections[i].tiles.len()
                && board.sections[i].key == item.section_key && board.sections[i].tiles[t]
                == item.flow_child;
        assert(board.sections[i].tiles[t] < board.next_child);
    }
    assert forall|i: int, j: int| 0 <= i < j < all.len() implies (#[trigger] all[i]).flow_child != (
    #[trigger] all[j]).flow_child by {
        if i < base.len() {
            assert(base[i].flow_child == board.displayed[i].flow_child);
            assert(board.displayed[i].flow_child < board.next_child);
        } else {
            assert(fresh[i - base.len()].flow_child == board.next_child + (i - base.len()));
        }
        if j < base.len() {
            assert(base[j].flow_child == board.displayed[j].flow_child);
            assert(board.displayed[i].flow_child != board.displayed[j].flow_child);
        } else {
            assert(fresh[j - base.len()].flow_child == board.next_child + (j - base.len()));
        }
    }
    assert(after.sections.last().key == board.sections.last().key);
    match board.extra {
        Some(extra) => {
            lemma_extra_is_last(board);
            let last = board.sections.len() - 1;
            let t = choose|t: int|
                0 <= t < board.sections[last].tiles.len() && board.sections[last].tiles[t]
                    == extra;
            assert(board.sections[last].tiles[t] < board.next_child);
            assert forall|k: int| 0 <= k < after.displayed.len() implies (
            #[trigger] after.displayed[k]).flow_child != extra by {
                assert(after.displayed.contains(after.displayed[k]));
                let j = choose|j: int| 0 <= j < all.len() && all[j] == after.displayed[k];
                if j < base.len() {
                    assert(base[j].flow_child == board.displayed[j].flow_child);
                    assert(board.displayed[j].flow_child != extra);
                } else {
                    assert(fresh[j - base.len()].flow_child == board.next_child + (j
                        - base.len()));
                }
            }
        },
        None => {},
    }
    assert forall|tile: (SectionKey, u64)|
        tiles_of(after.sections).contains(tile) <==> after.tiles_used().contains(tile) by {
        assert(tiles_of(board.sections).contains(tile) <==> board.tiles_used().contains(tile));
        assert(board.is_extra(tile) <==> after.is_extra(tile));
        if tiles_of(after.sections).contains(tile) && !board.is_extra(tile) {
            if tiles_of(board.sections).contains(tile) {
                assert(tiles_shown(board.displayed).contains(tile));
                let k = choose|k: int|
                    0 <= k < board.displayed.len() && (#[trigger] board.displayed[k]).section_key
                        == tile.0 && board.displayed[k].flow_child == tile.1;
                assert(base[k].flow_child == tile.1);
                assert(all[k].section_key == tile.0 && all[k].flow_child == tile.1);
                lemma_shown_in_order(all, k, tile);
            } else {
                let k = choose|k: int| 0 <= k < children.len() && children[k] == tile.1;
                assert(fresh[k].section_key == key);
                assert(all[base.len() + k] == fresh[k]);
                lemma_shown_in_order(all, base.len() + k, tile);
            }
        }
        if tiles_shown(after.displayed).contains(tile) {
            let k = choose|k: int|
                0 <= k < after.displayed.len() && (#[trigger] after.displayed[k]).section_key
                    == tile.0 && after.displayed[k].flow_child == tile.1;
            let item = after.displayed[k];
            assert(after.displayed.contains(item));
            let j = choose|j: int| 0 <= j < all.len() && all[j] == item;
            if j < base.len() {
                assert(base[j].section_key == tile.0);
                assert(board.displayed[j].section_key == tile.0);
                assert(tiles_shown(board.displayed).contains(tile));
                assert(board.tiles_used().contains(tile));
            } else {
                assert(fresh[j - base.len()] == item);
                assert(children[j - base.len()] == tile.1);
                assert(children.contains(tile.1));
            }
        }
    }
    assert(tiles_of(after.sections) =~= after.tiles_used());
}

/// Following an insertion into the list keeps the board in order, and leaves the
/// displayed photos in list order.
pub proof fn addition_keeps_the_board_in_order(
    board: BoardView,
    items: Seq<MediaItem>,
    ready: Seq<bool>,
    position: u32,
    key: SectionKey,
)
    requires
        board.wf(),
        section_with_key(board.sections, key) < board.sections.len(),
        position + items.len() <= u32::MAX,
        board.next_child + items.len() <= u64::MAX,
    ensures
        board_after_addition(board, items, ready, position, key).wf(),
        increasing_indices(
            board_after_addition(board, items, ready, position, key).displayed,
        ),
{
    lemma_section_with_key(board.sections, key);
    let at = section_with_key(board.sections, key);
    lemma_tile_slot(board.displayed, board.sections[at].tiles, key, position);
    let slot = tile_slot(board.displayed, board.sections[at].tiles, key, position);
    lemma_fresh(items, ready, position, key, board.next_child);
    let fresh = fresh_displayed(items, ready, position, key, board.next_child);
    let shifted = shifted_displayed(board.displayed, position, items.len() as u32);
    lemma_placing(board, shifted, fresh, at, slot);
}

/// Placing a tile for a single photo keeps the board in order, and leaves the
/// displayed photos in list order.
pub proof fn a_late_photo_keeps_the_board_in_order(
    board: BoardView,
    id: i64,
    index: u32,
    key: SectionKey,
)
    requires
        board.wf(),
        section_with_key(board.sections, key) < board.sections.len(),
        board.next_child < u64::MAX,
    ensures
        board_with_photo(board, id, index, key).wf(),
        increasing_indices(board_with_photo(board, id, index, key).displayed),
{
    lemma_section_with_key(board.sections, key);
    let at = section_with_key(board.sections, key);
    lemma_tile_slot(board.displayed, board.sections[at].tiles, key, index);
    let slot = tile_slot(board.displayed, board.sections[at].tiles, key, index);
    let item = DisplayedItem {
        flow_child: board.next_child,
        window_index: index,
        media_id: id,
        section_key: key,
    };
    let fresh = seq![item];
    assert(children_of(fresh) =~= seq![board.next_child]);
    assert(board.displayed.push(item) =~= board.displayed + fresh);
    lemma_placing(board, board.displayed, fresh, at, slot);
}

/// A displayed photo has its section on the board.
pub proof fn displayed_sections_exist(board: BoardView, key: SectionKey)
    requires
        board.wf(),
        shows_section(board.displayed, key),
    ensures
        section_with_key(board.sections, key) < board.sections.len(),
{
    let d = board.displayed;
    let k = choose|k: int| 0 <= k < d.len() && (#[trigger] d[k]).section_key == key;
    let tile = (key, d[k].flow_child);
    assert(tiles_shown(d).contains(tile));
    assert(board.tiles_used().contains(tile));
    assert(tiles_of(board.sections).contains(tile));
    let (i, t) = choose|i: int, t: int|
        #![trigger board.sections[i].tiles[t]]
        0 <= i < board.sections.len() && 0 <= t < board.sections[i].tiles.len()
            && board.sections[i].key == tile.0 && board.sections[i].tiles[t] == tile.1;
    lemma_section_with_key(board.sections, key);
    assert(board.sections[i].key == key);
}

/// Putting the extra child behind the photos keeps the board in order, and
/// leaves no trace of where it was.
pub proof fn the_extra_child_keeps_the_board_in_order(board: BoardView)
    requires
        board.wf(),
        board.next_child < u64::MAX,
    ensures
        board_with_extra(board).wf(),
        board.sections.len() > 0 ==> {
            &&& board_with_extra(board).sections.last().tiles.last() == board.next_child
            &&& board.extra matches Some(before) ==> !board_with_extra(
                board,
            ).sections.last().tiles.contains(before)
        },
{
    if board.sections.len() > 0 {
        let after = board_with_extra(board);
        let sections = board.sections;
        let last = sections.len() - 1;
        let tiles = sections[last].tiles;
        let kept = without_extra(tiles, board.extra);
        let gone = match board.extra {
            Some(extra) => tile_position(tiles, extra),
            None => tiles.len() as int,
        };
        match board.extra {
            Some(extra) => {
                lemma_extra_is_last(board);
                lemma_tile_position(tiles, extra);
            },
            None => {},
        }
        assert forall|t: int| 0 <= t < kept.len() implies {
            let u = if t < gone { t } else { t + 1 };
            &&& 0 <= u < tiles.len()
            &&& u != gone
            &&& #[trigger] kept[t] == tiles[u]
            &&& tiles[u] < board.next_child
        } by {
            let u = if t < gone { t } else { t + 1 };
            assert(sections[last].tiles[u] < board.next_child);
        }
        let now = after.sections;
        assert(now[last].tiles == kept.push(board.next_child));
        assert forall|i: int, j: int| 0 <= i < j < now.len() implies (#[trigger] now[i]).key != (
        #[trigger] now[j]).key by {
            assert(sections[i].key != sections[j].key);
        }
        assert forall|i: int| 0 <= i < now.len() implies (#[trigger] now[i]).tiles.len() > 0 by {
            assert(sections[i].tiles.len() > 0);
        }
        assert forall|i: int, t: int|
            #![trigger now[i].tiles[t]]
            0 <= i < now.len() && 0 <= t < now[i].tiles.len() implies now[i].tiles[t]
            < after.next_child && (i < last || t < kept.len() ==> now[i].tiles[t]
            < board.next_child) by {
            if i < last {
                assert(sections[i].tiles[t] < board.next_child);
            } else if t < kept.len() {
                assert(now[i].tiles[t] == kept[t]);
            }
        }
        assert forall|i: int, t: int, j: int, u: int|
            #![trigger now[i].tiles[t], now[j].tiles[u]]
            0 <= i < now.len() && 0 <= t < now[i].tiles.len() && 0 <= j < now.len() && 0 <= u
                < now[j].tiles.len() && now[i].tiles[t] == now[j].tiles[u] implies i == j && t
            == u by {
            let new_t = i == last && t == kept.len();
            let new_u = j == last && u == kept.len();
            if !new_t && !new_u {
                let a = if i == last && t >= gone { t + 1 } else { t };
                let b = if j == last && u >= gone { u + 1 } else { u };
                if i == last {
                    assert(now[i].tiles[t] == kept[t]);
                }
                if j == last {
                    assert(now[j].tiles[u] == kept[u]);
                }
                assert(sections[i].tiles[a] == sections[j].tiles[b]);
            }
        }
        assert forall|k: int| 0 <= k < after.displayed.len() implies (
        #[trigger] after.displayed[k]).flow_child != board.next_child by {
            let item = board.displayed[k];
            let tile = (item.section_key, item.flow_child);
            assert(tiles_shown(board.displayed).contains(tile));
            assert(board.tiles_used().contains(tile));
            assert(tiles_of(sections).contains(tile));
            let (i, t) = choose|i: int, t: int|
                #![trigger sections[i].tiles[t]]
                0 <= i < sections.len() && 0 <= t < sections[i].tiles.len() && sections[i].key
                    == tile.0 && sections[i].tiles[t] == tile.1;
            assert(sections[i].tiles[t] < board.next_child);
        }
        assert forall|tile: (SectionKey, u64)|
            tiles_of(now).contains(tile) <==> after.tiles_used().contains(tile) by {
            assert(tiles_of(sections).contains(tile) <==> board.tiles_used().contains(tile));
            if tiles_of(now).contains(tile) {
                let (i, t) = choose|i: int, t: int|
                    #![trigger now[i].tiles[t]]
                    0 <= i < now.len() && 0 <= t < now[i].tiles.len() && now[i].key == tile.0
                        && now[i].tiles[t] == tile.1;
                if i == last && t == kept.len() {
                    assert(after.is_extra(tile));
                } else {
                    let a = if i == last && t >= gone { t + 1 } else { t };
                    if i == last {
                        assert(now[i].tiles[t] == kept[t]);
                    }
                    assert(sections[i].tiles[a] == tile.1);
                    if board.is_extra(tile) {
                        assert(sections[last].tiles[gone] == tile.1);
                        assert(sections[i].tiles[a] == sections[last].tiles[gone]);
                    }
                }
            }
            if tiles_shown(after.displayed).contains(tile) {
                assert(board.tiles_used().contains(tile));
                let (i, u) = choose|i: int, u: int|
                    #![trigger sections[i].tiles[u]]
                    0 <= i < sections.len() && 0 <= u < sections[i].tiles.len() && sections[i].key
                        == tile.0 && sections[i].tiles[u] == tile.1;
                let k = choose|k: int|
                    0 <= k < board.displayed.len() && (#[trigger] board.displayed[k]).section_key
                        == tile.0 && board.displayed[k].flow_child == tile.1;
                if i == last {
                    if u == gone {
                        assert(board.displayed[k].flow_child != board.extra->0);
                    }
                    let t = if u < gone { u } else { u - 1 };
                    assert(kept[t] == tiles[u]);
                    assert(now[i].tiles[t] == tile.1);
                } else {
                    assert(now[i].tiles[u] == tile.1);
                }
            }
            if after.is_extra(tile) {
                assert(now[last].tiles[kept.len() as int] == tile.1);
            }
        }
        assert(tiles_of(now) =~= after.tiles_used());
        match board.extra {
            Some(extra) => {
                if now[last].tiles.contains(extra) {
                    let t = choose|t: int|
                        0 <= t < now[last].tiles.len() && now[last].tiles[t] == extra;
                    assert(sections[last].tiles[gone] == extra);
                    assert(sections[last].tiles[gone] < board.next_child);
                    assert(t < kept.len());
                    let u = if t < gone { t } else { t + 1 };
                    assert(kept[t] == tiles[u]);
                    assert(sections[last].tiles[u] == sections[last].tiles[gone]);
                }
            },
            None => {},
        }
    }
}

/// Renewing the headers keeps the board in order.
pub proof fn relabelling_keeps_the_board_in_order(
    board: BoardView,
    groups: Seq<SectionGroup>,
    counts: Option<Map<SectionKey, u32>>,
)
    requires
        board.wf(),
    ensures
        (BoardView { sections: relabelled(board.sections, groups, counts), ..board }).wf(),
{
    let after = BoardView { sections: relabelled(board.sections, groups, counts), ..board };
    let (old_s, new_s) = (board.sections, after.sections);
    assert forall|i: int| 0 <= i < new_s.len() implies (#[trigger] new_s[i]).key == old_s[i].key
        && new_s[i].tiles == old_s[i].tiles by {}
    assert forall|i: int, j: int| 0 <= i < j < new_s.len() implies (#[trigger] new_s[i]).key != (
    #[trigger] new_s[j]).key by {
        assert(old_s[i].key != old_s[j].key);
    }
    assert forall|i: int| 0 <= i < new_s.len() implies (#[trigger] new_s[i]).tiles.len() > 0 by {
        assert(old_s[i].tiles.len() > 0);
    }
    assert forall|i: int, t: int, j: int, u: int|
        #![trigger new_s[i].tiles[t], new_s[j].tiles[u]]
        0 <= i < new_s.len() && 0 <= t < new_s[i].tiles.len() && 0 <= j < new_s.len() && 0 <= u
            < new_s[j].tiles.len() && new_s[i].tiles[t] == new_s[j].tiles[u] implies i == j && t
        == u by {
        assert(old_s[i].tiles[t] == old_s[j].tiles[u]);
    }
    assert forall|i: int, t: int|
        #![trigger new_s[i].tiles[t]]
        0 <= i < new_s.len() && 0 <= t < new_s[i].tiles.len() implies new_s[i].tiles[t]
        < after.next_child by {
        assert(old_s[i].tiles[t] < board.next_child);
    }
    assert forall|tile: (SectionKey, u64)|
        tiles_of(new_s).contains(tile) <==> after.tiles_used().contains(tile) by {
        assert(tiles_of(old_s).contains(tile) <==> board.tiles_used().contains(tile));
        assert(board.is_extra(tile) <==> after.is_extra(tile));
        if tiles_of(new_s).contains(tile) {
            let (i, t) = choose|i: int, t: int|
                #![trigger new_s[i].tiles[t]]
                0 <= i < new_s.len() && 0 <= t < new_s[i].tiles.len() && new_s[i].key == tile.0
                    && new_s[i].tiles[t] == tile.1;
            assert(old_s[i].tiles[t] == tile.1);
        }
        if tiles_of(old_s).contains(tile) {
            let (i, t) = choose|i: int, t: int|
                #![trigger old_s[i].tiles[t]]
                0 <= i < old_s.len() && 0 <= t < old_s[i].tiles.len() && old_s[i].key == tile.0
                    && old_s[i].tiles[t] == tile.1;
            assert(new_s[i].tiles[t] == tile.1);
        }
    }
    assert(tiles_of(new_s) =~= after.tiles_used());
}

proof fn lemma_shown_in_order(all: Seq<DisplayedItem>, at: int, tile: (SectionKey, u64))
    requires
        0 <= at < all.len(),
        all[at].section_key == tile.0,
        all[at].flow_child == tile.1,
    ensures
        tiles_shown(in_list_order(all)).contains(tile),
{
    lemma_in_list_order(all);
    assert(all.contains(all[at]));
    let ordered = in_list_order(all);
    assert(ordered.contains(all[at]));
    let k = choose|k: int| 0 <= k < ordered.len() && ordered[k] == all[at];
    assert(ordered[k].section_key == tile.0);
}

// ---------------------------------------------------------------------------
// Building a board

pub proof fn lemma_built(
    items: Seq<MediaItem>,
    groups: Seq<SectionGroup>,
    flat: bool,
    counts: Option<Map<SectionKey, u32>>,
)
    requires
        proper_groups(groups),
        built_displayed(items, groups).len() <= u64::MAX,
    ensures
        built_board(items, groups, flat, counts).wf(),
        built_sections(items, groups, flat, counts).len() == groups.len(),
        forall|i: int|
            0 <= i < groups.len() ==> (#[trigger] built_sections(items, groups, flat, counts)[i]).key
                == groups[i].key,
        forall|k: int|
            0 <= k < built_displayed(items, groups).len() ==> (
            #[trigger] built_displayed(items, groups)[k]).flow_child == k,
    decreases groups.len(),
{
    let sections = built_sections(items, groups, flat, counts);
    let displayed = built_displayed(items, groups);
    let board = built_board(items, groups, flat, counts);
    if groups.len() == 0 {
        assert(tiles_of(sections) =~= board.tiles_used());
    } else {
        let front = groups.drop_last();
        let group = groups.last();
        assert forall|i: int, j: int| 0 <= i < j < front.len() implies (
        #[trigger] front[i]).key != (#[trigger] front[j]).key by {
            assert(groups[i].key != groups[j].key);
        }
        assert forall|i: int| 0 <= i < front.len() implies (
        #[trigger] front[i]).members.len() > 0 by {
            assert(groups[i].members.len() > 0);
        }
        lemma_built(items, front, flat, counts);
        let before = built_sections(items, front, flat, counts);
        let shown = built_displayed(items, front);
        let start = shown.len();
        assert(groups[groups.len() - 1].members.len() > 0);
        let run = displayed_run(items, group, start as int);
        assert(displayed == shown + run);
        assert(sections == before.push(sections.last()));
        let last = sections.last();
        assert forall|k: int| 0 <= k < displayed.len() implies (
        #[trigger] displayed[k]).flow_child == k by {
            if k < start {
                assert(shown[k].flow_child == k);
            } else {
                assert(displayed[k] == run[k - start]);
            }
        }
        assert forall|i: int| 0 <= i < groups.len() implies (#[trigger] sections[i]).key
            == groups[i].key by {
            if i < front.len() {
                assert(sections[i] == before[i]);
                assert(front[i] == groups[i]);
            }
        }
        assert forall|i: int, j: int| 0 <= i < j < sections.len() implies (
        #[trigger] sections[i]).key != (#[trigger] sections[j]).key by {
            assert(groups[i].key != groups[j].key);
        }
        assert forall|i: int| 0 <= i < sections.len() implies (
        #[trigger] sections[i]).tiles.len() > 0 by {
            if i < before.len() {
                assert(before[i].tiles.len() > 0);
            }
        }
        let next = displayed.len() as u64;
        assert forall|i: int, t: int|
            #![trigger sections[i].tiles[t]]
            0 <= i < sections.len() && 0 <= t < sections[i].tiles.len() implies (if i
            < before.len() {
            sections[i].tiles[t] < start
        } else {
            sections[i].tiles[t] == start + t
        }) by {
            if i < before.len() {
                assert(before[i].tiles[t] < start as u64);
            }
        }
        assert forall|i: int, t: int, j: int, u: int|
            #![trigger sections[i].tiles[t], sections[j].tiles[u]]
            0 <= i < sections.len() && 0 <= t < sections[i].tiles.len() && 0 <= j < sections.len()
                && 0 <= u < sections[j].tiles.len() && sections[i].tiles[t]
                == sections[j].tiles[u] implies i == j && t == u by {
            if i < before.len() && j < before.len() {
                assert(before[i].tiles[t] == before[j].tiles[u]);
            }
        }
        assert forall|tile: (SectionKey, u64)|
            tiles_of(sections).contains(tile) <==> tiles_shown(displayed).contains(tile) by {
            let smaller = built_board(items, front, flat, counts);
            assert(tiles_of(before).contains(tile) <==> smaller.tiles_used().contains(tile));
            if tiles_of(sections).contains(tile) {
                let (i, t) = choose|i: int, t: int|
                    #![trigger sections[i].tiles[t]]
                    0 <= i < sections.len() && 0 <= t < sections[i].tiles.len() && sections[i].key
                        == tile.0 && sections[i].tiles[t] == tile.1;
                if i < before.len() {
                    assert(before[i].tiles[t] == tile.1);
                    assert(tiles_of(before).contains(tile));
                    let k = choose|k: int|
                        0 <= k < shown.len() && (#[trigger] shown[k]).section_key == tile.0
                            && shown[k].flow_child == tile.1;
                    assert(displayed[k] == shown[k]);
                } else {
                    assert(displayed[start + t] == run[t]);
                }
            }
            if tiles_shown(displayed).contains(tile) {
                let k = choose|k: int|
                    0 <= k < displayed.len() && (#[trigger] displayed[k]).section_key == tile.0
                        && displayed[k].flow_child == tile.1;
                if k < start {
                    assert(shown[k] == displayed[k]);
                    assert(tiles_shown(shown).contains(tile));
                    let (i, t) = choose|i: int, t: int|
                        #![trigger before[i].tiles[t]]
                        0 <= i < before.len() && 0 <= t < before[i].tiles.len() && before[i].key
                            == tile.0 && before[i].tiles[t] == tile.1;
                    assert(sections[i].tiles[t] == tile.1);
                } else {
                    assert(displayed[k] == run[k - start]);
                    assert(sections[before.len() as int].tiles[k - start] == tile.1);
                }
            }
        }
        assert(tiles_of(sections) =~= board.tiles_used());
    }
}

/// A freshly built board is in order, with one section for every group of
/// photos, in group order.
pub proof fn building_makes_a_board_in_order(
    items: Seq<MediaItem>,
    groups: Seq<SectionGroup>,
    flat: bool,
    counts: Option<Map<SectionKey, u32>>,
)
    requires
        proper_groups(groups),
        built_displayed(items, groups).len() <= u64::MAX,
    ensures
        built_board(items, groups, flat, counts).wf(),
        built_board(items, groups, flat, counts).sections.len() == groups.len(),
        forall|i: int|
            0 <= i < groups.len() ==> (#[trigger] built_board(
                items,
                groups,
                flat,
                counts,
            ).sections[i]).key == groups[i].key,
{
    lemma_built(items, groups, flat, counts);
}

// ---------------------------------------------------------------------------
// Which photo a tile stands for

/// Does every displayed photo name the list position it really has?
pub open spec fn points_at(items: Seq<MediaItem>, displayed: Seq<DisplayedItem>) -> bool {
    forall|k: int|
        0 <= k < displayed.len() ==> (#[trigger] displayed[k]).window_index < items.len()
            && items[displayed[k].window_index as int].id == displayed[k].media_id
}

/// Does every displayed photo stand in the section of its date?
pub open spec fn in_date_sections(
    items: Seq<MediaItem>,
    displayed: Seq<DisplayedItem>,
    mode: GroupBy,
) -> bool {
    forall|k: int|
        0 <= k < displayed.len() ==> section_of(
            items[(#[trigger] displayed[k]).window_index as int],
            mode,
        ) == displayed[k].section_key
}

pub proof fn lemma_kept(
    displayed: Seq<DisplayedItem>,
    position: int,
    end: int,
    removed: u32,
)
    ensures
        forall|k: int|
            0 <= k < kept_displayed(displayed, position, end, removed).len() ==> exists|d: int|
                #![trigger displayed[d]]
                {
                    let kept = #[trigger] kept_displayed(displayed, position, end, removed)[k];
                    &&& 0 <= d < displayed.len()
                    &&& !in_removed_range(displayed[d].window_index as int, position, end)
                    &&& kept.flow_child == displayed[d].flow_child
                    &&& kept.media_id == displayed[d].media_id
                    &&& kept.section_key == displayed[d].section_key
                    &&& kept.window_index == if displayed[d].window_index >= end {
                        displayed[d].window_index.saturating_sub(removed)
                    } else {
                        displayed[d].window_index
                    }
                },
    decreases displayed.len(),
{
    if displayed.len() > 0 {
        let front = displayed.drop_last();
        lemma_kept(front, position, end, removed);
        let before = kept_displayed(front, position, end, removed);
        let kept = kept_displayed(displayed, position, end, removed);
        assert forall|k: int| 0 <= k < kept.len() implies exists|d: int|
            #![trigger displayed[d]]
            {
                let item = #[trigger] kept[k];
                &&& 0 <= d < displayed.len()
                &&& !in_removed_range(displayed[d].window_index as int, position, end)
                &&& item.flow_child == displayed[d].flow_child
                &&& item.media_id == displayed[d].media_id
                &&& item.section_key == displayed[d].section_key
                &&& item.window_index == if displayed[d].window_index >= end {
                    displayed[d].window_index.saturating_sub(removed)
                } else {
                    displayed[d].window_index
                }
            } by {
            if k < before.len() {
                assert(kept[k] == before[k]);
                let d = choose|d: int|
                    #![trigger front[d]]
                    {
                        let item = before[k];
                        &&& 0 <= d < front.len()
                        &&& !in_removed_range(front[d].window_index as int, position, end)
                        &&& item.flow_child == front[d].flow_child
                        &&& item.media_id == front[d].media_id
                        &&& item.section_key == front[d].section_key
                        &&& item.window_index == if front[d].window_index >= end {
                            front[d].window_index.saturating_sub(removed)
                        } else {
                            front[d].window_index
                        }
                    };
                assert(displayed[d] == front[d]);
            } else {
                assert(displayed[displayed.len() - 1] == displayed.last());
            }
        }
    }
}

/// After following a removal, every displayed photo still names its own list
/// position and stands in the section of its date: no stale positions.
pub proof fn removal_keeps_positions_live(
    board: BoardView,
    items: Seq<MediaItem>,
    position: u32,
    removed: u32,
    mode: GroupBy,
)
    requires
        points_at(items, board.displayed),
        items.len() <= u32::MAX,
        position + removed <= items.len(),
    ensures
        ({
            let left = edited(
                items,
                EditView { position: position as int, removed: removed as int, added: Seq::empty() },
            );
            let after = board_after_removal(board, position, removed).displayed;
            &&& points_at(left, after)
            &&& in_date_sections(items, board.displayed, mode) ==> in_date_sections(left, after, mode)
        }),
{
    let left = edited(
        items,
        EditView { position: position as int, removed: removed as int, added: Seq::empty() },
    );
    let d = board.displayed;
    let end = range_end(position, removed);
    let after = board_after_removal(board, position, removed).displayed;
    lemma_kept(d, position as int, end, removed);
    assert forall|k: int| 0 <= k < after.len() implies {
        &&& (#[trigger] after[k]).window_index < left.len()
        &&& left[after[k].window_index as int].id == after[k].media_id
        &&& in_date_sections(items, d, mode) ==> section_of(
            left[after[k].window_index as int],
            mode,
        ) == after[k].section_key
    } by {
        let j = choose|j: int|
            #![trigger d[j]]
            {
                let item = after[k];
                &&& 0 <= j < d.len()
                &&& !in_removed_range(d[j].window_index as int, position as int, end)
                &&& item.flow_child == d[j].flow_child
                &&& item.media_id == d[j].media_id
                &&& item.section_key == d[j].section_key
                &&& item.window_index == if d[j].window_index >= end {
                    d[j].window_index.saturating_sub(removed)
                } else {
                    d[j].window_index
                }
            };
        assert(d[j].window_index < items.len());
        assert(left[after[k].window_index as int] == items[d[j].window_index as int]);
    }
}

/// After following an insertion, every displayed photo still names its own list
/// position and stands in the section of its date.
pub proof fn addition_keeps_positions_live(
    board: BoardView,
    items: Seq<MediaItem>,
    added: Seq<MediaItem>,
    ready: Seq<bool>,
    position: u32,
    key: SectionKey,
    mode: GroupBy,
)
    requires
        points_at(items, board.displayed),
        position <= items.len(),
        items.len() + added.len() <= u32::MAX,
        board.next_child + added.len() <= u64::MAX,
    ensures
        ({
            let grown = edited(
                items,
                EditView { position: position as int, removed: 0, added },
            );
            let after = board_after_addition(board, added, ready, position, key).displayed;
            &&& points_at(grown, after)
            &&& in_date_sections(items, board.displayed, mode) && (forall|i: int|
                0 <= i < added.len() ==> section_of(#[trigger] added[i], mode) == key)
                ==> in_date_sections(grown, after, mode)
        }),
{
    let grown = edited(items, EditView { position: position as int, removed: 0, added });
    let after = board_after_addition(board, added, ready, position, key).displayed;
    let n = added.len() as u32;
    let shifted = shifted_displayed(board.displayed, position, n);
    lemma_fresh(added, ready, position, key, board.next_child);
    let fresh = fresh_displayed(added, ready, position, key, board.next_child);
    let all = shifted + fresh;
    lemma_in_list_order(all);
    let sorted_in = in_date_sections(items, board.displayed, mode) && (forall|i: int|
        0 <= i < added.len() ==> section_of(#[trigger] added[i], mode) == key);
    assert forall|k: int| 0 <= k < after.len() implies {
        &&& (#[trigger] after[k]).window_index < grown.len()
        &&& grown[after[k].window_index as int].id == after[k].media_id
        &&& sorted_in ==> section_of(grown[after[k].window_index as int], mode)
            == after[k].section_key
    } by {
        assert(after.contains(after[k]));
        let j = choose|j: int| 0 <= j < all.len() && all[j] == after[k];
        if j < shifted.len() {
            assert(board.displayed[j].window_index < items.len());
            assert(grown[after[k].window_index as int]
                == items[board.displayed[j].window_index as int]);
        } else {
            assert(fresh[j - shifted.len()] == after[k]);
            assert(grown[after[k].window_index as int] == added[after[k].window_index - position]);
        }
    }
}

proof fn lemma_built_positions(
    items: Seq<MediaItem>,
    groups: Seq<SectionGroup>,
)
    requires
        distinct_uris(items),
        items.len() <= u32::MAX,
        forall|g: int, m: int|
            #![trigger groups[g].members[m]]
            0 <= g < groups.len() && 0 <= m < groups[g].members.len() ==> groups[g].members[m]
                < items.len(),
    ensures
        forall|k: int|
            0 <= k < built_displayed(items, groups).len() ==> exists|g: int, m: int|
                #![trigger groups[g].members[m]]
                {
                    let item = #[trigger] built_displayed(items, groups)[k];
                    &&& 0 <= g < groups.len() && 0 <= m < groups[g].members.len()
                    &&& item.window_index == groups[g].members[m]
                    &&& item.media_id == items[groups[g].members[m] as int].id
                    &&& item.section_key == groups[g].key
                },
    decreases groups.len(),
{
    if groups.len() > 0 {
        let front = groups.drop_last();
        let last = groups.len() - 1;
        assert forall|g: int, m: int|
            #![trigger front[g].members[m]]
            0 <= g < front.len() && 0 <= m < front[g].members.len() implies front[g].members[m]
            < items.len() by {
            assert(groups[g].members[m] < items.len());
        }
        lemma_built_positions(items, front);
        let before = built_displayed(items, front);
        let run = displayed_run(items, groups.last(), before.len() as int);
        let now = built_displayed(items, groups);
        assert(now == before + run);
        assert forall|k: int| 0 <= k < now.len() implies exists|g: int, m: int|
            #![trigger groups[g].members[m]]
            {
                let item = #[trigger] now[k];
                &&& 0 <= g < groups.len() && 0 <= m < groups[g].members.len()
                &&& item.window_index == groups[g].members[m]
                &&& item.media_id == items[groups[g].members[m] as int].id
                &&& item.section_key == groups[g].key
            } by {
            if k < before.len() {
                assert(now[k] == before[k]);
                let (g, m) = choose|g: int, m: int|
                    #![trigger front[g].members[m]]
                    {
                        let item = before[k];
                        &&& 0 <= g < front.len() && 0 <= m < front[g].members.len()
                        &&& item.window_index == front[g].members[m]
                        &&& item.media_id == items[front[g].members[m] as int].id
                        &&& item.section_key == front[g].key
                    };
                assert(groups[g].members[m] == front[g].members[m]);
            } else {
                let m = k - before.len();
                assert(now[k] == run[m]);
                let index = groups[last].members[m] as int;
                lemma_last_uri_index(items, index);
                let found = last_uri_index(items, items[index].uri@);
                if index < found {
                    assert(items[index].uri@ != items[found].uri@);
                }
                assert(groups[last].members[m] == now[k].window_index);
            }
        }
    }
}

/// On a freshly built board every displayed photo names its own list position
/// and stands in the section of its group.
pub proof fn building_makes_positions_live(
    items: Seq<MediaItem>,
    groups: Seq<SectionGroup>,
    mode: GroupBy,
)
    requires
        distinct_uris(items),
        items.len() <= u32::MAX,
        forall|g: int, m: int|
            #![trigger groups[g].members[m]]
            0 <= g < groups.len() && 0 <= m < groups[g].members.len() ==> groups[g].members[m]
                < items.len(),
    ensures
        points_at(items, built_displayed(items, groups)),
        members_belong(items, groups, mode) ==> in_date_sections(
            items,
            built_displayed(items, groups),
            mode,
        ),
{
    let displayed = built_displayed(items, groups);
    lemma_built_positions(items, groups);
    assert forall|k: int| 0 <= k < displayed.len() implies {
        &&& (#[trigger] displayed[k]).window_index < items.len()
        &&& items[displayed[k].window_index as int].id == displayed[k].media_id
        &&& members_belong(items, groups, mode) ==> section_of(
            items[displayed[k].window_index as int],
            mode,
        ) == displayed[k].section_key
    } by {
        let (g, m) = choose|g: int, m: int|
            #![trigger groups[g].members[m]]
            {
                let item = displayed[k];
                &&& 0 <= g < groups.len() && 0 <= m < groups[g].members.len()
                &&& item.window_index == groups[g].members[m]
                &&& item.media_id == items[groups[g].members[m] as int].id
                &&& item.section_key == groups[g].key
            };
        assert(groups[g].members[m] < items.len());
    }
}

} // verus!
