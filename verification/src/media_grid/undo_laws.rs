//! A removal takes back what an addition of the same range did.

use super::board::{
    board_after_addition, board_after_removal, children_of, fresh_displayed, in_list_order,
    in_removed_range, index_slot, kept_displayed, lemma_index_slot, lemma_section_with_child,
    lemma_section_with_key, lemma_tile_position, lemma_tile_slot, lost_displayed, range_end,
    section_with_child, section_with_key, shifted_displayed, shows_photo, tile_position, tile_slot,
    tiles_unique, with_children, without_child, without_children, BoardView, DisplayedItem,
    SectionTiles,
};
use super::board_laws::{displayed_sections_exist, increasing_indices, lemma_fresh};
use super::metadata::{lowered_by, raised};
use super::state::GridView;
use super::updates::{selected_after, ChangeAnswer};
use crate::media::{section_of, MediaItem, SectionKey};
use vstd::prelude::*;

verus! {

// ---------------------------------------------------------------------------
// Displayed photos

/// The first photo at `position` or behind it, among photos in list order.
spec fn first_behind(displayed: Seq<DisplayedItem>, position: int) -> int
    decreases displayed.len(),
{
    if displayed.len() == 0 || displayed[0].window_index >= position {
        0
    } else {
        1 + first_behind(displayed.subrange(1, displayed.len() as int), position)
    }
}

proof fn lemma_first_behind(displayed: Seq<DisplayedItem>, position: int)
    requires
        increasing_indices(displayed),
    ensures
        0 <= first_behind(displayed, position) <= displayed.len(),
        forall|i: int|
            0 <= i < first_behind(displayed, position) ==> (#[trigger] displayed[i]).window_index
                < position,
        forall|i: int|
            first_behind(displayed, position) <= i < displayed.len() ==> (
            #[trigger] displayed[i]).window_index >= position,
    decreases displayed.len(),
{
    if displayed.len() > 0 {
        if displayed[0].window_index >= position {
            assert forall|i: int| 0 <= i < displayed.len() implies (
            #[trigger] displayed[i]).window_index >= position by {
                if i > 0 {
                    assert(displayed[0].window_index <= displayed[i].window_index);
                }
            }
        } else {
            let rest = displayed.subrange(1, displayed.len() as int);
            assert forall|i: int, j: int| 0 <= i < j < rest.len() implies (
            #[trigger] rest[i]).window_index <= (#[trigger] rest[j]).window_index by {
                assert(displayed[i + 1].window_index <= displayed[j + 1].window_index);
            }
            lemma_first_behind(rest, position);
            let m = first_behind(rest, position);
            assert forall|i: int| 0 <= i < m + 1 implies (#[trigger] displayed[i]).window_index
                < position by {
                if i > 0 {
                    assert(rest[i - 1] == displayed[i]);
                }
            }
            assert forall|i: int| m + 1 <= i < displayed.len() implies (
            #[trigger] displayed[i]).window_index >= position by {
                assert(rest[i - 1] == displayed[i]);
            }
        }
    }
}

proof fn lemma_list_order_stays(displayed: Seq<DisplayedItem>)
    requires
        increasing_indices(displayed),
    ensures
        in_list_order(displayed) == displayed,
    decreases displayed.len(),
{
    if displayed.len() > 0 {
        let front = displayed.drop_last();
        assert forall|i: int, j: int| 0 <= i < j < front.len() implies (
        #[trigger] front[i]).window_index <= (#[trigger] front[j]).window_index by {
            assert(displayed[i].window_index <= displayed[j].window_index);
        }
        lemma_list_order_stays(front);
        lemma_index_slot(front, displayed.last());
        let slot = index_slot(front, displayed.last());
        if slot < front.len() {
            assert(displayed[slot].window_index <= displayed[displayed.len() - 1].window_index);
        }
        assert(front.insert(slot, displayed.last()) =~= displayed);
    }
}

/// New photos go between those in front of their range and those behind it.
proof fn lemma_new_photos_in_order(
    shifted: Seq<DisplayedItem>,
    fresh: Seq<DisplayedItem>,
    m: int,
    position: int,
    end: int,
)
    requires
        increasing_indices(shifted),
        increasing_indices(fresh),
        0 <= m <= shifted.len(),
        forall|i: int| 0 <= i < m ==> (#[trigger] shifted[i]).window_index < position,
        forall|i: int| m <= i < shifted.len() ==> (#[trigger] shifted[i]).window_index >= end,
        forall|i: int|
            0 <= i < fresh.len() ==> position <= (#[trigger] fresh[i]).window_index < end,
    ensures
        in_list_order(shifted + fresh) == shifted.subrange(0, m) + fresh + shifted.subrange(
            m,
            shifted.len() as int,
        ),
    decreases fresh.len(),
{
    let low = shifted.subrange(0, m);
    let high = shifted.subrange(m, shifted.len() as int);
    if fresh.len() == 0 {
        lemma_list_order_stays(shifted);
        assert(shifted + fresh =~= shifted);
        assert(low + fresh + high =~= shifted);
    } else {
        let front = fresh.drop_last();
        let last = fresh.last();
        assert forall|i: int, j: int| 0 <= i < j < front.len() implies (
        #[trigger] front[i]).window_index <= (#[trigger] front[j]).window_index by {
            assert(fresh[i].window_index <= fresh[j].window_index);
        }
        lemma_new_photos_in_order(shifted, front, m, position, end);
        assert((shifted + fresh).drop_last() =~= shifted + front);
        let before = low + front + high;
        let slot = m + front.len();
        lemma_index_slot(before, last);
        let found = index_slot(before, last);
        if found < slot {
            if found < m {
                assert(before[found] == shifted[found]);
            } else {
                assert(before[found] == fresh[found - m]);
                assert(fresh[found - m].window_index <= fresh[fresh.len() - 1].window_index);
            }
        } else if found > slot {
            assert(before[slot] == shifted[m]);
        }
        assert(before.insert(slot, last) =~= low + fresh + high);
    }
}

proof fn lemma_kept_of_both(
    a: Seq<DisplayedItem>,
    b: Seq<DisplayedItem>,
    position: int,
    end: int,
    removed: u32,
)
    ensures
        kept_displayed(a + b, position, end, removed) == kept_displayed(a, position, end, removed)
            + kept_displayed(b, position, end, removed),
        lost_displayed(a + b, position, end) == lost_displayed(a, position, end) + lost_displayed(
            b,
            position,
            end,
        ),
    decreases b.len(),
{
    if b.len() == 0 {
        assert(a + b =~= a);
        assert(kept_displayed(a, position, end, removed) + kept_displayed(
            b,
            position,
            end,
            removed,
        ) =~= kept_displayed(a, position, end, removed));
        assert(lost_displayed(a, position, end) + lost_displayed(b, position, end)
            =~= lost_displayed(a, position, end));
    } else {
        lemma_kept_of_both(a, b.drop_last(), position, end, removed);
        assert((a + b).drop_last() =~= a + b.drop_last());
        assert((a + b).last() == b.last());
        assert(kept_displayed(a + b, position, end, removed) =~= kept_displayed(
            a,
            position,
            end,
            removed,
        ) + kept_displayed(b, position, end, removed));
        assert(lost_displayed(a + b, position, end) =~= lost_displayed(a, position, end)
            + lost_displayed(b, position, end));
    }
}

proof fn lemma_kept_in_front(
    displayed: Seq<DisplayedItem>,
    position: int,
    end: int,
    removed: u32,
)
    requires
        position <= end,
        forall|i: int|
            0 <= i < displayed.len() ==> (#[trigger] displayed[i]).window_index < position,
    ensures
        kept_displayed(displayed, position, end, removed) == displayed,
        lost_displayed(displayed, position, end) == Seq::<DisplayedItem>::empty(),
    decreases displayed.len(),
{
    if displayed.len() > 0 {
        let front = displayed.drop_last();
        lemma_kept_in_front(front, position, end, removed);
        assert(displayed[displayed.len() - 1].window_index < position);
        assert(front.push(displayed.last()) =~= displayed);
    }
}

proof fn lemma_lost_in_range(
    displayed: Seq<DisplayedItem>,
    position: int,
    end: int,
    removed: u32,
)
    requires
        forall|i: int|
            0 <= i < displayed.len() ==> in_removed_range(
                (#[trigger] displayed[i]).window_index as int,
                position,
                end,
            ),
    ensures
        kept_displayed(displayed, position, end, removed) == Seq::<DisplayedItem>::empty(),
        lost_displayed(displayed, position, end) == displayed,
    decreases displayed.len(),
{
    if displayed.len() > 0 {
        let front = displayed.drop_last();
        lemma_lost_in_range(front, position, end, removed);
        assert(in_removed_range(
            displayed[displayed.len() - 1].window_index as int,
            position,
            end,
        ));
        assert(front.push(displayed.last()) =~= displayed);
    }
}

proof fn lemma_kept_behind(
    shifted: Seq<DisplayedItem>,
    displayed: Seq<DisplayedItem>,
    position: int,
    end: int,
    removed: u32,
)
    requires
        shifted.len() == displayed.len(),
        forall|i: int|
            0 <= i < displayed.len() ==> {
                &&& (#[trigger] shifted[i]).window_index >= end
                &&& shifted[i].window_index == displayed[i].window_index + removed
                &&& shifted[i].flow_child == displayed[i].flow_child
                &&& shifted[i].media_id == displayed[i].media_id
                &&& shifted[i].section_key == displayed[i].section_key
            },
    ensures
        kept_displayed(shifted, position, end, removed) == displayed,
        lost_displayed(shifted, position, end) == Seq::<DisplayedItem>::empty(),
    decreases displayed.len(),
{
    if displayed.len() > 0 {
        let front = shifted.drop_last();
        assert forall|i: int| 0 <= i < front.len() implies {
            &&& (#[trigger] front[i]).window_index >= end
            &&& front[i].window_index == displayed.drop_last()[i].window_index + removed
            &&& front[i].flow_child == displayed.drop_last()[i].flow_child
            &&& front[i].media_id == displayed.drop_last()[i].media_id
            &&& front[i].section_key == displayed.drop_last()[i].section_key
        } by {
            assert(shifted[i].window_index >= end);
        }
        lemma_kept_behind(front, displayed.drop_last(), position, end, removed);
        assert(shifted[displayed.len() - 1].window_index >= end);
        assert(displayed.drop_last().push(displayed.last()) =~= displayed);
    } else {
        assert(displayed =~= shifted);
    }
}

proof fn lemma_fresh_in_order(
    items: Seq<MediaItem>,
    ready: Seq<bool>,
    position: u32,
    key: SectionKey,
    next: u64,
)
    requires
        position + items.len() <= u32::MAX,
        next + items.len() <= u64::MAX,
    ensures
        increasing_indices(fresh_displayed(items, ready, position, key, next)),
    decreases items.len(),
{
    if items.len() > 0 {
        let front = items.drop_last();
        lemma_fresh_in_order(front, ready, position, key, next);
        lemma_fresh(front, ready, position, key, next);
        let before = fresh_displayed(front, ready, position, key, next);
        let fresh = fresh_displayed(items, ready, position, key, next);
        assert forall|i: int, j: int| 0 <= i < j < fresh.len() implies (
        #[trigger] fresh[i]).window_index <= (#[trigger] fresh[j]).window_index by {
            assert(fresh[i] == before[i]);
            if j < before.len() {
                assert(before[i].window_index <= before[j].window_index);
            }
        }
    }
}

// ---------------------------------------------------------------------------
// Tiles

/// Do the sections have the same keys and tiles, whatever their headers say?
pub open spec fn same_tiles(a: Seq<SectionTiles>, b: Seq<SectionTiles>) -> bool {
    &&& a.len() == b.len()
    &&& forall|i: int|
        #![trigger a[i]]
        #![trigger b[i]]
        0 <= i < a.len() ==> a[i].key == b[i].key && a[i].tiles == b[i].tiles
}

/// Taking the first of some new tiles away leaves the others.
proof fn lemma_take_one_away(
    sections: Seq<SectionTiles>,
    now: Seq<SectionTiles>,
    next: u64,
    at: int,
    slot: int,
    children: Seq<u64>,
)
    requires
        tiles_unique(sections, next),
        0 <= at < sections.len(),
        sections[at].tiles.len() > 0,
        0 <= slot <= sections[at].tiles.len(),
        children.len() > 0,
        forall|k: int| 0 <= k < children.len() ==> #[trigger] children[k] >= next,
        same_tiles(now, with_children(sections, at, slot, children)),
    ensures
        same_tiles(
            without_child(now, children[0]),
            with_children(sections, at, slot, children.subrange(1, children.len() as int)),
        ),
{
    let child = children[0];
    let rest = children.subrange(1, children.len() as int);
    let full = with_children(sections, at, slot, children);
    let tiles = sections[at].tiles;
    assert(full[at].tiles == now[at].tiles);
    assert(now[at].tiles[slot] == child);
    lemma_section_with_child(now, child);
    let found = section_with_child(now, child);
    assert(now[at].tiles.contains(child));
    if found < at {
        assert(now[found].tiles == full[found].tiles);
        let t = choose|t: int| 0 <= t < now[found].tiles.len() && now[found].tiles[t] == child;
        assert(sections[found].tiles[t] < next);
    } else if found > at {
        assert(!now[at].tiles.contains(child));
    }
    assert(found == at);
    lemma_tile_position(now[at].tiles, child);
    let place = tile_position(now[at].tiles, child);
    if place < slot {
        assert(now[at].tiles[place] == tiles[place]);
        assert(sections[at].tiles[place] < next);
    } else if place > slot {
        assert(now[at].tiles[slot] != child);
    }
    assert(place == slot);
    let left = now[at].tiles.remove(slot);
    assert(left =~= tiles.subrange(0, slot) + rest + tiles.subrange(slot, tiles.len() as int));
    assert(left.len() > 0);
    let after = without_child(now, child);
    let wanted = with_children(sections, at, slot, rest);
    assert forall|i: int| 0 <= i < after.len() implies #[trigger] after[i].key == wanted[i].key
        && after[i].tiles == wanted[i].tiles by {
        assert(now[i].key == full[i].key && now[i].tiles == full[i].tiles);
    }
    assert forall|i: int| 0 <= i < after.len() implies after[i].key == (#[trigger] wanted[i]).key
        && after[i].tiles == wanted[i].tiles by {
        assert(after[i].key == wanted[i].key);
    }
}

/// Taking all the new tiles away leaves the sections as they were.
proof fn lemma_take_all_away(
    sections: Seq<SectionTiles>,
    now: Seq<SectionTiles>,
    next: u64,
    at: int,
    slot: int,
    fresh: Seq<DisplayedItem>,
    taken: int,
)
    requires
        tiles_unique(sections, next),
        0 <= at < sections.len(),
        sections[at].tiles.len() > 0,
        0 <= slot <= sections[at].tiles.len(),
        forall|k: int| 0 <= k < fresh.len() ==> (#[trigger] fresh[k]).flow_child >= next,
        same_tiles(now, with_children(sections, at, slot, children_of(fresh))),
        0 <= taken <= fresh.len(),
    ensures
        same_tiles(
            without_children(now, fresh.subrange(0, taken)),
            with_children(
                sections,
                at,
                slot,
                children_of(fresh).subrange(taken, fresh.len() as int),
            ),
        ),
    decreases taken,
{
    let children = children_of(fresh);
    if taken == 0 {
        assert(children.subrange(0, fresh.len() as int) =~= children);
    } else {
        lemma_take_all_away(sections, now, next, at, slot, fresh, taken - 1);
        let front = fresh.subrange(0, taken - 1);
        let left = children.subrange(taken - 1, fresh.len() as int);
        assert(fresh.subrange(0, taken).drop_last() =~= front);
        assert(fresh.subrange(0, taken).last() == fresh[taken - 1]);
        assert forall|k: int| 0 <= k < left.len() implies #[trigger] left[k] >= next by {
            assert(fresh[k + taken - 1].flow_child >= next);
        }
        lemma_take_one_away(sections, without_children(now, front), next, at, slot, left);
        assert(left.subrange(1, left.len() as int) =~= children.subrange(
            taken,
            fresh.len() as int,
        ));
        assert(left[0] == fresh[taken - 1].flow_child);
    }
}

// ---------------------------------------------------------------------------
// The board and the grid

/// On a board, a removal of the positions that an addition filled leaves the
/// displayed photos and all tiles as they were. `now` are the sections after the
/// addition, whatever their headers say by then.
proof fn lemma_board_comes_back(
    board: BoardView,
    items: Seq<MediaItem>,
    ready: Seq<bool>,
    position: u32,
    key: SectionKey,
    now: Seq<SectionTiles>,
)
    requires
        board.wf(),
        increasing_indices(board.displayed),
        section_with_key(board.sections, key) < board.sections.len(),
        position + items.len() <= u32::MAX,
        board.next_child + items.len() <= u64::MAX,
        forall|i: int|
            0 <= i < board.displayed.len() ==> (#[trigger] board.displayed[i]).window_index
                + items.len() <= u32::MAX,
        same_tiles(now, board_after_addition(board, items, ready, position, key).sections),
    ensures
        ({
            let added = board_after_addition(board, items, ready, position, key);
            let back = board_after_removal(
                BoardView { sections: now, ..added },
                position,
                items.len() as u32,
            );
            &&& back.displayed == board.displayed
            &&& same_tiles(back.sections, board.sections)
            &&& lost_displayed(
                added.displayed,
                position as int,
                range_end(position, items.len() as u32),
            ) == fresh_displayed(items, ready, position, key, board.next_child)
        }),
{
    let removed = items.len() as u32;
    let end = position + removed;
    let added = board_after_addition(board, items, ready, position, key);
    let fresh = fresh_displayed(items, ready, position, key, board.next_child);
    let shifted = shifted_displayed(board.displayed, position, removed);
    lemma_fresh(items, ready, position, key, board.next_child);
    lemma_fresh_in_order(items, ready, position, key, board.next_child);
    lemma_first_behind(board.displayed, position as int);
    let m = first_behind(board.displayed, position as int);
    assert forall|i: int, j: int| 0 <= i < j < shifted.len() implies (
    #[trigger] shifted[i]).window_index <= (#[trigger] shifted[j]).window_index by {
        assert(board.displayed[i].window_index <= board.displayed[j].window_index);
    }
    assert forall|i: int| 0 <= i < m implies (#[trigger] shifted[i]).window_index < position by {
        assert(board.displayed[i].window_index < position);
    }
    assert forall|i: int| m <= i < shifted.len() implies (#[trigger] shifted[i]).window_index
        >= end by {
        assert(board.displayed[i].window_index >= position);
    }
    lemma_new_photos_in_order(shifted, fresh, m, position as int, end);
    let low = shifted.subrange(0, m);
    let high = shifted.subrange(m, shifted.len() as int);
    let behind = board.displayed.subrange(m, board.displayed.len() as int);
    lemma_kept_of_both(low + fresh, high, position as int, end, removed);
    lemma_kept_of_both(low, fresh, position as int, end, removed);
    lemma_kept_in_front(low, position as int, end, removed);
    lemma_lost_in_range(fresh, position as int, end, removed);
    assert forall|i: int| 0 <= i < high.len() implies {
        &&& (#[trigger] high[i]).window_index >= end
        &&& high[i].window_index == behind[i].window_index + removed
        &&& high[i].flow_child == behind[i].flow_child
        &&& high[i].media_id == behind[i].media_id
        &&& high[i].section_key == behind[i].section_key
    } by {
        assert(shifted[i + m].window_index >= end);
        assert(board.displayed[i + m].window_index >= position);
    }
    lemma_kept_behind(high, behind, position as int, end, removed);
    assert(range_end(position, removed) == end);
    assert(kept_displayed(added.displayed, position as int, end, removed) =~= board.displayed) by {
        assert forall|i: int| 0 <= i < m implies #[trigger] low[i] == board.displayed[i] by {
            assert(board.displayed[i].window_index < position);
        }
    }
    assert(lost_displayed(added.displayed, position as int, end) =~= fresh);
    lemma_section_with_key(board.sections, key);
    let at = section_with_key(board.sections, key);
    lemma_tile_slot(board.displayed, board.sections[at].tiles, key, position);
    let slot = tile_slot(board.displayed, board.sections[at].tiles, key, position);
    assert(board.sections[at].tiles.len() > 0);
    lemma_take_all_away(
        board.sections,
        now,
        board.next_child,
        at,
        slot,
        fresh,
        fresh.len() as int,
    );
    assert(fresh.subrange(0, fresh.len() as int) =~= fresh);
    let none = children_of(fresh).subrange(fresh.len() as int, fresh.len() as int);
    let tiles = board.sections[at].tiles;
    assert(tiles.subrange(0, slot) + none + tiles.subrange(slot, tiles.len() as int) =~= tiles);
    assert(with_children(board.sections, at, slot, none) =~= board.sections);
}

/// A grid that followed an insertion in place and then follows the removal of
/// the same photos shows what it showed before: the same photos at the same
/// positions on the same tiles, the same selection and the same totals. The new
/// photos must not have been selected already.
pub proof fn removals_take_additions_back(
    grid: GridView,
    items: Seq<MediaItem>,
    position: u32,
    added: u32,
    ready: Seq<bool>,
    left: Seq<MediaItem>,
)
    requires
        grid.board.wf(),
        grid.can_add(items, position, added),
        increasing_indices(grid.board.displayed),
        items.len() <= u32::MAX,
        grid.board.next_child + added <= u64::MAX,
        grid.paging.total + added <= u32::MAX,
        grid.metadata.total matches Some(total) ==> total + added <= u32::MAX,
        forall|i: int|
            0 <= i < grid.board.displayed.len() ==> (
            #[trigger] grid.board.displayed[i]).window_index + added <= u32::MAX,
        forall|i: int|
            position <= i < position + added ==> !grid.selected.contains((#[trigger] items[i]).id),
    ensures
        ({
            let back = grid.after_addition(items, position, added, ready, true).after_removal(
                left,
                position,
                added,
            );
            &&& back.board.displayed == grid.board.displayed
            &&& same_tiles(back.board.sections, grid.board.sections)
            &&& back.selected == grid.selected
            &&& back.multi_select == grid.multi_select
            &&& back.paging == grid.paging
            &&& back.metadata.total == grid.metadata.total
        }),
{
    let key = section_of(items[position as int], grid.flags.mode);
    let new = items.subrange(position as int, position + added);
    displayed_sections_exist(grid.board, key);
    let after = grid.after_addition(items, position, added, ready, true);
    let placed = board_after_addition(grid.board, new, ready, position, key);
    assert(same_tiles(after.board.sections, placed.sections));
    assert(after.board == (BoardView { sections: after.board.sections, ..placed }));
    lemma_board_comes_back(grid.board, new, ready, position, key, after.board.sections);
    lemma_fresh(new, ready, position, key, grid.board.next_child);
    let lost = after.lost_by(position, added);
    let fresh = fresh_displayed(new, ready, position, key, grid.board.next_child);
    assert(lost == fresh);
    assert forall|id: i64| selected_after(grid.selected, lost).contains(id)
        <==> grid.selected.contains(id) by {
        if shows_photo(lost, id) {
            let k = choose|k: int| 0 <= k < lost.len() && (#[trigger] lost[k]).media_id == id;
            assert(new[fresh[k].window_index - position]
                == items[fresh[k].window_index as int]);
            assert(!grid.selected.contains(items[fresh[k].window_index as int].id));
        }
    }
    assert(selected_after(grid.selected, lost) =~= grid.selected);
    let back = after.after_removal(left, position, added);
    let bare = board_after_removal(after.board, position, added);
    assert(back.board.displayed == bare.displayed);
    assert(same_tiles(back.board.sections, bare.sections));
    assert forall|i: int| 0 <= i < back.board.sections.len() implies (
    #[trigger] back.board.sections[i]).key == grid.board.sections[i].key
        && back.board.sections[i].tiles == grid.board.sections[i].tiles by {
        assert(bare.sections[i].key == grid.board.sections[i].key);
    }
    assert forall|i: int| 0 <= i < back.board.sections.len() implies back.board.sections[i].key == (
    #[trigger] grid.board.sections[i]).key && back.board.sections[i].tiles
        == grid.board.sections[i].tiles by {
        assert(bare.sections[i].key == grid.board.sections[i].key);
    }
}

proof fn lemma_all_are_fresh(
    items: Seq<MediaItem>,
    ready: Seq<bool>,
    position: u32,
    key: SectionKey,
    next: u64,
)
    requires
        forall|i: int| 0 <= i < items.len() ==> #[trigger] ready[i],
    ensures
        fresh_displayed(items, ready, position, key, next).len() == items.len(),
    decreases items.len(),
{
    if items.len() > 0 {
        lemma_all_are_fresh(items.drop_last(), ready, position, key, next);
        assert(ready[items.len() - 1]);
    }
}

proof fn lemma_lowered_by_section(
    counts: Map<SectionKey, u32>,
    lost: Seq<DisplayedItem>,
    key: SectionKey,
)
    requires
        counts.dom().contains(key),
        counts[key] > lost.len(),
        forall|k: int| 0 <= k < lost.len() ==> (#[trigger] lost[k]).section_key == key,
    ensures
        lowered_by(counts, lost) == counts.insert(key, (counts[key] - lost.len()) as u32),
    decreases lost.len(),
{
    if lost.len() > 0 {
        let front = lost.drop_last();
        assert forall|k: int| 0 <= k < front.len() implies (#[trigger] front[k]).section_key
            == key by {
            assert(lost[k].section_key == key);
        }
        lemma_lowered_by_section(counts, front, key);
        assert(lost[lost.len() - 1].section_key == key);
    }
    assert(lowered_by(counts, lost) =~= counts.insert(key, (counts[key] - lost.len()) as u32));
}

/// Where all the new photos got their tiles at once, the removal brings the
/// section counts back as well.
pub proof fn removals_take_counts_back(
    grid: GridView,
    items: Seq<MediaItem>,
    position: u32,
    added: u32,
    ready: Seq<bool>,
    left: Seq<MediaItem>,
)
    requires
        grid.board.wf(),
        grid.can_add(items, position, added),
        increasing_indices(grid.board.displayed),
        items.len() <= u32::MAX,
        grid.board.next_child + added <= u64::MAX,
        forall|i: int|
            0 <= i < grid.board.displayed.len() ==> (
            #[trigger] grid.board.displayed[i]).window_index + added <= u32::MAX,
        forall|i: int| 0 <= i < added ==> #[trigger] ready[i],
        grid.metadata.known_counts(grid.flags.mode) matches Some(counts) ==> {
            let key = section_of(items[position as int], grid.flags.mode);
            &&& counts.dom().contains(key)
            &&& 0 < counts[key]
            &&& counts[key] + added <= u32::MAX
        },
    ensures
        grid.after_addition(items, position, added, ready, true).after_removal(
            left,
            position,
            added,
        ).metadata.counts == grid.metadata.counts,
{
    let mode = grid.flags.mode;
    let key = section_of(items[position as int], mode);
    let new = items.subrange(position as int, position + added);
    displayed_sections_exist(grid.board, key);
    let after = grid.after_addition(items, position, added, ready, true);
    let placed = board_after_addition(grid.board, new, ready, position, key);
    assert(same_tiles(after.board.sections, placed.sections));
    assert(after.board == (BoardView { sections: after.board.sections, ..placed }));
    lemma_board_comes_back(grid.board, new, ready, position, key, after.board.sections);
    lemma_fresh(new, ready, position, key, grid.board.next_child);
    lemma_all_are_fresh(new, ready, position, key, grid.board.next_child);
    let lost = after.lost_by(position, added);
    if grid.metadata.counts.dom().contains(mode) {
        let counts = grid.metadata.counts[mode];
        let more = raised(counts, key, added);
        lemma_lowered_by_section(more, lost, key);
        assert(lowered_by(more, lost) =~= counts);
    }
    assert(after.after_removal(left, position, added).metadata.counts =~= grid.metadata.counts);
}

/// A grid that hears of new photos, shows them in place, and then hears that
/// they are gone shows the same photos at the same positions on the same tiles
/// as before, with the same selection.
pub proof fn photos_come_and_go_without_a_trace(
    grid: GridView,
    items: Seq<MediaItem>,
    position: u32,
    added: u32,
    ready: Seq<bool>,
    left: Seq<MediaItem>,
    viewport_width: u32,
)
    requires
        grid.board.wf(),
        grid.answer(items, position, 0, added) == ChangeAnswer::Insert,
        increasing_indices(grid.board.displayed),
        items.len() <= u32::MAX,
        grid.board.next_child + added <= u64::MAX,
        grid.paging.total + added <= u32::MAX,
        grid.metadata.total matches Some(total) ==> total + added <= u32::MAX,
        forall|i: int|
            0 <= i < grid.board.displayed.len() ==> (
            #[trigger] grid.board.displayed[i]).window_index + added <= u32::MAX,
        forall|i: int|
            position <= i < position + added ==> !grid.selected.contains((#[trigger] items[i]).id),
    ensures
        ({
            let back = grid.after_change(
                items,
                position,
                0,
                added,
                ready,
                viewport_width,
            ).after_change(left, position, added, 0, Seq::empty(), viewport_width);
            &&& back.board.displayed == grid.board.displayed
            &&& same_tiles(back.board.sections, grid.board.sections)
            &&& back.selected == grid.selected
            &&& back.multi_select == grid.multi_select
            &&& back.paging == grid.paging
        }),
{
    removals_take_additions_back(
        grid.with_stale_metadata(),
        items,
        position,
        added,
        ready,
        left,
    );
}

} // verus!
