//! What holds of a grid as a whole.

use super::board::{built_displayed, shows_photo};
use super::board_laws::{
    addition_keeps_positions_live, building_makes_positions_live, in_date_sections, points_at,
    removal_keeps_positions_live,
};
use super::rebuild::{lemma_shown_groups, shown_groups};
use super::sections::{
    flat_group, grouped, grouping_places_every_photo, key_position, lemma_key_position,
    members_belong, with_member, SectionGroup,
};
use super::state::{GridView, MediaGrid};
use super::updates::ChangeAnswer;
use crate::media::{distinct_uris, section_of, GroupBy, MediaItem};
use crate::media_list::{edit_fits, edited, EditView};
use vstd::prelude::*;

verus! {

impl GridView {
    /// Does every displayed photo name its own list position and, where there
    /// are date sections, stand in the section of its date?
    pub open spec fn live(self, items: Seq<MediaItem>) -> bool {
        &&& points_at(items, self.board.displayed)
        &&& !self.flags.flat_sections ==> in_date_sections(
            items,
            self.board.displayed,
            self.flags.mode,
        )
    }
}

/// After a rebuild every displayed photo names its own list position and stands
/// in the section of its date.
pub proof fn rebuilds_make_positions_live(
    grid: GridView,
    items: Seq<MediaItem>,
    viewport_width: u32,
)
    requires
        distinct_uris(items),
        items.len() <= u32::MAX,
    ensures
        grid.rebuilt(items, viewport_width).live(items),
{
    let len = items.len() as int;
    let flat = grid.flags.flat_sections;
    let mode = grid.flags.mode;
    let count = grid.rendered(len);
    let shown = items.subrange(0, count);
    let groups = if grid.placeholders(len) > 0 {
        Seq::empty()
    } else {
        shown_groups(shown, flat, mode)
    };
    lemma_shown_groups(items, count, flat, mode);
    building_makes_positions_live(items, groups, mode);
    if !flat {
        grouping_places_every_photo(shown, mode);
        assert(members_belong(items, groups, mode)) by {
            assert forall|g: int, m: int|
                #![trigger groups[g].members[m]]
                0 <= g < groups.len() && 0 <= m < groups[g].members.len() implies groups[g].members[m]
                < items.len() && section_of(items[groups[g].members[m] as int], mode)
                == groups[g].key by {
                assert(groups[g].members[m] < shown.len());
                assert(shown[groups[g].members[m] as int]
                    == items[groups[g].members[m] as int]);
            }
        }
    }
}

/// An active grid follows every change of the list without leaving a displayed
/// photo with a position that is not its own. The exception is a change that the
/// grid leaves to a debounced rebuild: until then its positions are those of
/// the list before.
pub proof fn changes_keep_positions_live(
    grid: GridView,
    before: Seq<MediaItem>,
    position: u32,
    removed: u32,
    incoming: Seq<MediaItem>,
    ready: Seq<bool>,
    viewport_width: u32,
)
    requires
        grid.live(before),
        grid.flags.active,
        !grid.paging.applying_page,
        before.len() <= u32::MAX,
        edit_fits(
            before,
            EditView { position: position as int, removed: removed as int, added: incoming },
        ),
        before.len() - removed + incoming.len() <= u32::MAX,
        grid.board.next_child + incoming.len() <= u64::MAX,
        distinct_uris(
            edited(
                before,
                EditView { position: position as int, removed: removed as int, added: incoming },
            ),
        ),
    ensures
        ({
            let after = edited(
                before,
                EditView { position: position as int, removed: removed as int, added: incoming },
            );
            let added = incoming.len() as u32;
            grid.answer(after, position, removed, added) != ChangeAnswer::Schedule
                ==> grid.after_change(
                after,
                position,
                removed,
                added,
                ready,
                viewport_width,
            ).live(after)
        }),
{
    let edit = EditView { position: position as int, removed: removed as int, added: incoming };
    let after = edited(before, edit);
    let added = incoming.len() as u32;
    let mode = grid.flags.mode;
    match grid.answer(after, position, removed, added) {
        ChangeAnswer::Remove => {
            assert(incoming =~= Seq::<MediaItem>::empty());
            removal_keeps_positions_live(grid.board, before, position, removed, mode);
        },
        ChangeAnswer::RebuildReplaced => {
            let fresh = grid.with_stale_metadata().unscheduled().deselected();
            rebuilds_make_positions_live(fresh, after, viewport_width);
        },
        ChangeAnswer::RebuildFirst => {
            let fresh = grid.with_stale_metadata().unscheduled().deselected();
            rebuilds_make_positions_live(fresh, after, viewport_width);
        },
        ChangeAnswer::Insert => {
            let key = section_of(after[position as int], mode);
            assert(after.subrange(position as int, position + added) =~= incoming);
            addition_keeps_positions_live(
                grid.board,
                before,
                incoming,
                ready,
                position,
                key,
                mode,
            );
        },
        ChangeAnswer::Nothing => {
            assert(after =~= before);
        },
        _ => {},
    }
}

/// Rebuilding again, with nothing changed and no page on its way, changes
/// nothing.
pub proof fn rebuilding_twice_changes_nothing(
    grid: GridView,
    items: Seq<MediaItem>,
    viewport_width: u32,
)
    requires
        !grid.paging.page_loading,
        items.len() <= u32::MAX,
    ensures
        grid.rebuilt(items, viewport_width).rebuilt(items, viewport_width) == grid.rebuilt(
            items,
            viewport_width,
        ),
{
    let once = grid.rebuilt(items, viewport_width);
    let twice = once.rebuilt(items, viewport_width);
    let len = items.len() as int;
    assert(once.rendered(len) == grid.rendered(len));
    assert(once.scroll_total(len) == grid.scroll_total(len));
    assert(once.window_start(len) == grid.window_start(len));
    assert(once.header_counts() == grid.header_counts());
    assert(twice.board == once.board);
    assert(twice =~= once);
}

/// The window and the photos above and below it make up the library: the
/// spacers stand for exactly what is not loaded.
pub proof fn window_and_spacers_cover_the_library(grid: GridView, len: int)
    requires
        0 <= len <= u32::MAX,
    ensures
        grid.window_start(len) + grid.window_len(len) + grid.below_window(len)
            == grid.scroll_total(len),
{
}

/// The number of photos in all groups.
pub open spec fn member_total(groups: Seq<SectionGroup>) -> nat
    decreases groups.len(),
{
    if groups.len() == 0 {
        0
    } else {
        member_total(groups.drop_last()) + groups.last().members.len()
    }
}

proof fn lemma_member_total_update(groups: Seq<SectionGroup>, at: int, group: SectionGroup)
    requires
        0 <= at < groups.len(),
        group.members.len() == groups[at].members.len() + 1,
    ensures
        member_total(groups.update(at, group)) == member_total(groups) + 1,
    decreases groups.len(),
{
    let after = groups.update(at, group);
    if at < groups.len() - 1 {
        lemma_member_total_update(groups.drop_last(), at, group);
        assert(after.drop_last() =~= groups.drop_last().update(at, group));
    } else {
        assert(after.drop_last() =~= groups.drop_last());
    }
}

proof fn lemma_grouped_total(items: Seq<MediaItem>, mode: GroupBy)
    ensures
        member_total(grouped(items, mode)) == items.len(),
    decreases items.len(),
{
    if items.len() > 0 {
        let before = grouped(items.drop_last(), mode);
        let key = section_of(items.last(), mode);
        lemma_grouped_total(items.drop_last(), mode);
        lemma_key_position(before, key);
        let at = key_position(before, key);
        let index = (items.len() - 1) as usize;
        let after = with_member(before, key, index);
        if at < before.len() {
            lemma_member_total_update(
                before,
                at,
                SectionGroup { key, members: before[at].members.push(index) },
            );
        } else {
            assert(after.drop_last() =~= before);
        }
    }
}

proof fn lemma_built_total(items: Seq<MediaItem>, groups: Seq<SectionGroup>)
    ensures
        built_displayed(items, groups).len() == member_total(groups),
    decreases groups.len(),
{
    if groups.len() > 0 {
        lemma_built_total(items, groups.drop_last());
    }
}

/// A rebuild without a page on its way displays exactly the photos it renders:
/// all of the list, or as many as the limit allows.
pub proof fn a_rebuild_shows_every_rendered_photo(
    grid: GridView,
    items: Seq<MediaItem>,
    viewport_width: u32,
)
    requires
        items.len() <= u32::MAX,
        grid.placeholders(items.len() as int) == 0,
    ensures
        grid.rebuilt(items, viewport_width).board.displayed.len() == grid.rendered(
            items.len() as int,
        ),
{
    let len = items.len() as int;
    let shown = items.subrange(0, grid.rendered(len));
    let groups = shown_groups(shown, grid.flags.flat_sections, grid.flags.mode);
    lemma_built_total(items, groups);
    if grid.flags.flat_sections {
        if shown.len() > 0 {
            assert(groups.drop_last() =~= Seq::<SectionGroup>::empty());
            assert(groups.last() == flat_group(shown.len() as int)[0]);
        }
    } else {
        lemma_grouped_total(shown, grid.flags.mode);
    }
}

/// Rendering more of the loaded window changes no number of the library.
pub proof fn rendering_more_keeps_the_totals(
    grid: GridView,
    items: Seq<MediaItem>,
    position: u32,
    added: u32,
    ready: Seq<bool>,
)
    ensures
        grid.after_addition(items, position, added, ready, false).paging == grid.paging,
        grid.after_addition(items, position, added, ready, false).metadata == grid.metadata,
{
}

/// No removed photo stays selected.
pub proof fn removed_photos_are_not_selected(
    grid: GridView,
    items: Seq<MediaItem>,
    position: u32,
    removed: u32,
    id: i64,
)
    requires
        removed > 0,
        shows_photo(grid.lost_by(position, removed), id),
    ensures
        !grid.after_removal(items, position, removed).selected.contains(id),
{
}

/// Outside multi-select mode no photo is selected, whatever has happened to the
/// grid.
pub proof fn only_multi_select_selects(grid: MediaGrid)
    requires
        grid.wf(),
        !grid@.multi_select,
    ensures
        grid@.selected == Set::<i64>::empty(),
{
}

} // verus!
