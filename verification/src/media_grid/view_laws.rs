//! What a grid shows of its list, and when it asks for more of it.

use super::board::{
    built_sections, header_label, in_list_order, lost_displayed, relabelled, shows_photo,
    shows_section, DisplayedItem, SectionTiles,
};
use super::board_laws::lemma_in_list_order;
use super::content::{section_children, ContentChild};
use super::controls::{blank_grid, new_grid};
use super::loading::{PageArrival, PageQuery, PageRequest, StatsTick};
use super::metadata::GridMetadataSnapshot;
use super::rebuild::{columns_in, lemma_shown_groups, pixel_size_of};
use super::sections::{
    flat_group, grouped, grouping_places_every_photo, sections_come_in_list_order, SectionGroup,
};
use super::state::{GridConfig, GridFlags, GridView};
use super::updates::{
    lost_selected, selected_after, shows_uri, unready_positions, ChangeAnswer, DeferredInsert,
};
use super::viewport::{is_newer, later_dates_are_newer};
use super::virtual_paging::{
    chosen_page_shows_the_offset, offset_for, pages_are_chosen_outside_the_window, rows_for,
    spacer_height, tile_pitch,
};
use crate::apply_to_media_list::{lemma_uri_position, uri_position};
use crate::calendar::{
    calendar_order_is_day_order, civil_date, every_day_has_a_date, representable,
};
use crate::media::{
    date_is_before, distinct_uris, in_media_order, precedes, section_of, GroupBy, LibraryStats,
    MediaItem, SectionKey,
};
use vstd::prelude::*;

verus! {

// ---------------------------------------------------------------------------
// Rebuilds

/// A rebuild renders the whole list up to its limit. The first one may render a
/// seed only, and then the rest follows.
pub proof fn rebuilds_render_up_to_the_limit(grid: GridView, items: Seq<MediaItem>, width: u32)
    requires
        items.len() <= u32::MAX,
    ensures
        ({
            let len = items.len() as int;
            let count = grid.rendered(len);
            &&& 0 <= count <= len
            &&& count <= grid.progress.rendered_limit
            &&& count == len || count == grid.progress.rendered_limit || (
            grid.progress.progressive_pending && grid.config.startup_progressive_render && count
                == grid.config.startup_render_seed)
            &&& grid.rebuild_outcome(len).start_fill <==> count < len && count
                < grid.progress.rendered_limit
            &&& !grid.rebuilt(items, width).seeds(len)
        }),
{
}

/// The scroll bar stands for the whole library where its size is known, for the
/// list alone elsewhere, and never for fewer photos than the list holds.
pub proof fn the_scroll_bar_stands_for_the_library(
    grid: GridView,
    items: Seq<MediaItem>,
    width: u32,
)
    requires
        items.len() <= u32::MAX,
    ensures
        ({
            let total = grid.rebuilt(items, width).paging.total;
            &&& total >= items.len()
            &&& !grid.flags.full_library_context || grid.metadata.total is None ==> total
                == items.len()
            &&& grid.flags.full_library_context && grid.metadata.total is Some
                && grid.metadata.total->0 >= items.len() ==> total == grid.metadata.total->0
        }),
{
}

/// A rebuild leaves the window where it was asked for. Only a window that would
/// reach behind the end of the library is moved up, just as far as it has to be.
pub proof fn windows_stand_where_they_are_asked_for(
    grid: GridView,
    items: Seq<MediaItem>,
    width: u32,
)
    requires
        items.len() <= u32::MAX,
        !grid.paging.page_loading,
    ensures
        ({
            let now = grid.rebuilt(items, width).paging;
            let count = grid.rendered(items.len() as int);
            &&& grid.paging.window_start + count <= now.total ==> now.window_start
                == grid.paging.window_start
            &&& grid.paging.window_start + count > now.total ==> now.window_start + count
                == now.total
        }),
{
}

/// The spacers stand for the photos of the library outside the window: the upper
/// one for those above it and the lower one for those below. There is none where
/// there are no such photos.
pub proof fn spacers_stand_for_the_photos_outside(
    grid: GridView,
    items: Seq<MediaItem>,
    width: u32,
)
    requires
        items.len() <= u32::MAX,
        !grid.paging.page_loading,
    ensures
        ({
            let now = grid.rebuilt(items, width);
            let columns = columns_in(width, grid.flags.mode);
            let pixels = pixel_size_of(grid.flags.mode);
            let above = now.paging.window_start as int;
            let below = now.paging.total - above - grid.rendered(items.len() as int);
            &&& below >= 0
            &&& now.layout.top_spacer == spacer_height(above, columns, pixels)
            &&& now.layout.bottom_spacer == spacer_height(below, columns, pixels)
            &&& now.layout.top_spacer == 0 <==> above == 0
            &&& now.layout.bottom_spacer == 0 <==> below == 0
        }),
{
    let len = items.len() as int;
    lemma_spacer(grid.window_start(len), width, grid.flags.mode);
    lemma_spacer(grid.below_window(len), width, grid.flags.mode);
}

proof fn lemma_spacer(unloaded: int, width: u32, mode: GroupBy)
    requires
        0 <= unloaded,
    ensures
        0 <= spacer_height(unloaded, columns_in(width, mode), pixel_size_of(mode)) <= i32::MAX,
        spacer_height(unloaded, columns_in(width, mode), pixel_size_of(mode)) == 0 <==> unloaded
            == 0,
{
    let columns = columns_in(width, mode);
    let pitch = tile_pitch(pixel_size_of(mode));
    let across = if columns > 1 { columns } else { 1 };
    let rows = rows_for(unloaded, columns);
    if unloaded > 0 {
        assert(rows >= 1) by (nonlinear_arith)
            requires
                rows == (unloaded + across - 1) / across,
                unloaded >= 1,
                across >= 1,
        ;
        assert(rows * pitch >= 1) by (nonlinear_arith)
            requires
                rows >= 1,
                pitch >= 1,
        ;
    }
}

/// A page on its way is framed: there is a placeholder for every photo that it
/// will bring, and no other photo. Without a page on its way there are none.
pub proof fn pages_on_their_way_are_framed(grid: GridView, items: Seq<MediaItem>, width: u32)
    requires
        items.len() <= u32::MAX,
        0 < grid.config.virtual_media_page_size,
    ensures
        ({
            let now = grid.rebuilt(items, width);
            let left = now.paging.total - grid.paging.window_start;
            &&& !grid.paging.page_loading ==> now.layout.placeholders == 0
            &&& grid.paging.page_loading && left > 0 ==> {
                &&& now.layout.placeholders <= left
                &&& now.layout.placeholders <= grid.config.virtual_media_page_size
                &&& now.layout.placeholders == left || now.layout.placeholders
                    == grid.config.virtual_media_page_size
                &&& now.board.sections.len() == 0 && now.board.displayed.len() == 0
            }
        }),
{
}

/// Library-wide numbers that are missing are asked for by the next rebuild, once:
/// while they are being loaded no other rebuild asks for them.
pub proof fn missing_numbers_are_asked_for_once(
    grid: GridView,
    items: Seq<MediaItem>,
    width: u32,
)
    ensures
        ({
            let len = items.len() as int;
            let missing = grid.metadata.total is None || grid.metadata.stats is None
                || !grid.metadata.counts.dom().contains(grid.flags.mode);
            let now = grid.rebuilt(items, width);
            &&& grid.rebuild_outcome(len).load_metadata <==> grid.flags.full_library_context
                && missing && !grid.metadata.loading
            &&& grid.rebuild_outcome(len).load_metadata ==> now.metadata.loading
            &&& !now.rebuild_outcome(len).load_metadata
        }),
{
}

/// A scroll position that waits to be restored is handed out by one rebuild.
pub proof fn scroll_positions_are_restored_once(
    grid: GridView,
    items: Seq<MediaItem>,
    width: u32,
)
    ensures
        grid.rebuild_outcome(items.len() as int).scroll_ratio == grid.paging.pending_scroll_ratio,
        grid.rebuilt(items, width).rebuild_outcome(items.len() as int).scroll_ratio is None,
{
}

/// As many tiles stand side by side as fit, and no more. Finer views have larger
/// tiles.
pub proof fn columns_fill_the_width(viewport_width: u32, mode: GroupBy)
    requires
        viewport_width >= 1000,
    ensures
        columns_in(viewport_width, mode) * tile_pitch(pixel_size_of(mode)) <= viewport_width,
        viewport_width < (columns_in(viewport_width, mode) + 1) * tile_pitch(pixel_size_of(mode)),
        tile_pitch(pixel_size_of(mode)) > pixel_size_of(mode),
        pixel_size_of(GroupBy::Year) < pixel_size_of(GroupBy::Month) < pixel_size_of(GroupBy::Day),
{
    let (w, p) = (viewport_width as int, tile_pitch(pixel_size_of(mode)));
    assert(p > 0);
    assert((w / p) * p <= w < (w / p + 1) * p) by (nonlinear_arith)
        requires
            p > 0,
            w >= 0,
    ;
}

// ---------------------------------------------------------------------------
// Sections and headers

proof fn lemma_built_header(
    items: Seq<MediaItem>,
    groups: Seq<SectionGroup>,
    counts: Option<Map<SectionKey, u32>>,
    i: int,
)
    requires
        0 <= i < groups.len(),
        forall|k: int| 0 <= k < groups.len() ==> (#[trigger] groups[k]).members.len() > 0,
    ensures
        built_sections(items, groups, false, counts).len() == groups.len(),
        ({
            let section = built_sections(items, groups, false, counts)[i];
            &&& section.key == groups[i].key
            &&& section.tiles.len() == groups[i].members.len()
            &&& section.header == Some(
                header_label(groups[i].key, groups[i].members.len() as int, counts),
            )
        }),
    decreases groups.len(),
{
    let rest = groups.drop_last();
    assert forall|k: int| 0 <= k < rest.len() implies (#[trigger] rest[k]).members.len() > 0 by {
        assert(groups[k].members.len() > 0);
    }
    assert(groups.last() == groups[groups.len() - 1]);
    if rest.len() > 0 {
        lemma_built_header(items, rest, counts, if i < rest.len() { i } else { 0 });
        if i < rest.len() {
            assert(rest[i] == groups[i]);
        }
    }
}

/// The header of a section names that section and says how many photos it holds:
/// in the whole library where that is known, else on screen.
pub proof fn headers_count_the_photos_of_their_section(
    grid: GridView,
    items: Seq<MediaItem>,
    width: u32,
    i: int,
)
    requires
        items.len() <= u32::MAX,
        !grid.flags.flat_sections,
        grid.placeholders(items.len() as int) == 0,
        0 <= i < grid.rebuilt(items, width).board.sections.len(),
    ensures
        ({
            let section = grid.rebuilt(items, width).board.sections[i];
            let known = if grid.flags.full_library_context && grid.metadata.counts.dom().contains(
                grid.flags.mode,
            ) && grid.metadata.counts[grid.flags.mode].dom().contains(section.key) {
                Some(grid.metadata.counts[grid.flags.mode][section.key])
            } else {
                None
            };
            section.header matches Some(label) && label.key == section.key && match known {
                Some(count) => label.count == count,
                None => label.count == section.tiles.len(),
            }
        }),
{
    let len = items.len() as int;
    let shown = items.subrange(0, grid.rendered(len));
    let groups = grouped(shown, grid.flags.mode);
    grouping_places_every_photo(shown, grid.flags.mode);
    lemma_shown_groups(items, grid.rendered(len), false, grid.flags.mode);
    if groups.len() > 0 {
        lemma_built_header(items, groups, grid.header_counts(), if i < groups.len() { i } else { 0 });
        lemma_member_bound(shown, grid.flags.mode, if i < groups.len() { i } else { 0 });
    }
}

proof fn lemma_member_bound(items: Seq<MediaItem>, mode: GroupBy, g: int)
    requires
        items.len() <= usize::MAX,
        0 <= g < grouped(items, mode).len(),
    ensures
        grouped(items, mode)[g].members.len() <= items.len(),
{
    grouping_places_every_photo(items, mode);
    lemma_increasing_fits(grouped(items, mode)[g].members, items.len() as int);
}

proof fn lemma_increasing_fits(members: Seq<usize>, bound: int)
    requires
        bound >= 0,
        forall|m: int| 0 <= m < members.len() ==> #[trigger] members[m] < bound,
        forall|m: int, n: int|
            #![trigger members[m], members[n]]
            0 <= m < n < members.len() ==> members[m] < members[n],
    ensures
        members.len() <= bound,
    decreases members.len(),
{
    if members.len() > 0 {
        let rest = members.drop_last();
        let last = members.last() as int;
        assert forall|m: int| 0 <= m < rest.len() implies #[trigger] rest[m] < last by {
            assert(members[m] < members[members.len() - 1]);
        }
        assert forall|m: int, n: int|
            #![trigger rest[m], rest[n]]
            0 <= m < n < rest.len() implies rest[m] < rest[n] by {
            assert(members[m] < members[n]);
        }
        lemma_increasing_fits(rest, last);
    }
}

/// A list in photo order makes sections in the order of their dates, the newest
/// one first.
pub proof fn sections_stand_newest_first(items: Seq<MediaItem>, mode: GroupBy, g: int, h: int)
    requires
        items.len() <= usize::MAX,
        in_media_order(items),
        forall|i: int|
            0 <= i < items.len() ==> representable(
                (#[trigger] items[i]).sort_time().unix_seconds(),
                items[i].sort_time().subsec_nanos(),
            ),
        0 <= g < h < grouped(items, mode).len(),
    ensures
        is_newer(grouped(items, mode)[g].key, grouped(items, mode)[h].key),
{
    let groups = grouped(items, mode);
    grouping_places_every_photo(items, mode);
    sections_come_in_list_order(items, mode);
    let (a, b) = (groups[g].members[0] as int, groups[h].members[0] as int);
    assert(a < b);
    assert(!precedes(items[b], items[a]));
    let (x, y) = (items[a].sort_time().day(), items[b].sort_time().day());
    assert(x >= y);
    every_day_has_a_date(x);
    every_day_has_a_date(y);
    let (d, e) = (civil_date(x), civil_date(y));
    assert(section_of(items[a], mode) == groups[g].key);
    assert(section_of(items[b], mode) == groups[h].key);
    assert(groups[g].key != groups[h].key);
    if !date_is_before(e, d) {
        if d != e {
            calendar_order_is_day_order(d, e);
        }
    }
    later_dates_are_newer(d, e, mode);
}

/// Where the box of a section stands among the headers and boxes: behind those
/// of all sections above it.
pub open spec fn box_place(sections: Seq<SectionTiles>, i: int) -> int {
    section_children(sections.subrange(0, i + 1)).len() - 1
}

/// The boxes of the sections stand in the order of the sections, each right below
/// its header where it has one.
pub proof fn boxes_stand_below_their_headers(sections: Seq<SectionTiles>, i: int, j: int)
    requires
        sections.len() <= usize::MAX,
        0 <= i < sections.len(),
        i < j < sections.len(),
    ensures
        ({
            let children = section_children(sections);
            let (p, q) = (box_place(sections, i), box_place(sections, j));
            &&& 0 <= p < q < children.len()
            &&& children[p] == ContentChild::Tiles(i as usize)
            &&& children[q] == ContentChild::Tiles(j as usize)
            &&& sections[i].header matches Some(label) ==> p > 0 && children[p - 1]
                == ContentChild::Header(label)
        }),
{
    lemma_box(sections, i);
    lemma_box(sections, j);
    let first = sections.subrange(0, i + 1);
    lemma_children_front(sections.subrange(0, j + 1), i + 1);
    assert(sections.subrange(0, j + 1).subrange(0, i + 1) =~= first);
    lemma_children_front(sections.subrange(0, j + 1), j);
    assert(sections.subrange(0, j + 1).subrange(0, j) =~= sections.subrange(0, j));
    assert(sections.subrange(0, j + 1).drop_last() =~= sections.subrange(0, j));
    lemma_children_front(sections.subrange(0, j), i + 1);
    assert(sections.subrange(0, j).subrange(0, i + 1) =~= first);
}

proof fn lemma_children_front(sections: Seq<SectionTiles>, n: int)
    requires
        0 <= n <= sections.len(),
    ensures
        section_children(sections.subrange(0, n)).is_prefix_of(section_children(sections)),
    decreases sections.len() - n,
{
    if n == sections.len() {
        assert(sections.subrange(0, n) =~= sections);
    } else {
        lemma_children_front(sections, n + 1);
        let more = sections.subrange(0, n + 1);
        assert(more.drop_last() =~= sections.subrange(0, n));
        let (a, b, c) = (
            section_children(sections.subrange(0, n)),
            section_children(more),
            section_children(sections),
        );
        assert(a.is_prefix_of(b));
        assert(a =~= c.subrange(0, a.len() as int)) by {
            assert forall|k: int| 0 <= k < a.len() implies a[k] == c[k] by {
                assert(b[k] == a[k]);
                assert(b == c.subrange(0, b.len() as int));
                assert(c.subrange(0, b.len() as int)[k] == c[k]);
            }
        }
    }
}

proof fn lemma_box(sections: Seq<SectionTiles>, i: int)
    requires
        sections.len() <= usize::MAX,
        0 <= i < sections.len(),
    ensures
        ({
            let children = section_children(sections);
            let p = box_place(sections, i);
            &&& 0 <= p < children.len()
            &&& children[p] == ContentChild::Tiles(i as usize)
            &&& sections[i].header matches Some(label) ==> p > 0 && children[p - 1]
                == ContentChild::Header(label)
        }),
{
    let now = sections.subrange(0, i + 1);
    assert(now.last() == sections[i]);
    let children = section_children(now);
    lemma_children_front(sections, i + 1);
    let all = section_children(sections);
    let p = children.len() - 1;
    assert(children[p] == ContentChild::Tiles(i as usize));
    assert(children == all.subrange(0, children.len() as int));
    assert(all[p] == all.subrange(0, children.len() as int)[p]);
    if sections[i].header is Some {
        assert(children[p - 1] == ContentChild::Header(sections[i].header->0));
        assert(all[p - 1] == all.subrange(0, children.len() as int)[p - 1]);
    }
}

// ---------------------------------------------------------------------------
// Rendering and loading more

/// Scrolling near the bottom raises the render limit by one step, up to the cap,
/// and there it stops.
pub proof fn scrolling_down_renders_more(grid: GridView)
    requires
        grid.config.grid_render_expand_step > 0,
    ensures
        grid.can_expand(true) <==> grid.progress.rendered_limit
            < grid.config.grid_render_absolute_cap,
        !grid.can_expand(false),
        grid.can_expand(true) ==> {
            let now = grid.expanded();
            &&& grid.progress.rendered_limit < now.progress.rendered_limit
            &&& now.progress.rendered_limit <= grid.config.grid_render_absolute_cap
            &&& now.progress.rendered_limit == grid.progress.rendered_limit
                + grid.config.grid_render_expand_step || now.progress.rendered_limit
                == grid.config.grid_render_absolute_cap && grid.progress.rendered_limit
                + grid.config.grid_render_expand_step >= grid.config.grid_render_absolute_cap
            &&& now.progress.rebuild_scheduled
            &&& now.board == grid.board
        },
{
}

/// A fill goes on by batches until the first page is complete, and ends with the
/// limit of a settled grid. A fill of an earlier view changes nothing.
pub proof fn fills_end_with_the_first_page(
    grid: GridView,
    generation: u32,
    items: Seq<MediaItem>,
    width: u32,
)
    requires
        items.len() <= u32::MAX,
        grid.progress.rendered_limit + grid.config.startup_render_batch <= usize::MAX,
    ensures
        ({
            let len = items.len() as int;
            let page: int = if grid.config.max_rendered_grid_items
                < grid.config.grid_render_absolute_cap {
                grid.config.max_rendered_grid_items as int
            } else {
                grid.config.grid_render_absolute_cap as int
            };
            let limit = grid.progress.rendered_limit as int;
            let now = grid.after_fill_step(generation, items, width);
            &&& generation != grid.progress.generation ==> now == grid
            &&& generation == grid.progress.generation && (limit >= page || limit >= len)
                ==> now.progress.rendered_limit == page && now.board == grid.board
            &&& limit < page && limit < len ==> {
                let next = grid.fill_limit(len);
                &&& next <= limit + grid.config.startup_render_batch
                &&& next == limit + grid.config.startup_render_batch || next == page || next == len
                &&& next <= page && next <= len
            }
        }),
{
}

/// Scrolling to photos that the window does not hold asks for a page that holds
/// them, whether they lie above the window or below it.
pub proof fn scrolling_away_asks_for_a_page(grid: GridView, len: int, scaled: u32)
    requires
        0 < len < grid.paging.total,
        !grid.paging.restoring_scroll,
        0 < grid.config.virtual_media_page_size,
        ({
            let offset = offset_for(
                scaled as int,
                grid.paging.total as int,
                grid.config.virtual_media_page_size as int,
            );
            let start = grid.paging.window_start;
            offset < start || offset >= start + len && offset >= start
                + grid.config.virtual_media_page_size
        }),
    ensures
        ({
            let offset = offset_for(
                scaled as int,
                grid.paging.total as int,
                grid.config.virtual_media_page_size as int,
            );
            grid.wanted_page(len, scaled) matches Some(page) && 0 <= page <= offset < page
                + grid.config.virtual_media_page_size
        }),
{
    let total = grid.paging.total as int;
    let size = grid.config.virtual_media_page_size as int;
    let start = grid.paging.window_start as int;
    let offset = offset_for(scaled as int, total, size);
    pages_are_chosen_outside_the_window(offset, start, len, total, size);
    chosen_page_shows_the_offset(offset, start, len, total, size);
}

/// Scrolling does what its place asks for: the window moves to the page that is
/// wanted, and near the bottom more is rendered.
pub proof fn scrolling_answers_its_place(
    grid: GridView,
    len: int,
    scaled: u32,
    ratio: u64,
    near_bottom: bool,
)
    requires
        !grid.paging.restoring_scroll,
        grid.config.grid_render_expand_step > 0,
    ensures
        ({
            let now = grid.after_scroll(len, scaled, ratio, near_bottom);
            &&& grid.wanted_page(len, scaled) matches Some(start) ==> now.paging.window_start
                == start as u32 && now.paging.page_loading && now.paging.query_in_flight
            &&& grid.wanted_page(len, scaled) is None ==> now.paging == grid.paging
            &&& near_bottom && grid.progress.rendered_limit < grid.config.grid_render_absolute_cap
                ==> now.progress.rendered_limit > grid.progress.rendered_limit
                && now.progress.rebuild_scheduled
            &&& !near_bottom ==> now.progress == grid.progress
            &&& now.board == grid.board
        }),
{
}

/// Pages are read one at a time: while one is on its way, another one waits, and
/// otherwise it is read at once. No page is asked for where none is wanted.
pub proof fn pages_are_read_one_at_a_time(grid: GridView, len: int, scaled: u32, ratio: u64)
    ensures
        grid.wanted_page(len, scaled) is None ==> grid.page_request(len, scaled)
            == PageRequest::NotNeeded && grid.after_page_request(len, scaled, ratio) == grid,
        grid.wanted_page(len, scaled) is Some ==> {
            let now = grid.after_page_request(len, scaled, ratio);
            &&& grid.page_request(len, scaled) == PageRequest::Coalesced
                <==> grid.paging.query_in_flight
            &&& grid.page_request(len, scaled) is Read <==> !grid.paging.query_in_flight
            &&& now.paging.query_in_flight && now.paging.page_loading
            &&& now.page_request(len, scaled) != PageRequest::NotNeeded ==> now.page_request(
                len,
                scaled,
            ) == PageRequest::Coalesced
        },
        grid.paging.restoring_scroll || grid.paging.total <= len ==> grid.wanted_page(len, scaled)
            is None,
{
}

/// A page that was read without another one being asked for meanwhile is the one
/// that was asked for: it arrives, and the window stands at its start.
pub proof fn pages_that_are_read_arrive(
    grid: GridView,
    len: int,
    scaled: u32,
    ratio: u64,
    pending_scaled: u32,
)
    requires
        grid.page_request(len, scaled) is Read,
        0 <= grid.wanted_page(len, scaled)->0 <= u32::MAX,
    ensures
        ({
            let asked = grid.after_page_request(len, scaled, ratio);
            let query = grid.page_request(len, scaled)->Read_0;
            let placed = asked.after_page_arrival(query, false, pending_scaled);
            let empty = asked.after_page_arrival(query, true, pending_scaled);
            &&& query.start == grid.wanted_page(len, scaled)->0
            &&& query.start != grid.paging.window_start
            &&& query.page_size == grid.config.virtual_media_page_size
            &&& asked.page_arrival(query, false, pending_scaled) == PageArrival::Placed
            &&& asked.page_arrival(query, true, pending_scaled) == PageArrival::Empty
            &&& placed.paging.window_start == query.start
            &&& !placed.paging.page_loading && placed.paging.applying_page
            &&& !empty.paging.page_loading && !empty.paging.applying_page
                || grid.paging.applying_page
        }),
{
}

/// A page that comes too late makes room for the one that waits, whose scroll
/// position is restored then. Where none waits, the next one can be read.
pub proof fn late_pages_make_room(
    grid: GridView,
    query: PageQuery,
    empty: bool,
    pending_scaled: u32,
)
    requires
        query.generation != grid.paging.generation,
    ensures
        ({
            let now = grid.after_page_arrival(query, empty, pending_scaled);
            &&& now.board == grid.board
            &&& now.paging.window_start == grid.paging.window_start
            &&& now.paging.page_loading == grid.paging.page_loading
            &&& grid.paging.pending.start is None ==> !now.paging.query_in_flight
            &&& grid.paging.pending.start matches Some(start) ==> {
                &&& grid.page_arrival(query, empty, pending_scaled) matches PageArrival::Superseded(
                    next,
                ) && next.start == start && next.generation == grid.paging.generation
                &&& now.paging.query_in_flight
                &&& now.paging.pending.start is None
                &&& grid.paging.pending.ratio is Some ==> now.paging.pending_scroll_ratio
                    == grid.paging.pending.ratio
            }
        }),
{
}

/// A page that has been settled is on screen: the board is that of the list, the
/// grid follows the list again, and the next page can be read.
pub proof fn settled_pages_are_on_screen(grid: GridView, items: Seq<MediaItem>, width: u32)
    ensures
        ({
            let now = grid.after_settling(items, width);
            &&& !now.paging.applying_page
            &&& !now.paging.query_in_flight
            &&& now.board == grid.next_board(items)
            &&& !now.progress.rebuild_scheduled
            &&& now.selected == Set::<i64>::empty() && !now.multi_select
            &&& now.flags == grid.flags
        }),
{
}

// ---------------------------------------------------------------------------
// Library-wide numbers

/// Numbers that were read before the library changed are dropped, and read again
/// where they are missing; a failed load leaves the numbers as they were. Either
/// way nothing on screen changes.
pub proof fn outdated_numbers_are_dropped(
    grid: GridView,
    result: Option<GridMetadataSnapshot>,
    items: Seq<MediaItem>,
    width: u32,
)
    requires
        grid.metadata.dirty_pending || result is None,
    ensures
        ({
            let now = grid.after_load(result, items, width);
            let missing = grid.metadata.total is None || grid.metadata.stats is None
                || !grid.metadata.counts.dom().contains(grid.flags.mode);
            &&& now.metadata.total == grid.metadata.total
            &&& now.metadata.stats == grid.metadata.stats
            &&& now.metadata.counts == grid.metadata.counts
            &&& !now.metadata.dirty_pending
            &&& now.board == grid.board && now.stats == grid.stats && now.paging == grid.paging
            &&& now.metadata.loading <==> grid.metadata.dirty_pending
                && grid.flags.full_library_context && missing
        }),
{
}

/// Numbers that are up to date are taken over, and shown by a grid on screen.
pub proof fn fresh_numbers_are_shown(
    grid: GridView,
    snapshot: GridMetadataSnapshot,
    items: Seq<MediaItem>,
    width: u32,
)
    requires
        !grid.metadata.dirty_pending,
        items.len() <= u32::MAX,
    ensures
        ({
            let now = grid.after_load(Some(snapshot), items, width);
            &&& snapshot.live_total is Some ==> now.metadata.total == snapshot.live_total
            &&& snapshot.library_stats is Some ==> now.metadata.stats == snapshot.library_stats
            &&& snapshot.section_counts matches Some(counts) ==> now.metadata.known_counts(
                snapshot.mode,
            ) == Some(counts@)
            &&& !grid.flags.active ==> now.board == grid.board && !now.metadata.loading
            &&& grid.flags.active && grid.flags.full_library_context && snapshot.live_total is Some
                && snapshot.live_total->0 >= items.len() ==> now.paging.total
                == snapshot.live_total->0
        }),
{
}

/// The progress line is read again one time after the other, and disappears when
/// no thumbnail is missing any more.
pub proof fn the_progress_line_comes_to_an_end(grid: GridView, stats: LibraryStats)
    ensures
        grid.stats.shown is None ==> grid.stats_tick() == StatsTick::Stop
            && !grid.after_stats_tick().stats.timer,
        grid.stats.shown is Some ==> {
            &&& grid.stats_tick() == StatsTick::Refresh <==> !grid.stats.refresh_running
            &&& grid.after_stats_tick().stats_tick() == StatsTick::Wait
            &&& grid.after_stats_tick().stats.shown == grid.stats.shown
            &&& grid.after_stats_tick().stats.timer == grid.stats.timer
        },
        ({
            let now = grid.after_stats_refresh(Some(stats));
            &&& now.metadata.stats == Some(stats)
            &&& now.stats.shown is Some <==> grid.stats.shown is Some && stats.thumbnails_generated
                < stats.live_total
            &&& now.stats.shown is Some ==> now.stats.shown == Some(stats)
            &&& now.stats_tick() != StatsTick::Wait
            &&& grid.stats.timer ==> (now.stats.timer <==> now.stats.shown is Some)
        }),
        grid.after_stats_refresh(None).stats.shown == grid.stats.shown,
        grid.after_stats_refresh(None).stats_tick() != StatsTick::Wait,
{
}

// ---------------------------------------------------------------------------
// Changes of the list

/// No change of the list is lost: a grid that is not on screen notes that it is
/// out of date, and one on screen follows in place, is rebuilt at once, or has a
/// rebuild waiting. Photos that were replaced are never followed in place.
pub proof fn no_change_is_lost(
    grid: GridView,
    items: Seq<MediaItem>,
    position: u32,
    removed: u32,
    added: u32,
    ready: Seq<bool>,
    width: u32,
)
    requires
        removed > 0 || added > 0,
        !grid.paging.applying_page,
    ensures
        ({
            let answer = grid.answer(items, position, removed, added);
            let now = grid.after_change(items, position, removed, added, ready, width);
            &&& !grid.flags.active ==> now.flags.dirty_model && now.board == grid.board
            &&& grid.flags.active && removed > 0 && added == 0 ==> answer == ChangeAnswer::Remove
            &&& grid.flags.active && removed > 0 && added > 0 ==> now.board
                == grid.with_stale_metadata().next_board(items)
            &&& grid.flags.active && removed == 0 && items.len() <= added ==> now.board
                == grid.with_stale_metadata().next_board(items)
            &&& grid.flags.active && removed == 0 && items.len() > added ==> {
                ||| answer == ChangeAnswer::Insert && grid.can_add(items, position, added)
                ||| now.progress.rebuild_scheduled && now.board == grid.board
            }
        }),
{
}

/// The photos that lose their tiles are those whose list positions were removed,
/// in grid order.
pub proof fn lost_photos_stood_in_the_range(
    displayed: Seq<DisplayedItem>,
    position: int,
    end: int,
)
    ensures
        lost_displayed(displayed, position, end) == displayed.filter(
            |item: DisplayedItem| position <= item.window_index < end,
        ),
    decreases displayed.len(),
{
    reveal(Seq::filter);
    if displayed.len() > 0 {
        lost_photos_stood_in_the_range(displayed.drop_last(), position, end);
    }
}

/// A removal takes out of the selection the photos that went away, and no others.
/// It lowers the number of photos that the scroll bar stands for by as many.
pub proof fn removals_deselect_what_is_gone(
    grid: GridView,
    items: Seq<MediaItem>,
    position: u32,
    removed: u32,
    id: i64,
)
    requires
        removed > 0,
        position + removed <= u32::MAX,
    ensures
        ({
            let now = grid.after_removal(items, position, removed);
            let shown = grid.board.displayed;
            &&& now.selected.contains(id) <==> grid.selected.contains(id) && !exists|k: int|
                0 <= k < shown.len() && (#[trigger] shown[k]).media_id == id && position
                    <= shown[k].window_index < position + removed
            &&& removed <= grid.paging.total ==> now.paging.total == grid.paging.total - removed
            &&& now.paging.window_start == grid.paging.window_start
            &&& now.multi_select == grid.multi_select
        }),
{
    let shown = grid.board.displayed;
    let end = position + removed;
    let lost = lost_displayed(shown, position as int, end);
    let gone = |item: DisplayedItem| position as int <= item.window_index < end;
    lost_photos_stood_in_the_range(shown, position as int, end);
    assert(lost == shown.filter(gone));
    broadcast use vstd::seq_lib::group_filter_ensures;

    if shows_photo(lost, id) {
        let k = choose|k: int| 0 <= k < lost.len() && (#[trigger] lost[k]).media_id == id;
        assert(gone(shown.filter(gone)[k]));
        lemma_lost_are_shown(shown, position as int, end, k);
    }
    if exists|k: int|
        0 <= k < shown.len() && (#[trigger] shown[k]).media_id == id && position
            <= shown[k].window_index < position + removed {
        let k = choose|k: int|
            0 <= k < shown.len() && (#[trigger] shown[k]).media_id == id && position
                <= shown[k].window_index < position + removed;
        assert(gone(shown[k]));
        assert(shown.filter(gone).contains(shown[k]));
        let m = choose|m: int| 0 <= m < lost.len() && lost[m] == shown[k];
        assert(lost[m].media_id == id);
    }
}

proof fn lemma_lost_are_shown(displayed: Seq<DisplayedItem>, position: int, end: int, k: int)
    requires
        0 <= k < lost_displayed(displayed, position, end).len(),
    ensures
        exists|d: int|
            0 <= d < displayed.len() && #[trigger] displayed[d] == lost_displayed(
                displayed,
                position,
                end,
            )[k] && position <= displayed[d].window_index < end,
    decreases displayed.len(),
{
    let rest = displayed.drop_last();
    let before = lost_displayed(rest, position, end);
    if k < before.len() {
        lemma_lost_are_shown(rest, position, end, k);
        let d = choose|d: int|
            0 <= d < rest.len() && #[trigger] rest[d] == before[k] && position
                <= rest[d].window_index < end;
        assert(displayed[d] == before[k]);
    } else {
        assert(displayed[displayed.len() - 1] == lost_displayed(displayed, position, end)[k]);
    }
}

/// New photos of the library raise the number that the scroll bar stands for by as
/// many, and leave the selection as it is.
pub proof fn additions_raise_the_total(
    grid: GridView,
    items: Seq<MediaItem>,
    position: u32,
    added: u32,
    ready: Seq<bool>,
)
    requires
        grid.paging.total + added <= u32::MAX,
    ensures
        ({
            let now = grid.after_addition(items, position, added, ready, true);
            &&& now.paging.total == grid.paging.total + added
            &&& now.paging.window_start == grid.paging.window_start
            &&& now.selected == grid.selected && now.multi_select == grid.multi_select
        }),
{
}

/// The photos to be waited for are exactly those that are not ready, in list
/// order.
pub proof fn unready_photos_are_waited_for(position: int, ready: Seq<bool>)
    requires
        0 <= position,
        position + ready.len() <= u32::MAX,
    ensures
        forall|p: u32|
            #[trigger] unready_positions(position, ready).contains(p) <==> position <= p < position
                + ready.len() && !ready[p - position],
        forall|i: int, j: int|
            0 <= i < j < unready_positions(position, ready).len() ==> #[trigger] unready_positions(
                position,
                ready,
            )[i] < #[trigger] unready_positions(position, ready)[j],
    decreases ready.len(),
{
    if ready.len() > 0 {
        let rest = ready.drop_last();
        unready_photos_are_waited_for(position, rest);
        let front = unready_positions(position, rest);
        let now = unready_positions(position, ready);
        let last = (position + ready.len() - 1) as u32;
        assert forall|p: u32| #[trigger] now.contains(p) <==> position <= p < position + ready.len()
            && !ready[p - position] by {
            assert(front.contains(p) <==> position <= p < position + rest.len() && !rest[p
                - position]);
            if now.contains(p) {
                let m = choose|m: int| 0 <= m < now.len() && now[m] == p;
                if m < front.len() {
                    assert(front[m] == p);
                }
            }
            if front.contains(p) {
                let m = choose|m: int| 0 <= m < front.len() && front[m] == p;
                assert(now[m] == p);
            }
            if p == last && !ready.last() {
                assert(now[front.len() as int] == p);
            }
        }
        assert forall|i: int, j: int| 0 <= i < j < now.len() implies #[trigger] now[i]
            < #[trigger] now[j] by {
            assert(front[i] == now[i]);
            assert(front.contains(front[i]));
            if j < front.len() {
                assert(front[i] < front[j]);
            }
        }
    }
}

/// A photo whose thumbnail was waited for is put on screen, if it is still in the
/// list, its section is on screen, and it is not there already. Where its section
/// is missing a rebuild brings it, and a grid off screen notes that it is out of
/// date.
pub proof fn awaited_photos_come_on_screen(
    grid: GridView,
    items: Seq<MediaItem>,
    at: int,
    mode: GroupBy,
)
    requires
        0 <= at < items.len(),
        distinct_uris(items),
    ensures
        ({
            let now = grid.after_deferred_insert(items, items[at].uri@, mode);
            let shown = grid.board.displayed;
            let there = shows_uri(shown, items, items[at].uri@) || shows_photo(shown, items[at].id);
            &&& !grid.flags.active ==> now.flags.dirty_model && now.board == grid.board
            &&& grid.flags.active && !shows_section(shown, section_of(items[at], mode))
                && !shows_uri(shown, items, items[at].uri@) ==> now.progress.rebuild_scheduled
                && now.board == grid.board
            &&& grid.flags.active && shows_section(shown, section_of(items[at], mode)) && there
                ==> now == grid
            &&& grid.flags.active && shows_section(shown, section_of(items[at], mode)) && !there
                ==> exists|k: int|
                0 <= k < now.board.displayed.len() && (
                #[trigger] now.board.displayed[k]).media_id == items[at].id
                    && now.board.displayed[k].window_index == at as u32
        }),
{
    let uri = items[at].uri@;
    lemma_uri_position(items, uri);
    let found = uri_position(items, uri);
    if found < at {
        assert(items[found].uri@ != items[at].uri@);
    }
    assert(found == at);
    if grid.deferred_insert(items, uri, mode) == DeferredInsert::Inserted {
        let now = grid.after_deferred_insert(items, uri, mode);
        let item = DisplayedItem {
            flow_child: grid.board.next_child,
            window_index: at as u32,
            media_id: items[at].id,
            section_key: section_of(items[at], mode),
        };
        let all = grid.board.displayed.push(item);
        lemma_in_list_order(all);
        assert(all[all.len() - 1] == item);
        assert(all.contains(item));
        assert(in_list_order(all).contains(item));
        let k = choose|k: int| 0 <= k < in_list_order(all).len() && in_list_order(all)[k] == item;
        assert(now.board.displayed[k].media_id == items[at].id);
    }
}

/// Headers that are renewed name their section again and count its photos: in the
/// library where that is known, else among those rendered.
pub proof fn renewed_headers_count_again(
    sections: Seq<SectionTiles>,
    groups: Seq<SectionGroup>,
    counts: Option<Map<SectionKey, u32>>,
    i: int,
)
    requires
        0 <= i < sections.len(),
        i < groups.len(),
        sections[i].header is Some,
        groups[i].key == sections[i].key,
        groups[i].members.len() <= u32::MAX,
    ensures
        relabelled(sections, groups, counts).len() == sections.len(),
        relabelled(sections, groups, counts)[i].tiles == sections[i].tiles,
        relabelled(sections, groups, counts)[i].header matches Some(label) && label.key
            == sections[i].key && label.count == if counts is Some && counts->0.dom().contains(
            sections[i].key,
        ) {
            counts->0[sections[i].key] as int
        } else {
            groups[i].members.len() as int
        },
{
}

/// Renewing the headers counts the photos that are rendered, of the list as it is.
pub proof fn headers_follow_the_list(grid: GridView, items: Seq<MediaItem>, i: int)
    requires
        items.len() <= u32::MAX,
        !grid.flags.flat_sections,
        0 <= i < grid.board.sections.len(),
        grid.board.sections[i].header is Some,
        grid.header_counts() is None,
        ({
            let count = if items.len() > grid.progress.rendered_limit {
                grid.progress.rendered_limit as int
            } else {
                items.len() as int
            };
            let groups = grouped(items.subrange(0, count), grid.flags.mode);
            i < groups.len() && groups[i].key == grid.board.sections[i].key
        }),
    ensures
        ({
            let count = if items.len() > grid.progress.rendered_limit {
                grid.progress.rendered_limit as int
            } else {
                items.len() as int
            };
            let groups = grouped(items.subrange(0, count), grid.flags.mode);
            let now = grid.with_fresh_headers(items);
            &&& now.board.sections[i].header matches Some(label) && label.key
                == grid.board.sections[i].key && label.count == groups[i].members.len()
            &&& now.board.displayed == grid.board.displayed
        }),
{
    let count = if items.len() > grid.progress.rendered_limit {
        grid.progress.rendered_limit as int
    } else {
        items.len() as int
    };
    lemma_member_bound(items.subrange(0, count), grid.flags.mode, i);
}

/// Removals are counted out of the numbers of the library. All other changes make
/// a grid of the whole library forget them, and a grid of a part keeps what it has.
pub proof fn other_changes_forget_the_numbers(
    grid: GridView,
    items: Seq<MediaItem>,
    position: u32,
    removed: u32,
    added: u32,
    ready: Seq<bool>,
    width: u32,
)
    requires
        grid.flags.active,
        !grid.paging.applying_page,
        added > 0,
    ensures
        ({
            let now = grid.after_change(items, position, removed, added, ready, width);
            &&& grid.flags.full_library_context ==> now.metadata.total is None
            &&& grid.flags.full_library_context && grid.metadata.loading
                ==> now.metadata.dirty_pending
            &&& !grid.flags.full_library_context && removed > 0 ==> now.metadata.total
                == grid.metadata.total
        }),
{
}

/// The progress line follows the numbers that are known, and disappears when no
/// thumbnail is missing any more. Without a line none appears.
pub proof fn the_progress_line_follows_the_numbers(grid: GridView)
    ensures
        ({
            let now = grid.with_fresh_stats();
            &&& grid.stats.shown is None ==> now == grid
            &&& grid.stats.shown is Some && grid.metadata.stats is Some ==> {
                let stats = grid.metadata.stats->0;
                &&& now.stats.shown is Some <==> stats.thumbnails_generated < stats.live_total
                &&& now.stats.shown is Some ==> now.stats.shown == Some(stats)
                &&& now.stats.shown is None ==> !now.stats.timer
            }
            &&& now.board == grid.board && now.metadata == grid.metadata
        }),
{
}

// ---------------------------------------------------------------------------
// Settings

/// A grid that was off screen while its list changed catches up when it comes
/// back: it shows the list as it is then, and is up to date.
pub proof fn grids_catch_up_on_screen(
    grid: GridView,
    items: Seq<MediaItem>,
    position: u32,
    removed: u32,
    added: u32,
    ready: Seq<bool>,
    later: Seq<MediaItem>,
    width: u32,
)
    requires
        !grid.flags.active,
    ensures
        ({
            let missed = grid.after_change(items, position, removed, added, ready, width);
            let back = missed.on_screen(true, later, width);
            &&& back.flags.active && !back.flags.dirty_model
            &&& back.board == grid.next_board(later)
            &&& !back.progress.rebuild_scheduled
        }),
{
}

/// Coming on screen up to date, and going off screen, changes nothing that the
/// grid shows.
pub proof fn switching_keeps_what_is_shown(
    grid: GridView,
    active: bool,
    items: Seq<MediaItem>,
    width: u32,
)
    requires
        !grid.flags.dirty_model || !active,
    ensures
        ({
            let now = grid.on_screen(active, items, width);
            &&& now.flags.active == active
            &&& now.flags.dirty_model == grid.flags.dirty_model
            &&& now.board == grid.board
            &&& now.selected == grid.selected
            &&& now.metadata == grid.metadata && now.paging == grid.paging
            &&& grid.flags.active == active ==> now == grid
        }),
{
}

/// A fill that is under way ends when the grid goes off screen or shows another
/// view: its next step changes nothing.
pub proof fn switches_end_fills(
    grid: GridView,
    mode: GroupBy,
    items: Seq<MediaItem>,
    width: u32,
)
    requires
        grid.flags.active,
    ensures
        ({
            let off = grid.on_screen(false, items, width);
            let turned = grid.with_mode(mode, items, width);
            let generation = grid.progress.generation;
            &&& off.after_fill_step(generation, items, width) == off
            &&& turned.after_fill_step(generation, items, width) == turned
            &&& turned.flags.mode == mode
        }),
{
}

/// When a grid turns to the whole library, or to a part of it, nothing of what was
/// read for it before arrives, and the numbers of the library are read anew.
pub proof fn other_contexts_start_anew(
    grid: GridView,
    full_library: bool,
    items: Seq<MediaItem>,
    width: u32,
    query: PageQuery,
    empty: bool,
    pending_scaled: u32,
)
    requires
        grid.flags.full_library_context != full_library,
        grid.paging.generation < u64::MAX,
        query.generation == grid.paging.generation,
        items.len() <= u32::MAX,
    ensures
        ({
            let now = grid.in_context(full_library, items, width);
            &&& now.flags.full_library_context == full_library
            &&& now.page_arrival(query, empty, pending_scaled) == PageArrival::Stale
            &&& !now.paging.query_in_flight && !now.paging.page_loading
            &&& full_library ==> now.metadata.total is None && now.metadata.loading
            &&& now.paging.total == items.len()
            &&& now.selected == Set::<i64>::empty()
        }),
{
}

/// A flat grid has all its photos in one section without a header.
pub proof fn flat_grids_have_one_section(grid: GridView, items: Seq<MediaItem>, width: u32)
    requires
        items.len() <= u32::MAX,
        grid.flags.flat_sections,
        grid.placeholders(items.len() as int) == 0,
    ensures
        ({
            let sections = grid.rebuilt(items, width).board.sections;
            &&& grid.rendered(items.len() as int) == 0 ==> sections.len() == 0
            &&& grid.rendered(items.len() as int) > 0 ==> sections.len() == 1
                && sections[0].header is None && sections[0].tiles.len() == grid.rendered(
                items.len() as int,
            )
        }),
{
    let count = grid.rendered(items.len() as int);
    let shown = items.subrange(0, count);
    if count > 0 {
        let groups = flat_group(count);
        assert(groups.drop_last() =~= Seq::<SectionGroup>::empty());
        assert(groups.last().members.len() == count);
        reveal_with_fuel(built_sections, 2);
    }
}

/// A new grid on screen shows its list, in the view asked for and with nothing
/// selected. One that is off screen notes that it has to, and shows it when it
/// comes on screen.
pub proof fn new_grids_show_their_list(
    config: GridConfig,
    mode: GroupBy,
    menu: bool,
    progressive: bool,
    full_library: bool,
    items: Seq<MediaItem>,
    width: u32,
)
    ensures
        ({
            let blank = blank_grid(config, mode, menu, true, progressive, full_library);
            let hidden = blank_grid(config, mode, menu, false, progressive, full_library);
            let now = new_grid(blank, items, width);
            let later = new_grid(hidden, items, width);
            &&& now.flags.mode == mode && now.flags.enable_context_menu == menu
                && now.flags.full_library_context == full_library && !now.flags.flat_sections
            &&& now.flags.active && !now.flags.dirty_model
            &&& now.board == blank.next_board(items)
            &&& now.selected == Set::<i64>::empty() && !now.multi_select
            &&& !later.flags.active && later.flags.dirty_model
            &&& later.board.displayed.len() == 0
            &&& later.on_screen(true, items, width).board == now.board
        }),
{
    let blank = blank_grid(config, mode, menu, true, progressive, full_library);
    let hidden = blank_grid(config, mode, menu, false, progressive, full_library);
    assert(hidden.next_board(items) == blank.next_board(items));
}

/// A grid that turns flat, or back to sections by date, is rebuilt in the new way;
/// one that is so already stays as it is.
pub proof fn flattened_grids_are_rebuilt(
    grid: GridView,
    flat: bool,
    items: Seq<MediaItem>,
    width: u32,
)
    ensures
        ({
            let now = grid.flattened(flat, items, width);
            &&& now.flags.flat_sections == flat
            &&& grid.flags.flat_sections == flat ==> now == grid
            &&& grid.flags.flat_sections != flat ==> now.board == (GridView {
                flags: GridFlags { flat_sections: flat, ..grid.flags },
                ..grid
            }).next_board(items) && now.selected == Set::<i64>::empty()
            &&& now.metadata.total == grid.metadata.total
        }),
{
}

/// Selecting all selects the photos on screen and no others.
pub proof fn all_on_screen_are_selected(grid: GridView, id: i64)
    ensures
        grid.with_selection(grid.displayed_ids().to_set(), true).selected.contains(id)
            <==> shows_photo(grid.board.displayed, id),
        grid.displayed_ids().len() == grid.board.displayed.len(),
{
    let (ids, shown) = (grid.displayed_ids(), grid.board.displayed);
    if ids.contains(id) {
        let k = choose|k: int| 0 <= k < ids.len() && ids[k] == id;
        assert(shown[k].media_id == id);
    }
    if shows_photo(shown, id) {
        let k = choose|k: int| 0 <= k < shown.len() && (#[trigger] shown[k]).media_id == id;
        assert(ids[k] == id);
    }
}

/// A tile leads to the photo that it shows, and a tile without a photo to none.
pub proof fn tiles_lead_to_their_photo(grid: GridView, k: int, child: u64)
    requires
        grid.board.wf(),
        0 <= k < grid.board.displayed.len(),
    ensures
        grid.photo_of(grid.board.displayed[k].flow_child) == Some(grid.board.displayed[k].media_id),
        (forall|m: int|
            0 <= m < grid.board.displayed.len() ==> (#[trigger] grid.board.displayed[m]).flow_child
                != child) ==> grid.photo_of(child) is None,
{
    let shown = grid.board.displayed;
    let m = choose|m: int|
        0 <= m < shown.len() && (#[trigger] shown[m]).flow_child == shown[k].flow_child;
    if m < k {
        assert(shown[m].flow_child != shown[k].flow_child);
    } else if k < m {
        assert(shown[k].flow_child != shown[m].flow_child);
    }
}

/// A removal reports a change of the selection exactly where a selected photo went
/// away.
pub proof fn lost_selections_are_reported(selected: Set<i64>, lost: Seq<DisplayedItem>)
    ensures
        lost_selected(selected, lost) <==> selected_after(selected, lost) != selected,
{
    let left = selected_after(selected, lost);
    if lost_selected(selected, lost) {
        let k = choose|k: int| 0 <= k < lost.len() && selected.contains((#[trigger] lost[k]).media_id);
        assert(shows_photo(lost, lost[k].media_id));
        assert(!left.contains(lost[k].media_id));
    } else {
        assert(left =~= selected);
    }
}

} // verus!
