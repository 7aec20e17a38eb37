//! Virtual paging: a library far larger than the loaded window is shown as one
//! long scroll, with spacers standing in for the items above and below the
//! window.

use super::ViewSpec;
use vstd::prelude::*;

verus! {

/// Gap between two tiles, in pixels.
pub const VIRTUAL_TILE_GAP: i32 = 2;

pub const VIRTUAL_PREFETCH_LOW_NUM: u32 = 1;

pub const VIRTUAL_PREFETCH_HIGH_NUM: u32 = 4;

pub const VIRTUAL_PREFETCH_DEN: u32 = 5;

/// The start of the last full page.
pub open spec fn last_page_start(total: int, page_size: int) -> int {
    if total > page_size { total - page_size } else { 0 }
}

/// `a * b`, held at the largest 32 bit number.
pub open spec fn clamped_product(a: int, b: int) -> int {
    if a * b > u32::MAX { u32::MAX as int } else { a * b }
}

/// The first offset of the middle band of a window, in which no page is loaded.
pub open spec fn band_low(start: int, len: int) -> int {
    start + clamped_product(len, VIRTUAL_PREFETCH_LOW_NUM as int) / 5
}

/// The last offset of the middle band of a window.
pub open spec fn band_high(start: int, len: int) -> int {
    start + clamped_product(len, VIRTUAL_PREFETCH_HIGH_NUM as int) / 5
}

/// The page to load so that `desired` is in view: none while the window needs
/// no other, the last page near the end, else the page centred on `desired`.
pub open spec fn page_start(
    desired: int,
    start: int,
    len: int,
    total: int,
    page_size: int,
) -> Option<int> {
    if total == 0 || len == 0 || len >= total {
        None
    } else if band_low(start, len) <= desired <= band_high(start, len) {
        None
    } else {
        let last = last_page_start(total, page_size);
        if desired >= last {
            Some(last)
        } else {
            let centred = if desired > page_size / 2 { desired - page_size / 2 } else { 0 };
            Some(if centred < last { centred } else { last })
        }
    }
}

fn clamped_mul(a: u32, b: u32) -> (product: u32)
    ensures
        product == clamped_product(a as int, b as int),
{
    let (x, y): (u64, u64) = (a as u64, b as u64);
    assert(0 <= x * y <= 0xffff_ffff * 0xffff_ffff) by (nonlinear_arith)
        requires
            0 <= x <= 0xffff_ffff,
            0 <= y <= 0xffff_ffff,
    ;
    let wide: u64 = x * y;
    if wide > u32::MAX as u64 {
        u32::MAX
    } else {
        wide as u32
    }
}

/// The offset into the library for a scroll ratio that comes to `scaled` photos:
/// never behind the start of the last page.
pub open spec fn offset_for(scaled: int, total: int, page_size: int) -> int {
    if scaled < last_page_start(total, page_size) {
        scaled
    } else {
        last_page_start(total, page_size)
    }
}

/// The offset into the library that a scroll position asks for. `scaled` is the
/// scroll ratio applied to `total`, rounded down; the result never lies behind
/// the start of the last page.
pub fn virtual_offset_for_ratio(scaled: u32, total: u32, page_size: u32) -> (offset: u32)
    ensures
        offset == offset_for(scaled as int, total as int, page_size as int),
{
    if total == 0 {
        return 0;
    }
    let max_start: u32 = total.saturating_sub(page_size);
    if scaled < max_start {
        scaled
    } else {
        max_start
    }
}

/// The page to load for `desired_offset`, if the current window needs another.
pub fn virtual_page_start_for_offset(
    desired_offset: u32,
    current_start: u32,
    current_len: u32,
    total: u32,
    page_size: u32,
) -> (start: Option<u32>)
    requires
        0 < current_len < total ==> band_high(current_start as int, current_len as int)
            <= u32::MAX,
    ensures
        start is Some <==> page_start(
            desired_offset as int,
            current_start as int,
            current_len as int,
            total as int,
            page_size as int,
        ) is Some,
        start matches Some(s) ==> page_start(
            desired_offset as int,
            current_start as int,
            current_len as int,
            total as int,
            page_size as int,
        ) == Some(s as int),
{
    if total == 0 || current_len == 0 || current_len >= total {
        return None;
    }
    let low: u32 = current_start + clamped_mul(current_len, VIRTUAL_PREFETCH_LOW_NUM)
        / VIRTUAL_PREFETCH_DEN;
    let high: u32 = current_start + clamped_mul(current_len, VIRTUAL_PREFETCH_HIGH_NUM)
        / VIRTUAL_PREFETCH_DEN;
    if desired_offset >= low && desired_offset <= high {
        return None;
    }
    let max_start: u32 = total.saturating_sub(page_size);
    if desired_offset >= max_start {
        return Some(max_start);
    }
    let centered: u32 = desired_offset.saturating_sub(page_size / 2);
    if centered < max_start {
        Some(centered)
    } else {
        Some(max_start)
    }
}

/// Height and width of one tile together with its gap, in pixels.
pub open spec fn tile_pitch(pixel_size: int) -> int {
    if pixel_size + VIRTUAL_TILE_GAP > 1 { pixel_size + VIRTUAL_TILE_GAP } else { 1 }
}

/// How many tiles fit side by side.
pub fn estimated_virtual_columns(viewport_width: u32, spec: ViewSpec) -> (columns: u32)
    requires
        spec.pixel_size <= i32::MAX - 2,
    ensures
        columns >= 1,
        columns == if viewport_width as int / tile_pitch(spec.pixel_size as int) > 1 {
            viewport_width as int / tile_pitch(spec.pixel_size as int)
        } else {
            1
        },
{
    let pitch: i32 = spec.pixel_size + VIRTUAL_TILE_GAP;
    let tile: u32 = if pitch > 1 {
        pitch as u32
    } else {
        1
    };
    let columns: u32 = viewport_width / tile;
    if columns > 1 {
        columns
    } else {
        1
    }
}

/// Rows that `items` tiles fill at `columns` a row, the last row counted even
/// where it is not full.
pub open spec fn rows_for(items: int, columns: int) -> int {
    let width = if columns > 1 { columns } else { 1 };
    (items + width - 1) / width
}

/// Height that stands in for `unloaded` tiles, held at the largest coordinate.
pub open spec fn spacer_height(unloaded: int, columns: int, pixel_size: int) -> int {
    if unloaded == 0 {
        0
    } else {
        let height = rows_for(unloaded, columns) * tile_pitch(pixel_size);
        if height > i32::MAX { i32::MAX as int } else { height }
    }
}

/// Height of the spacer that stands in for `unloaded_items` tiles.
pub fn virtual_spacer_height(unloaded_items: u32, columns: u32, spec: ViewSpec) -> (height: i32)
    requires
        spec.pixel_size <= i32::MAX - 2,
    ensures
        height == spacer_height(unloaded_items as int, columns as int, spec.pixel_size as int),
        height >= 0,
{
    if unloaded_items == 0 {
        return 0;
    }
    let width: u64 = if columns > 1 {
        columns as u64
    } else {
        1
    };
    let rows: u64 = (unloaded_items as u64 + (width - 1)) / width;
    let pitch: i32 = spec.pixel_size + VIRTUAL_TILE_GAP;
    let row_height: u64 = if pitch > 1 {
        pitch as u64
    } else {
        1
    };
    proof {
        assert(rows <= 0xffff_ffff) by {
            assert((unloaded_items + width - 1) / (width as int) <= unloaded_items as int) by (nonlinear_arith)
                requires
                    unloaded_items >= 1,
                    width >= 1,
            ;
        }
        assert(0 <= rows * row_height <= 0xffff_ffff * 0x7fff_ffff) by (nonlinear_arith)
            requires
                0 <= rows <= 0xffff_ffff,
                1 <= row_height <= 0x7fff_ffff,
        ;
    }
    let height: u64 = rows * row_height;
    if height > i32::MAX as u64 {
        i32::MAX
    } else {
        height as i32
    }
}

/// Number of items that a page starting at `start` holds.
pub open spec fn page_len(start: int, total: int, page_size: int) -> int {
    if start >= total {
        0
    } else if total - start < page_size {
        total - start
    } else {
        page_size
    }
}

/// Number of items that a page starting at `start` holds.
pub fn virtual_window_item_count(start: u32, total: u32, page_size: u32) -> (count: u32)
    ensures
        count == page_len(start as int, total as int, page_size as int),
{
    if start >= total {
        0
    } else {
        let left: u32 = total.saturating_sub(start);
        if left < page_size {
            left
        } else {
            page_size
        }
    }
}

/// May scrolling load another page? Not while a scroll position is being
/// restored, nor when everything or nothing is loaded.
pub fn should_consider_virtual_page_load(
    restoring_scroll: bool,
    total: u32,
    current_len: u32,
) -> (consider: bool)
    ensures
        consider == (!restoring_scroll && total > current_len && current_len > 0),
{
    !restoring_scroll && total > current_len && current_len > 0
}

/// The page asked for while another page is still loading. The scroll ratio is
/// carried along as its bit pattern.
#[derive(Clone, Copy, Debug, PartialEq, Eq, Structural)]
pub struct PendingVirtualPage {
    pub start: Option<u32>,
    pub ratio: Option<u64>,
}

/// Ask for `target_start` next; an earlier request is forgotten.
pub fn replace_pending_virtual_page(
    pending: &mut PendingVirtualPage,
    target_start: u32,
    ratio: u64,
)
    ensures
        *final(pending) == (PendingVirtualPage { start: Some(target_start), ratio: Some(ratio) }),
{
    pending.start = Some(target_start);
    pending.ratio = Some(ratio);
}

/// The page chosen for an offset inside the library holds that offset and does
/// not start behind the last page.
pub proof fn chosen_page_shows_the_offset(
    desired: int,
    start: int,
    len: int,
    total: int,
    page_size: int,
)
    requires
        0 <= desired < total,
        0 <= start,
        0 < page_size,
        page_start(desired, start, len, total, page_size) is Some,
    ensures
        ({
            let page = page_start(desired, start, len, total, page_size)->0;
            &&& 0 <= page <= last_page_start(total, page_size)
            &&& page <= desired < page + page_size
        }),
{
}

/// Scrolling further never leads to an earlier offset. The top of the scroll bar
/// is the start of the library, its end the start of the last page.
pub proof fn offsets_follow_the_scroll_bar(
    nearer: int,
    further: int,
    total: int,
    page_size: int,
)
    requires
        0 <= nearer <= further,
        0 <= total,
        0 <= page_size,
    ensures
        0 <= offset_for(nearer, total, page_size) <= offset_for(further, total, page_size),
        offset_for(further, total, page_size) <= last_page_start(total, page_size),
        offset_for(0, total, page_size) == 0,
        further >= total ==> offset_for(further, total, page_size) == last_page_start(
            total,
            page_size,
        ),
{
}

/// More unloaded items never make a lower spacer.
pub proof fn spacer_grows_with_unloaded_items(fewer: int, more: int, columns: int, pixel_size: int)
    requires
        0 <= fewer <= more,
    ensures
        spacer_height(fewer, columns, pixel_size) <= spacer_height(more, columns, pixel_size),
        fewer > 0 ==> spacer_height(fewer, columns, pixel_size) > 0,
{
    let width = if columns > 1 { columns } else { 1 };
    let pitch = tile_pitch(pixel_size);
    let a = rows_for(fewer, columns);
    let b = rows_for(more, columns);
    assert(a <= b) by (nonlinear_arith)
        requires
            fewer <= more,
            width >= 1,
            a == (fewer + width - 1) / width,
            b == (more + width - 1) / width,
    ;
    assert(a * pitch <= b * pitch) by (nonlinear_arith)
        requires
            a <= b,
            pitch >= 1,
    ;
    if fewer > 0 {
        assert(a >= 1) by (nonlinear_arith)
            requires
                fewer >= 1,
                width >= 1,
                a == (fewer + width - 1) / width,
        ;
        assert(b >= 1);
        assert(a * pitch >= 1) by (nonlinear_arith)
            requires
                a >= 1,
                pitch >= 1,
        ;
    } else {
        assert(more > 0 ==> b >= 1 ) by (nonlinear_arith)
            requires
                width >= 1,
                b == (more + width - 1) / width,
        ;
        assert(b >= 0 ==> b * pitch >= 0) by (nonlinear_arith)
            requires
                pitch >= 1,
        ;
    }
}

/// Where a part of the library is loaded, a page is chosen for every offset that
/// the window does not hold, whether it lies above the window or below it.
pub proof fn pages_are_chosen_outside_the_window(
    desired: int,
    start: int,
    len: int,
    total: int,
    page_size: int,
)
    requires
        0 < len < total,
        0 <= start,
        !(start <= desired < start + len),
    ensures
        page_start(desired, start, len, total, page_size) is Some,
{
    assert(VIRTUAL_PREFETCH_LOW_NUM == 1 && VIRTUAL_PREFETCH_HIGH_NUM == 4);
    assert(clamped_product(len, 1) >= 0);
    assert(0 <= clamped_product(len, 4) <= 4 * len);
}

/// Inside the window a page is chosen exactly in its first and its last fifth,
/// so that the next photos are there before the window ends. Without a window,
/// or where it holds the whole library, none is chosen.
pub proof fn pages_are_chosen_near_the_edges(
    desired: int,
    start: int,
    len: int,
    total: int,
    page_size: int,
)
    requires
        0 <= start <= desired < start + len,
        4 * len <= u32::MAX,
        len < total,
    ensures
        page_start(desired, start, len, total, page_size) is Some <==> 5 * (desired - start + 1)
            <= len || 5 * (desired - start) > 4 * len,
        page_start(desired, start, total, total, page_size) is None,
        page_start(desired, start, 0, total, page_size) is None,
{
}

/// The chosen page has the offset in its middle, as far as the ends of the
/// library allow: half a page of photos stands in front of it.
pub proof fn chosen_pages_are_centred(
    desired: int,
    start: int,
    len: int,
    total: int,
    page_size: int,
)
    requires
        0 <= desired < total,
        0 < page_size <= total,
        page_start(desired, start, len, total, page_size) is Some,
    ensures
        ({
            let page = page_start(desired, start, len, total, page_size)->0;
            &&& 0 <= page && page + page_size <= total
            &&& 0 < page && page + page_size < total ==> desired - page == page_size / 2
            &&& page == 0 ==> desired <= page_size / 2 || page_size == total
            &&& desired + page_size >= total ==> page + page_size == total
        }),
{
}

/// A page holds as many photos as it has room for, and ends with the library.
pub proof fn pages_end_with_the_library(start: int, total: int, page_size: int)
    requires
        0 <= start,
        0 <= total,
        0 < page_size,
    ensures
        0 <= page_len(start, total, page_size) <= page_size,
        start + page_size <= total ==> page_len(start, total, page_size) == page_size,
        start < total < start + page_size ==> start + page_len(start, total, page_size) == total,
        start >= total ==> page_len(start, total, page_size) == 0,
{
}

/// Rows are full but for the last one: there is room for all the tiles, and no
/// row is empty.
pub proof fn rows_hold_all_tiles(items: int, columns: int)
    requires
        0 < items,
        0 < columns,
    ensures
        items <= rows_for(items, columns) * columns < items + columns,
{
    let rows = rows_for(items, columns);
    assert(columns * rows + (items + columns - 1) % columns == items + columns - 1)
        by (nonlinear_arith)
        requires
            columns > 0,
            rows == (items + columns - 1) / columns,
    ;
    assert(0 <= (items + columns - 1) % columns < columns) by (nonlinear_arith)
        requires
            columns > 0,
    ;
    assert(rows * columns == columns * rows) by (nonlinear_arith);
}

/// The spacer is as high as the rows that it stands for: each row a tile and the
/// gap below it.
pub proof fn spacers_stand_for_whole_rows(rows: int, columns: int, pixel_size: int)
    requires
        0 <= rows,
        0 < columns,
        0 <= pixel_size,
        rows * (pixel_size + 2) <= i32::MAX,
    ensures
        spacer_height(rows * columns, columns, pixel_size) == rows * (pixel_size + 2),
{
    assert(rows * columns >= 0) by (nonlinear_arith)
        requires
            rows >= 0,
            columns > 0,
    ;
    if rows > 0 {
        assert(rows * columns > 0) by (nonlinear_arith)
            requires
                rows > 0,
                columns > 0,
        ;
        rows_hold_all_tiles(rows * columns, columns);
        let found = rows_for(rows * columns, columns);
        assert(found == rows) by (nonlinear_arith)
            requires
                rows * columns <= found * columns,
                found * columns < rows * columns + columns,
                columns > 0,
        ;
    } else {
        assert(rows * columns == 0 && rows * (pixel_size + 2) == 0) by (nonlinear_arith)
            requires
                rows == 0,
        ;
    }
}

} // verus!
