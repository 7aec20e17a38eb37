//! What every event keeps true of the media list.

use crate::apply_to_media_list::{
    applied, holds_uri, insert_capped, insert_each, insert_position, is_hit, latest_by_uri,
    lemma_insert_position, lemma_uri_position, merged_items, remove_runs, run_start, share_uri,
    sorted_by_media_order, texts, upsert_each, upsert_one, upserted, uri_position, uris_of, with_latest,
    without_uris, ChangeSource, DomainEvent,
};
use crate::media::{
    distinct_uris, in_media_order, media_order_is_total, precedes, same_place, MediaItem,
};
use crate::media_list::{recorded, splice_is_recorded, unchanged_is_recorded, ListState};
use vstd::prelude::*;

verus! {

// ---------------------------------------------------------------------------
// Single edits

proof fn lemma_insert_is(state: ListState, position: int, item: MediaItem)
    requires
        0 <= position <= state.items.len(),
    ensures
        state.insert(position, item).items == state.items.insert(position, item),
{
    assert(state.insert(position, item).items =~= state.items.insert(position, item));
}

proof fn lemma_remove_is(state: ListState, position: int)
    requires
        0 <= position < state.items.len(),
    ensures
        state.remove(position).items == state.items.remove(position),
{
    assert(state.remove(position).items =~= state.items.remove(position));
}

/// The items after a capped insertion, without the record.
pub open spec fn insert_capped_items(
    items: Seq<MediaItem>,
    position: int,
    item: MediaItem,
    cap: int,
) -> Seq<MediaItem> {
    if position >= cap {
        items
    } else if items.len() + 1 > cap {
        items.insert(position, item).drop_last()
    } else {
        items.insert(position, item)
    }
}

proof fn lemma_insert_capped_is(state: ListState, position: int, item: MediaItem, cap: int)
    requires
        0 <= position <= state.items.len(),
    ensures
        insert_capped(state, position, item, cap).items == insert_capped_items(
            state.items,
            position,
            item,
            cap,
        ),
{
    lemma_insert_is(state, position, item);
    let grown = state.insert(position, item);
    if position < cap && grown.items.len() > cap {
        lemma_remove_is(grown, grown.items.len() - 1);
        assert(grown.items.remove(grown.items.len() - 1) =~= grown.items.drop_last());
    }
}

// ---------------------------------------------------------------------------
// Photo order

proof fn lemma_insert_keeps_order(items: Seq<MediaItem>, item: MediaItem)
    requires
        in_media_order(items),
    ensures
        in_media_order(items.insert(insert_position(items, item), item)),
{
    lemma_insert_position(items, item);
    let p = insert_position(items, item);
    let grown = items.insert(p, item);
    assert forall|i: int, j: int| 0 <= i < j < grown.len() implies !precedes(
        #[trigger] grown[j],
        #[trigger] grown[i],
    ) by {
        if j < p {
            assert(grown[i] == items[i] && grown[j] == items[j]);
        } else if j == p {
            assert(grown[i] == items[i]);
        } else if i < p {
            assert(grown[i] == items[i] && grown[j] == items[j - 1]);
        } else if i == p {
            assert(grown[j] == items[j - 1]);
            if j - 1 > p {
                assert(!precedes(items[j - 1], items[p]));
                media_order_is_total(items[j - 1], items[p], item);
                media_order_is_total(item, items[p], items[j - 1]);
            } else {
                media_order_is_total(items[p], item, item);
            }
            media_order_is_total(items[j - 1], item, items[p]);
        } else {
            assert(grown[i] == items[i - 1] && grown[j] == items[j - 1]);
        }
    }
}

proof fn lemma_replace_keeps_order(items: Seq<MediaItem>, at: int, item: MediaItem)
    requires
        in_media_order(items),
        0 <= at < items.len(),
        same_place(item, items[at]),
    ensures
        in_media_order(items.remove(at).insert(at, item)),
{
    let next = items.remove(at).insert(at, item);
    assert(next =~= items.update(at, item));
    assert forall|i: int, j: int| 0 <= i < j < next.len() implies !precedes(
        #[trigger] next[j],
        #[trigger] next[i],
    ) by {
        assert(!precedes(items[j], items[i]));
    }
}

proof fn lemma_remove_keeps_order(items: Seq<MediaItem>, at: int)
    requires
        in_media_order(items),
        0 <= at < items.len(),
    ensures
        in_media_order(items.remove(at)),
{
    let next = items.remove(at);
    assert forall|i: int, j: int| 0 <= i < j < next.len() implies !precedes(
        #[trigger] next[j],
        #[trigger] next[i],
    ) by {
        let a = if i < at { i } else { i + 1 };
        let b = if j < at { j } else { j + 1 };
        assert(!precedes(items[b], items[a]));
    }
}

proof fn lemma_drop_last_keeps_order(items: Seq<MediaItem>)
    requires
        in_media_order(items),
        items.len() > 0,
    ensures
        in_media_order(items.drop_last()),
{
    lemma_remove_keeps_order(items, items.len() - 1);
    assert(items.remove(items.len() - 1) =~= items.drop_last());
}

proof fn lemma_sorted_is_ordered(items: Seq<MediaItem>)
    ensures
        in_media_order(sorted_by_media_order(items)),
    decreases items.len(),
{
    if items.len() > 0 {
        lemma_sorted_is_ordered(items.drop_last());
        lemma_insert_keeps_order(sorted_by_media_order(items.drop_last()), items.last());
    }
}

proof fn lemma_capped_keeps_order(items: Seq<MediaItem>, item: MediaItem, cap: int)
    requires
        in_media_order(items),
    ensures
        in_media_order(insert_capped_items(items, insert_position(items, item), item, cap)),
{
    lemma_insert_position(items, item);
    lemma_insert_keeps_order(items, item);
    if items.len() + 1 > cap {
        lemma_drop_last_keeps_order(items.insert(insert_position(items, item), item));
    }
}

proof fn lemma_insert_each_keeps_order(state: ListState, incoming: Seq<MediaItem>, cap: int)
    requires
        in_media_order(state.items),
    ensures
        in_media_order(insert_each(state, incoming, cap).items),
    decreases incoming.len(),
{
    if incoming.len() > 0 {
        lemma_insert_each_keeps_order(state, incoming.drop_last(), cap);
        let before = insert_each(state, incoming.drop_last(), cap);
        let item = incoming.last();
        lemma_insert_position(before.items, item);
        lemma_insert_capped_is(before, insert_position(before.items, item), item, cap);
        lemma_capped_keeps_order(before.items, item, cap);
    }
}

proof fn lemma_upsert_one_keeps_order(state: ListState, item: MediaItem, cap: int)
    requires
        in_media_order(state.items),
    ensures
        in_media_order(upsert_one(state, item, cap).items),
{
    lemma_uri_position(state.items, item.uri@);
    let at = uri_position(state.items, item.uri@);
    if at < state.items.len() {
        let without = state.remove(at);
        lemma_remove_is(state, at);
        lemma_remove_keeps_order(state.items, at);
        lemma_insert_position(without.items, item);
        if same_place(item, state.items[at]) {
            lemma_insert_capped_is(without, at, item, cap);
            lemma_replace_keeps_order(state.items, at, item);
            if at < cap && without.items.len() + 1 > cap {
                lemma_drop_last_keeps_order(without.items.insert(at, item));
            }
        } else {
            lemma_insert_capped_is(without, insert_position(without.items, item), item, cap);
            lemma_capped_keeps_order(without.items, item, cap);
        }
    } else {
        lemma_insert_position(state.items, item);
        lemma_insert_capped_is(state, insert_position(state.items, item), item, cap);
        lemma_capped_keeps_order(state.items, item, cap);
    }
}

proof fn lemma_upsert_each_keeps_order(state: ListState, incoming: Seq<MediaItem>, cap: int)
    requires
        in_media_order(state.items),
    ensures
        in_media_order(upsert_each(state, incoming, cap).items),
    decreases incoming.len(),
{
    if incoming.len() > 0 {
        lemma_upsert_each_keeps_order(state, incoming.drop_last(), cap);
        lemma_upsert_one_keeps_order(
            upsert_each(state, incoming.drop_last(), cap),
            incoming.last(),
            cap,
        );
    }
}

proof fn lemma_run_start(items: Seq<MediaItem>, uris: Seq<Seq<char>>, end: int)
    requires
        0 <= end,
    ensures
        0 <= run_start(items, uris, end) <= end,
        forall|k: int|
            run_start(items, uris, end) <= k < end ==> is_hit(uris, #[trigger] items[k]),
        run_start(items, uris, end) > 0 ==> !is_hit(uris, items[run_start(items, uris, end) - 1]),
    decreases end,
{
    if end > 0 && is_hit(uris, items[end - 1]) {
        lemma_run_start(items, uris, end - 1);
    }
}

/// Removing the runs in front of `end` leaves the items behind `end` alone and
/// keeps of the others exactly those that are no hits.
proof fn lemma_remove_runs(
    state: ListState,
    items: Seq<MediaItem>,
    uris: Seq<Seq<char>>,
    end: int,
)
    requires
        0 <= end <= items.len(),
        end <= state.items.len(),
        forall|k: int| 0 <= k < end ==> state.items[k] == #[trigger] items[k],
    ensures
        remove_runs(state, items, uris, end).items == items.subrange(0, end).filter(
            |item: MediaItem| !is_hit(uris, item),
        ) + state.items.subrange(end, state.items.len() as int),
    decreases end,
{
    let keep = |item: MediaItem| !is_hit(uris, item);
    let result = remove_runs(state, items, uris, end);
    if end == 0 {
        reveal(Seq::filter);
        assert(items.subrange(0, 0).filter(keep) =~= Seq::<MediaItem>::empty());
        assert(result.items =~= items.subrange(0, 0).filter(keep) + state.items.subrange(
            0,
            state.items.len() as int,
        ));
    } else if keep(items[end - 1]) {
        lemma_remove_runs(state, items, uris, end - 1);
        assert(items.subrange(0, end).drop_last() =~= items.subrange(0, end - 1));
        reveal(Seq::filter);
        assert(result.items =~= items.subrange(0, end).filter(keep) + state.items.subrange(
            end,
            state.items.len() as int,
        ));
    } else {
        lemma_run_start(items, uris, end);
        lemma_run_start(items, uris, end - 1);
        let start = run_start(items, uris, end);
        let next = state.splice(start, end - start, Seq::<MediaItem>::empty());
        lemma_remove_runs(next, items, uris, start);
        lemma_filter_drops_run(items, uris, start, end);
        assert(next.items.subrange(start, next.items.len() as int) =~= state.items.subrange(
            end,
            state.items.len() as int,
        ));
    }
}

proof fn lemma_filter_drops_run(
    items: Seq<MediaItem>,
    uris: Seq<Seq<char>>,
    start: int,
    end: int,
)
    requires
        0 <= start <= end <= items.len(),
        forall|k: int| start <= k < end ==> is_hit(uris, #[trigger] items[k]),
    ensures
        items.subrange(0, end).filter(|item: MediaItem| !is_hit(uris, item)) == items.subrange(
            0,
            start,
        ).filter(|item: MediaItem| !is_hit(uris, item)),
    decreases end - start,
{
    if start < end {
        lemma_filter_drops_run(items, uris, start, end - 1);
        assert(items.subrange(0, end).drop_last() =~= items.subrange(0, end - 1));
        reveal(Seq::filter);
    }
}

proof fn lemma_remove_runs_keeps_order(
    state: ListState,
    items: Seq<MediaItem>,
    uris: Seq<Seq<char>>,
    end: int,
)
    requires
        0 <= end <= state.items.len(),
        in_media_order(state.items),
    ensures
        in_media_order(remove_runs(state, items, uris, end).items),
        remove_runs(state, items, uris, end).items.len() <= state.items.len(),
    decreases end,
{
    if end > 0 {
        if !is_hit(uris, items[end - 1]) {
            lemma_remove_runs_keeps_order(state, items, uris, end - 1);
        } else {
            lemma_run_start(items, uris, end);
            lemma_run_start(items, uris, end - 1);
            let start = run_start(items, uris, end);
            let next = state.splice(start, end - start, Seq::<MediaItem>::empty());
            assert forall|i: int, j: int| 0 <= i < j < next.items.len() implies !precedes(
                #[trigger] next.items[j],
                #[trigger] next.items[i],
            ) by {
                let a = if i < start { i } else { i + (end - start) };
                let b = if j < start { j } else { j + (end - start) };
                assert(!precedes(state.items[b], state.items[a]));
            }
            lemma_remove_runs_keeps_order(next, items, uris, start);
        }
    }
}

/// Every event keeps the list in photo order.
pub proof fn events_keep_photo_order(state: ListState, event: DomainEvent, cap: int)
    requires
        in_media_order(state.items),
        cap >= 0,
    ensures
        in_media_order(applied(state, event, cap).items),
{
    match event {
        DomainEvent::MediaUpserted { source, items } => {
            lemma_upserted_keeps_order(state, source, items@, cap);
        },
        DomainEvent::MediaUpdated { source, items } => {
            lemma_upserted_keeps_order(state, ChangeSource::UserInteractive, items@, cap);
        },
        DomainEvent::MediaRemoved { source, ids, uris } => {
            lemma_remove_runs_keeps_order(
                state,
                state.items,
                crate::apply_to_media_list::texts(uris@),
                state.items.len() as int,
            );
        },
        DomainEvent::MediaMovedToTrash { source, items } => {
            lemma_remove_runs_keeps_order(
                state,
                state.items,
                crate::apply_to_media_list::uris_of(items@),
                state.items.len() as int,
            );
        },
        _ => {},
    }
}

proof fn lemma_upserted_keeps_order(
    state: ListState,
    source: ChangeSource,
    incoming: Seq<MediaItem>,
    cap: int,
)
    requires
        in_media_order(state.items),
        cap >= 0,
    ensures
        in_media_order(upserted(state, source, incoming, cap).items),
{
    lemma_insert_each_keeps_order(state, sorted_by_media_order(incoming), cap);
    lemma_upsert_each_keeps_order(state, sorted_by_media_order(incoming), cap);
    let merged = merged_items(state.items, incoming, cap);
    let all = sorted_by_media_order(latest_by_uri(state.items + incoming));
    lemma_sorted_is_ordered(latest_by_uri(state.items + incoming));
    assert(in_media_order(merged)) by {
        assert forall|i: int, j: int| 0 <= i < j < merged.len() implies !precedes(
            #[trigger] merged[j],
            #[trigger] merged[i],
        ) by {
            assert(!precedes(all[j], all[i]));
        }
    }
    assert(state.splice(0, state.items.len() as int, merged).items =~= merged);
}

// ---------------------------------------------------------------------------
// Removal

/// Removing uris keeps exactly the items whose uri is not among them, in their
/// order.
pub proof fn removal_keeps_the_rest_in_order(state: ListState, uris: Seq<Seq<char>>)
    ensures
        without_uris(state, uris).items == state.items.filter(
            |item: MediaItem| !is_hit(uris, item),
        ),
{
    lemma_remove_runs(state, state.items, uris, state.items.len() as int);
    assert(state.items.subrange(0, state.items.len() as int) =~= state.items);
    assert(without_uris(state, uris).items =~= state.items.filter(
        |item: MediaItem| !is_hit(uris, item),
    ));
}

proof fn lemma_no_hit_no_edit(
    state: ListState,
    items: Seq<MediaItem>,
    uris: Seq<Seq<char>>,
    end: int,
)
    requires
        0 <= end <= items.len(),
        forall|i: int| 0 <= i < end ==> !is_hit(uris, #[trigger] items[i]),
    ensures
        remove_runs(state, items, uris, end) == state,
    decreases end,
{
    if end > 0 {
        lemma_no_hit_no_edit(state, items, uris, end - 1);
    }
}

/// A removal that hits nothing changes nothing and records nothing.
pub proof fn removal_without_hits_is_silent(state: ListState, uris: Seq<Seq<char>>)
    requires
        forall|i: int| 0 <= i < state.items.len() ==> !is_hit(uris, #[trigger] state.items[i]),
    ensures
        without_uris(state, uris) == state,
{
    lemma_no_hit_no_edit(state, state.items, uris, state.items.len() as int);
}

/// A removal whose hits are one run of neighbours records one edit.
pub proof fn contiguous_removal_is_one_edit(
    state: ListState,
    uris: Seq<Seq<char>>,
    start: int,
    end: int,
)
    requires
        0 <= start < end <= state.items.len(),
        forall|i: int|
            0 <= i < state.items.len() ==> (is_hit(uris, #[trigger] state.items[i]) <==> start <= i
                < end),
    ensures
        without_uris(state, uris) == state.splice(start, end - start, Seq::<MediaItem>::empty()),
{
    let n = state.items.len() as int;
    lemma_skip_misses(state, state.items, uris, end, n);
    lemma_run_start(state.items, uris, end);
    let found = run_start(state.items, uris, end);
    if found < start {
        assert(is_hit(uris, state.items[found]));
    }
    if found > start {
        assert(is_hit(uris, state.items[found - 1]));
    }
    lemma_no_hit_no_edit(
        state.splice(start, end - start, Seq::<MediaItem>::empty()),
        state.items,
        uris,
        start,
    );
}

proof fn lemma_skip_misses(
    state: ListState,
    items: Seq<MediaItem>,
    uris: Seq<Seq<char>>,
    low: int,
    high: int,
)
    requires
        0 <= low <= high <= items.len(),
        forall|i: int| low <= i < high ==> !is_hit(uris, #[trigger] items[i]),
    ensures
        remove_runs(state, items, uris, high) == remove_runs(state, items, uris, low),
    decreases high - low,
{
    if low < high {
        lemma_skip_misses(state, items, uris, low, high - 1);
    }
}

// ---------------------------------------------------------------------------
// The cap

proof fn lemma_insert_each_len(state: ListState, incoming: Seq<MediaItem>, cap: int)
    requires
        state.items.len() <= cap,
    ensures
        insert_each(state, incoming, cap).items.len() <= cap,
        state.items.len() + incoming.len() <= cap ==> insert_each(state, incoming, cap).items.len()
            == state.items.len() + incoming.len(),
    decreases incoming.len(),
{
    if incoming.len() > 0 {
        lemma_insert_each_len(state, incoming.drop_last(), cap);
        let before = insert_each(state, incoming.drop_last(), cap);
        let item = incoming.last();
        lemma_insert_position(before.items, item);
        lemma_insert_capped_is(before, insert_position(before.items, item), item, cap);
    }
}

proof fn lemma_upsert_each_len(state: ListState, incoming: Seq<MediaItem>, cap: int)
    requires
        state.items.len() <= cap,
    ensures
        upsert_each(state, incoming, cap).items.len() <= cap,
    decreases incoming.len(),
{
    if incoming.len() > 0 {
        lemma_upsert_each_len(state, incoming.drop_last(), cap);
        let before = upsert_each(state, incoming.drop_last(), cap);
        lemma_upsert_one_len(before, incoming.last(), cap);
    }
}

proof fn lemma_upsert_one_len(state: ListState, item: MediaItem, cap: int)
    requires
        state.items.len() <= cap,
    ensures
        upsert_one(state, item, cap).items.len() <= cap,
        upsert_one(state, item, cap).items.len() <= state.items.len() + 1,
{
    lemma_uri_position(state.items, item.uri@);
    lemma_insert_position(state.items, item);
    let at = uri_position(state.items, item.uri@);
    if at < state.items.len() {
        let without = state.remove(at);
        lemma_remove_is(state, at);
        lemma_insert_position(without.items, item);
        lemma_insert_capped_is(without, at, item, cap);
        lemma_insert_capped_is(without, insert_position(without.items, item), item, cap);
    } else {
        lemma_insert_capped_is(state, insert_position(state.items, item), item, cap);
    }
}

/// No event takes the list over its cap.
pub proof fn events_keep_the_cap(state: ListState, event: DomainEvent, cap: int)
    requires
        state.items.len() <= cap,
    ensures
        applied(state, event, cap).items.len() <= cap,
{
    match event {
        DomainEvent::MediaUpserted { source, items } => {
            lemma_upserted_len(state, source, items@, cap);
        },
        DomainEvent::MediaUpdated { source, items } => {
            lemma_upserted_len(state, ChangeSource::UserInteractive, items@, cap);
        },
        DomainEvent::MediaRemoved { source, ids, uris } => {
            let hits = crate::apply_to_media_list::texts(uris@);
            removal_keeps_the_rest_in_order(state, hits);
            lemma_filter_len(state.items, hits);
        },
        DomainEvent::MediaMovedToTrash { source, items } => {
            let hits = crate::apply_to_media_list::uris_of(items@);
            removal_keeps_the_rest_in_order(state, hits);
            lemma_filter_len(state.items, hits);
        },
        _ => {},
    }
}

proof fn lemma_filter_len(items: Seq<MediaItem>, uris: Seq<Seq<char>>)
    ensures
        items.filter(|item: MediaItem| !is_hit(uris, item)).len() <= items.len(),
    decreases items.len(),
{
    reveal(Seq::filter);
    if items.len() > 0 {
        lemma_filter_len(items.drop_last(), uris);
    }
}

proof fn lemma_upserted_len(
    state: ListState,
    source: ChangeSource,
    incoming: Seq<MediaItem>,
    cap: int,
)
    requires
        state.items.len() <= cap,
    ensures
        upserted(state, source, incoming, cap).items.len() <= cap,
{
    lemma_insert_each_len(state, sorted_by_media_order(incoming), cap);
    lemma_upsert_each_len(state, sorted_by_media_order(incoming), cap);
    let merged = merged_items(state.items, incoming, cap);
    assert(state.splice(0, state.items.len() as int, merged).items =~= merged);
}

// ---------------------------------------------------------------------------
// The record

proof fn lemma_capped_is_recorded(
    base: ListState,
    state: ListState,
    position: int,
    item: MediaItem,
    cap: int,
)
    requires
        recorded(base, state),
    ensures
        recorded(base, insert_capped(state, position, item, cap)),
{
    splice_is_recorded(base, state, position, 0, seq![item]);
    let grown = state.insert(position, item);
    splice_is_recorded(base, grown, grown.items.len() - 1, 1, Seq::<MediaItem>::empty());
}

proof fn lemma_insert_each_is_recorded(state: ListState, incoming: Seq<MediaItem>, cap: int)
    ensures
        recorded(state, insert_each(state, incoming, cap)),
    decreases incoming.len(),
{
    if incoming.len() == 0 {
        unchanged_is_recorded(state);
    } else {
        lemma_insert_each_is_recorded(state, incoming.drop_last(), cap);
        let before = insert_each(state, incoming.drop_last(), cap);
        let item = incoming.last();
        lemma_capped_is_recorded(state, before, insert_position(before.items, item), item, cap);
    }
}

proof fn lemma_upsert_each_is_recorded(state: ListState, incoming: Seq<MediaItem>, cap: int)
    ensures
        recorded(state, upsert_each(state, incoming, cap)),
    decreases incoming.len(),
{
    if incoming.len() == 0 {
        unchanged_is_recorded(state);
    } else {
        lemma_upsert_each_is_recorded(state, incoming.drop_last(), cap);
        let before = upsert_each(state, incoming.drop_last(), cap);
        let item = incoming.last();
        let at = uri_position(before.items, item.uri@);
        let without = before.remove(at);
        splice_is_recorded(state, before, at, 1, Seq::<MediaItem>::empty());
        if at < before.items.len() {
            lemma_capped_is_recorded(state, without, at, item, cap);
            lemma_capped_is_recorded(
                state,
                without,
                insert_position(without.items, item),
                item,
                cap,
            );
        } else {
            lemma_capped_is_recorded(state, before, insert_position(before.items, item), item, cap);
        }
    }
}

proof fn lemma_remove_runs_is_recorded(
    base: ListState,
    state: ListState,
    items: Seq<MediaItem>,
    uris: Seq<Seq<char>>,
    end: int,
)
    requires
        recorded(base, state),
    ensures
        recorded(base, remove_runs(state, items, uris, end)),
    decreases end,
{
    if end > 0 {
        if !is_hit(uris, items[end - 1]) {
            lemma_remove_runs_is_recorded(base, state, items, uris, end - 1);
        } else {
            let start = run_start(items, uris, end);
            if 0 <= start < end {
                splice_is_recorded(base, state, start, end - start, Seq::<MediaItem>::empty());
                lemma_remove_runs_is_recorded(
                    base,
                    state.splice(start, end - start, Seq::<MediaItem>::empty()),
                    items,
                    uris,
                    start,
                );
            }
        }
    }
}

/// Whoever replays the edits that an event recorded on the list from before the
/// event arrives at the list after it.
pub proof fn events_are_recorded_exactly(state: ListState, event: DomainEvent, cap: int)
    ensures
        recorded(state, applied(state, event, cap)),
{
    unchanged_is_recorded(state);
    match event {
        DomainEvent::MediaUpserted { source, items } => {
            lemma_upserted_is_recorded(state, source, items@, cap);
        },
        DomainEvent::MediaUpdated { source, items } => {
            lemma_upserted_is_recorded(state, ChangeSource::UserInteractive, items@, cap);
        },
        DomainEvent::MediaRemoved { source, ids, uris } => {
            lemma_remove_runs_is_recorded(
                state,
                state,
                state.items,
                crate::apply_to_media_list::texts(uris@),
                state.items.len() as int,
            );
        },
        DomainEvent::MediaMovedToTrash { source, items } => {
            lemma_remove_runs_is_recorded(
                state,
                state,
                state.items,
                crate::apply_to_media_list::uris_of(items@),
                state.items.len() as int,
            );
        },
        _ => {},
    }
}

proof fn lemma_upserted_is_recorded(
    state: ListState,
    source: ChangeSource,
    incoming: Seq<MediaItem>,
    cap: int,
)
    ensures
        recorded(state, upserted(state, source, incoming, cap)),
{
    unchanged_is_recorded(state);
    lemma_insert_each_is_recorded(state, sorted_by_media_order(incoming), cap);
    lemma_upsert_each_is_recorded(state, sorted_by_media_order(incoming), cap);
    splice_is_recorded(
        state,
        state,
        0,
        state.items.len() as int,
        merged_items(state.items, incoming, cap),
    );
}

// ---------------------------------------------------------------------------
// Startup scans

/// A startup scan leaves a list that has reached its cap alone.
pub proof fn startup_scan_stops_at_the_cap(state: ListState, incoming: Seq<MediaItem>, cap: int)
    requires
        state.items.len() >= cap,
    ensures
        upserted(state, ChangeSource::StartupScan, incoming, cap) == state,
{
}

// ---------------------------------------------------------------------------
// Uris

proof fn lemma_sorted_has_the_items(items: Seq<MediaItem>)
    ensures
        sorted_by_media_order(items).len() == items.len(),
        forall|x: MediaItem|
            #[trigger] sorted_by_media_order(items).contains(x) <==> items.contains(x),
        distinct_uris(items) ==> distinct_uris(sorted_by_media_order(items)),
    decreases items.len(),
{
    if items.len() > 0 {
        let front = items.drop_last();
        let x = items.last();
        lemma_sorted_has_the_items(front);
        let sorted = sorted_by_media_order(front);
        lemma_insert_position(sorted, x);
        let p = insert_position(sorted, x);
        let grown = sorted.insert(p, x);
        lemma_insert_contains(sorted, p, x);
        assert forall|y: MediaItem| #[trigger] grown.contains(y) <==> items.contains(y) by {
            assert(items =~= front.push(x));
            if items.contains(y) && y != x {
                let k = choose|k: int| 0 <= k < items.len() && items[k] == y;
                assert(front[k] == y);
            }
            if front.contains(y) {
                let k = choose|k: int| 0 <= k < front.len() && front[k] == y;
                assert(items[k] == y);
            }
            assert(items[items.len() - 1] == x);
        }
        if distinct_uris(items) {
            assert(distinct_uris(front)) by {
                assert forall|i: int, j: int| 0 <= i < j < front.len() implies (
                #[trigger] front[i]).uri@ != (#[trigger] front[j]).uri@ by {
                    assert(items[i].uri@ != items[j].uri@);
                }
            }
            assert(!holds_uri(sorted, x.uri@)) by {
                if holds_uri(sorted, x.uri@) {
                    let k = choose|k: int|
                        0 <= k < sorted.len() && (#[trigger] sorted[k]).uri@ == x.uri@;
                    assert(sorted.contains(sorted[k]));
                    let m = choose|m: int| 0 <= m < front.len() && front[m] == sorted[k];
                    assert(items[m].uri@ != items[items.len() - 1].uri@);
                }
            }
            lemma_insert_distinct(sorted, p, x);
        }
    }
}

proof fn lemma_insert_contains(items: Seq<MediaItem>, p: int, x: MediaItem)
    requires
        0 <= p <= items.len(),
    ensures
        forall|y: MediaItem|
            #[trigger] items.insert(p, x).contains(y) <==> items.contains(y) || y == x,
{
    let grown = items.insert(p, x);
    assert forall|y: MediaItem| #[trigger] grown.contains(y) <==> items.contains(y) || y == x by {
        if grown.contains(y) {
            let k = choose|k: int| 0 <= k < grown.len() && grown[k] == y;
            if k < p {
                assert(items[k] == y);
            } else if k > p {
                assert(items[k - 1] == y);
            }
        }
        if items.contains(y) {
            let k = choose|k: int| 0 <= k < items.len() && items[k] == y;
            if k < p {
                assert(grown[k] == y);
            } else {
                assert(grown[k + 1] == y);
            }
        }
        assert(grown[p] == x);
    }
}

proof fn lemma_insert_distinct(items: Seq<MediaItem>, p: int, x: MediaItem)
    requires
        0 <= p <= items.len(),
        distinct_uris(items),
        !holds_uri(items, x.uri@),
    ensures
        distinct_uris(items.insert(p, x)),
{
    let grown = items.insert(p, x);
    assert forall|i: int, j: int| 0 <= i < j < grown.len() implies (#[trigger] grown[i]).uri@ != (
    #[trigger] grown[j]).uri@ by {
        let a = if i < p { i } else { i - 1 };
        let b = if j < p { j } else { j - 1 };
        if i == p {
            assert(grown[j] == items[b]);
        } else if j == p {
            assert(grown[i] == items[a]);
        } else {
            assert(grown[i] == items[a] && grown[j] == items[b]);
            assert(items[a].uri@ != items[b].uri@);
        }
    }
}

proof fn lemma_remove_uri(items: Seq<MediaItem>, at: int)
    requires
        0 <= at < items.len(),
        distinct_uris(items),
    ensures
        distinct_uris(items.remove(at)),
        !holds_uri(items.remove(at), items[at].uri@),
        forall|y: MediaItem|
            #[trigger] items.remove(at).contains(y) <==> items.contains(y) && y.uri@
                != items[at].uri@,
{
    let rest = items.remove(at);
    assert forall|i: int, j: int| 0 <= i < j < rest.len() implies (#[trigger] rest[i]).uri@ != (
    #[trigger] rest[j]).uri@ by {
        let a = if i < at { i } else { i + 1 };
        let b = if j < at { j } else { j + 1 };
        assert(items[a].uri@ != items[b].uri@);
    }
    assert forall|i: int| 0 <= i < rest.len() implies (#[trigger] rest[i]).uri@ != items[at].uri@ by {
        let a = if i < at { i } else { i + 1 };
        assert(rest[i] == items[a]);
        if a < at {
            assert(items[a].uri@ != items[at].uri@);
        } else {
            assert(items[at].uri@ != items[a].uri@);
        }
    }
    assert forall|y: MediaItem| #[trigger] rest.contains(y) <==> items.contains(y) && y.uri@
        != items[at].uri@ by {
        if rest.contains(y) {
            let k = choose|k: int| 0 <= k < rest.len() && rest[k] == y;
            assert(items[if k < at { k } else { k + 1 }] == y);
        }
        if items.contains(y) && y.uri@ != items[at].uri@ {
            let k = choose|k: int| 0 <= k < items.len() && items[k] == y;
            assert(rest[if k < at { k } else { k - 1 }] == y);
        }
    }
}

/// Capped insertion keeps uris distinct, and what it holds afterwards was there
/// before or is the new item. With room to spare nothing is lost.
proof fn lemma_capped_uris(items: Seq<MediaItem>, p: int, x: MediaItem, cap: int)
    requires
        0 <= p <= items.len(),
        distinct_uris(items),
        !holds_uri(items, x.uri@),
    ensures
        distinct_uris(insert_capped_items(items, p, x, cap)),
        forall|y: MediaItem|
            #[trigger] insert_capped_items(items, p, x, cap).contains(y) ==> items.contains(y) || y
                == x,
        items.len() < cap ==> forall|y: MediaItem|
            #[trigger] insert_capped_items(items, p, x, cap).contains(y) <==> items.contains(y) || y
                == x,
{
    lemma_insert_contains(items, p, x);
    lemma_insert_distinct(items, p, x);
    let grown = items.insert(p, x);
    let result = insert_capped_items(items, p, x, cap);
    if p < cap && items.len() + 1 > cap {
        assert forall|i: int, j: int| 0 <= i < j < result.len() implies (#[trigger] result[i]).uri@
            != (#[trigger] result[j]).uri@ by {
            assert(grown[i].uri@ != grown[j].uri@);
        }
        assert forall|y: MediaItem| #[trigger] result.contains(y) implies items.contains(y) || y
            == x by {
            let k = choose|k: int| 0 <= k < result.len() && result[k] == y;
            assert(grown[k] == y);
            assert(grown.contains(y));
        }
    }
}

/// What a batch of upserts should leave in the list: the incoming items, and
/// the old ones that none of them replaces.
pub open spec fn delivered(
    before: Seq<MediaItem>,
    incoming: Seq<MediaItem>,
    after: Seq<MediaItem>,
) -> bool {
    forall|x: MediaItem|
        #[trigger] after.contains(x) <==> incoming.contains(x) || before.contains(x) && !holds_uri(
            incoming,
            x.uri@,
        )
}

proof fn lemma_insert_each_uris(state: ListState, incoming: Seq<MediaItem>, cap: int)
    requires
        distinct_uris(state.items),
        distinct_uris(incoming),
        !share_uri(state.items, incoming),
    ensures
        distinct_uris(insert_each(state, incoming, cap).items),
        forall|y: MediaItem|
            #[trigger] insert_each(state, incoming, cap).items.contains(y) ==> state.items.contains(
                y,
            ) || incoming.contains(y),
        state.items.len() + incoming.len() <= cap ==> forall|y: MediaItem|
            #[trigger] insert_each(state, incoming, cap).items.contains(y) <==> state.items.contains(
                y,
            ) || incoming.contains(y),
    decreases incoming.len(),
{
    if incoming.len() > 0 {
        let front = incoming.drop_last();
        let x = incoming.last();
        assert(incoming[incoming.len() - 1] == x);
        assert forall|i: int, j: int| 0 <= i < j < front.len() implies (#[trigger] front[i]).uri@ != (
        #[trigger] front[j]).uri@ by {
            assert(incoming[i].uri@ != incoming[j].uri@);
        }
        assert(!share_uri(state.items, front)) by {
            if share_uri(state.items, front) {
                let k = choose|k: int|
                    0 <= k < front.len() && holds_uri(state.items, (#[trigger] front[k]).uri@);
                assert(holds_uri(state.items, incoming[k].uri@));
            }
        }
        lemma_insert_each_uris(state, front, cap);
        let before = insert_each(state, front, cap);
        assert(!holds_uri(before.items, x.uri@)) by {
            if holds_uri(before.items, x.uri@) {
                let k = choose|k: int|
                    0 <= k < before.items.len() && (#[trigger] before.items[k]).uri@ == x.uri@;
                let y = before.items[k];
                assert(before.items.contains(y));
                if state.items.contains(y) {
                    let m = choose|m: int| 0 <= m < state.items.len() && state.items[m] == y;
                    assert(state.items[m].uri@ == x.uri@);
                    assert(holds_uri(state.items, incoming[incoming.len() - 1].uri@));
                } else {
                    let m = choose|m: int| 0 <= m < front.len() && front[m] == y;
                    assert(incoming[m].uri@ != incoming[incoming.len() - 1].uri@);
                }
            }
        }
        lemma_insert_position(before.items, x);
        let p = insert_position(before.items, x);
        lemma_insert_capped_is(before, p, x, cap);
        lemma_capped_uris(before.items, p, x, cap);
        lemma_push_contains(front, x);
        assert(incoming =~= front.push(x));
        if state.items.len() + incoming.len() <= cap {
            lemma_insert_each_len(state, front, cap);
        }
    }
}

proof fn lemma_push_contains(items: Seq<MediaItem>, x: MediaItem)
    ensures
        forall|y: MediaItem| #[trigger] items.push(x).contains(y) <==> items.contains(y) || y == x,
{
    assert(items.push(x) =~= items.insert(items.len() as int, x));
    lemma_insert_contains(items, items.len() as int, x);
}

proof fn lemma_push_holds_uri(items: Seq<MediaItem>, x: MediaItem, uri: Seq<char>)
    ensures
        holds_uri(items.push(x), uri) <==> holds_uri(items, uri) || x.uri@ == uri,
{
    let grown = items.push(x);
    if holds_uri(items, uri) {
        let k = choose|k: int| 0 <= k < items.len() && (#[trigger] items[k]).uri@ == uri;
        assert(grown[k].uri@ == uri);
    }
    if x.uri@ == uri {
        assert(grown[items.len() as int].uri@ == uri);
    }
    if holds_uri(grown, uri) {
        let k = choose|k: int| 0 <= k < grown.len() && (#[trigger] grown[k]).uri@ == uri;
        if k < items.len() {
            assert(items[k].uri@ == uri);
        }
    }
}

proof fn lemma_upsert_one_uris(state: ListState, x: MediaItem, cap: int)
    requires
        distinct_uris(state.items),
    ensures
        distinct_uris(upsert_one(state, x, cap).items),
        state.items.len() < cap ==> forall|y: MediaItem|
            #[trigger] upsert_one(state, x, cap).items.contains(y) <==> y == x
                || state.items.contains(y) && y.uri@ != x.uri@,
{
    lemma_uri_position(state.items, x.uri@);
    let at = uri_position(state.items, x.uri@);
    if at < state.items.len() {
        let without = state.remove(at);
        lemma_remove_is(state, at);
        lemma_remove_uri(state.items, at);
        let p = if same_place(x, state.items[at]) {
            at
        } else {
            insert_position(without.items, x)
        };
        lemma_insert_position(without.items, x);
        lemma_insert_capped_is(without, p, x, cap);
        lemma_capped_uris(without.items, p, x, cap);
    } else {
        lemma_insert_position(state.items, x);
        let p = insert_position(state.items, x);
        assert(!holds_uri(state.items, x.uri@));
        lemma_insert_capped_is(state, p, x, cap);
        lemma_capped_uris(state.items, p, x, cap);
        assert forall|y: MediaItem| state.items.contains(y) implies y.uri@ != x.uri@ by {
            let k = choose|k: int| 0 <= k < state.items.len() && state.items[k] == y;
            assert(state.items[k].uri@ != x.uri@);
        }
    }
}

proof fn lemma_upsert_each_uris(state: ListState, incoming: Seq<MediaItem>, cap: int)
    requires
        distinct_uris(state.items),
    ensures
        distinct_uris(upsert_each(state, incoming, cap).items),
        distinct_uris(incoming) && state.items.len() + incoming.len() <= cap ==> delivered(
            state.items,
            incoming,
            upsert_each(state, incoming, cap).items,
        ),
        upsert_each(state, incoming, cap).items.len() <= state.items.len() + incoming.len() || cap
            < state.items.len() + incoming.len(),
    decreases incoming.len(),
{
    if incoming.len() > 0 {
        let front = incoming.drop_last();
        let x = incoming.last();
        lemma_upsert_each_uris(state, front, cap);
        let before = upsert_each(state, front, cap);
        let after = upsert_each(state, incoming, cap);
        lemma_upsert_one_uris(before, x, cap);
        assert(incoming =~= front.push(x));
        lemma_push_contains(front, x);
        if state.items.len() + incoming.len() <= cap {
            lemma_upsert_one_len(before, x, cap);
        }
        if distinct_uris(incoming) && state.items.len() + incoming.len() <= cap {
            assert forall|i: int, j: int| 0 <= i < j < front.len() implies (
            #[trigger] front[i]).uri@ != (#[trigger] front[j]).uri@ by {
                assert(incoming[i].uri@ != incoming[j].uri@);
            }
            assert forall|y: MediaItem| #[trigger] after.items.contains(y) <==> incoming.contains(y)
                || state.items.contains(y) && !holds_uri(incoming, y.uri@) by {
                lemma_push_holds_uri(front, x, y.uri@);
                assert(before.items.contains(y) <==> front.contains(y) || state.items.contains(y)
                    && !holds_uri(front, y.uri@));
                if front.contains(y) {
                    let k = choose|k: int| 0 <= k < front.len() && front[k] == y;
                    assert(incoming[k].uri@ != incoming[incoming.len() - 1].uri@);
                }
            }
        }
    }
}

proof fn lemma_latest_is_distinct(items: Seq<MediaItem>)
    ensures
        distinct_uris(latest_by_uri(items)),
    decreases items.len(),
{
    if items.len() > 0 {
        lemma_latest_is_distinct(items.drop_last());
        lemma_put_latest(latest_by_uri(items.drop_last()), items.last());
    }
}

proof fn lemma_put_latest(front: Seq<MediaItem>, x: MediaItem)
    requires
        distinct_uris(front),
    ensures
        distinct_uris(with_latest(front, x)),
        with_latest(front, x).len() <= front.len() + 1,
        forall|y: MediaItem|
            #[trigger] with_latest(front, x).contains(y) <==> y == x || front.contains(y) && y.uri@
                != x.uri@,
{
    lemma_uri_position(front, x.uri@);
    let at = uri_position(front, x.uri@);
    if at < front.len() {
        let next = front.update(at, x);
        lemma_remove_uri(front, at);
        assert(next =~= front.remove(at).insert(at, x));
        lemma_insert_contains(front.remove(at), at, x);
        lemma_insert_distinct(front.remove(at), at, x);
    } else {
        assert(!holds_uri(front, x.uri@));
        assert(front.push(x) =~= front.insert(front.len() as int, x));
        lemma_insert_contains(front, front.len() as int, x);
        lemma_insert_distinct(front, front.len() as int, x);
        assert forall|y: MediaItem| front.contains(y) implies y.uri@ != x.uri@ by {
            let k = choose|k: int| 0 <= k < front.len() && front[k] == y;
            assert(front[k].uri@ != x.uri@);
        }
    }
}

proof fn lemma_latest_of_distinct(items: Seq<MediaItem>)
    requires
        distinct_uris(items),
    ensures
        latest_by_uri(items) == items,
    decreases items.len(),
{
    if items.len() > 0 {
        let front = items.drop_last();
        assert forall|i: int, j: int| 0 <= i < j < front.len() implies (#[trigger] front[i]).uri@ != (
        #[trigger] front[j]).uri@ by {
            assert(items[i].uri@ != items[j].uri@);
        }
        lemma_latest_of_distinct(front);
        lemma_uri_position(front, items.last().uri@);
        let at = uri_position(front, items.last().uri@);
        if at < front.len() {
            assert(items[at].uri@ != items[items.len() - 1].uri@);
        }
        assert(front.push(items.last()) =~= items);
    }
}

proof fn lemma_latest_delivers(items: Seq<MediaItem>, incoming: Seq<MediaItem>)
    requires
        distinct_uris(items),
        distinct_uris(incoming),
    ensures
        delivered(items, incoming, latest_by_uri(items + incoming)),
        latest_by_uri(items + incoming).len() <= items.len() + incoming.len(),
    decreases incoming.len(),
{
    let all = items + incoming;
    if incoming.len() == 0 {
        assert(all =~= items);
        lemma_latest_of_distinct(items);
    } else {
        let front = incoming.drop_last();
        let x = incoming.last();
        assert forall|i: int, j: int| 0 <= i < j < front.len() implies (#[trigger] front[i]).uri@ != (
        #[trigger] front[j]).uri@ by {
            assert(incoming[i].uri@ != incoming[j].uri@);
        }
        lemma_latest_delivers(items, front);
        assert(all.drop_last() =~= items + front);
        assert(all.last() == x);
        lemma_latest_is_distinct(items + front);
        let before = latest_by_uri(items + front);
        let after = latest_by_uri(all);
        lemma_put_latest(before, x);
        assert(incoming =~= front.push(x));
        lemma_push_contains(front, x);
        assert forall|y: MediaItem| #[trigger] after.contains(y) <==> incoming.contains(y)
            || items.contains(y) && !holds_uri(incoming, y.uri@) by {
            lemma_push_holds_uri(front, x, y.uri@);
            assert(before.contains(y) <==> front.contains(y) || items.contains(y) && !holds_uri(
                front,
                y.uri@,
            ));
            if front.contains(y) {
                let k = choose|k: int| 0 <= k < front.len() && front[k] == y;
                assert(incoming[k].uri@ != incoming[incoming.len() - 1].uri@);
            }
        }
    }
}

/// Upserts keep the uris of the list distinct, as long as the batch itself does
/// not name a uri twice.
pub proof fn upserts_keep_uris_distinct(
    state: ListState,
    source: ChangeSource,
    incoming: Seq<MediaItem>,
    cap: int,
)
    requires
        cap >= 0,
        distinct_uris(state.items),
        distinct_uris(incoming),
    ensures
        distinct_uris(upserted(state, source, incoming, cap).items),
{
    let sorted = sorted_by_media_order(incoming);
    lemma_sorted_has_the_items(incoming);
    lemma_upsert_each_uris(state, sorted, cap);
    if !share_uri(state.items, incoming) {
        lemma_share_uri_sorted(state.items, incoming);
        lemma_insert_each_uris(state, sorted, cap);
    }
    let latest = latest_by_uri(state.items + incoming);
    lemma_latest_is_distinct(state.items + incoming);
    lemma_sorted_has_the_items(latest);
    let all = sorted_by_media_order(latest);
    let merged = merged_items(state.items, incoming, cap);
    assert forall|i: int, j: int| 0 <= i < j < merged.len() implies (#[trigger] merged[i]).uri@ != (
    #[trigger] merged[j]).uri@ by {
        assert(all[i].uri@ != all[j].uri@);
    }
    assert(state.splice(0, state.items.len() as int, merged).items =~= merged);
}

proof fn lemma_share_uri_sorted(items: Seq<MediaItem>, incoming: Seq<MediaItem>)
    requires
        !share_uri(items, incoming),
    ensures
        !share_uri(items, sorted_by_media_order(incoming)),
{
    let sorted = sorted_by_media_order(incoming);
    lemma_sorted_has_the_items(incoming);
    if share_uri(items, sorted) {
        let k = choose|k: int| 0 <= k < sorted.len() && holds_uri(items, (#[trigger] sorted[k]).uri@);
        assert(sorted.contains(sorted[k]));
        let m = choose|m: int| 0 <= m < incoming.len() && incoming[m] == sorted[k];
        assert(holds_uri(items, incoming[m].uri@));
    }
}

proof fn lemma_holds_uri_sorted(incoming: Seq<MediaItem>, uri: Seq<char>)
    ensures
        holds_uri(sorted_by_media_order(incoming), uri) <==> holds_uri(incoming, uri),
{
    let sorted = sorted_by_media_order(incoming);
    lemma_sorted_has_the_items(incoming);
    if holds_uri(sorted, uri) {
        let k = choose|k: int| 0 <= k < sorted.len() && (#[trigger] sorted[k]).uri@ == uri;
        assert(sorted.contains(sorted[k]));
        let m = choose|m: int| 0 <= m < incoming.len() && incoming[m] == sorted[k];
        assert(incoming[m].uri@ == uri);
    }
    if holds_uri(incoming, uri) {
        let k = choose|k: int| 0 <= k < incoming.len() && (#[trigger] incoming[k]).uri@ == uri;
        assert(incoming.contains(incoming[k]));
        assert(sorted.contains(incoming[k]));
        let m = choose|m: int| 0 <= m < sorted.len() && sorted[m] == incoming[k];
        assert(sorted[m].uri@ == uri);
    }
}

/// With room for the whole batch, an upsert of any source delivers every
/// incoming item, keeps every old item that none of them replaces, and holds
/// nothing else.
pub proof fn upserts_deliver_every_item(
    state: ListState,
    source: ChangeSource,
    incoming: Seq<MediaItem>,
    cap: int,
)
    requires
        distinct_uris(state.items),
        distinct_uris(incoming),
        state.items.len() + incoming.len() <= cap,
    ensures
        delivered(state.items, incoming, upserted(state, source, incoming, cap).items),
{
    let sorted = sorted_by_media_order(incoming);
    let after = upserted(state, source, incoming, cap).items;
    lemma_sorted_has_the_items(incoming);
    if incoming.len() == 0 {
    } else if !share_uri(state.items, incoming) {
        lemma_share_uri_sorted(state.items, incoming);
        lemma_insert_each_uris(state, sorted, cap);
        assert forall|x: MediaItem| #[trigger] after.contains(x) <==> incoming.contains(x)
            || state.items.contains(x) && !holds_uri(incoming, x.uri@) by {
            assert(sorted.contains(x) <==> incoming.contains(x));
            if state.items.contains(x) && holds_uri(incoming, x.uri@) {
                let k = choose|k: int|
                    0 <= k < incoming.len() && (#[trigger] incoming[k]).uri@ == x.uri@;
                let m = choose|m: int| 0 <= m < state.items.len() && state.items[m] == x;
                assert(state.items[m].uri@ == incoming[k].uri@);
                assert(holds_uri(state.items, incoming[k].uri@));
            }
        }
    } else if source != ChangeSource::StartupScan {
        lemma_upsert_each_uris(state, sorted, cap);
        assert forall|x: MediaItem| #[trigger] after.contains(x) <==> incoming.contains(x)
            || state.items.contains(x) && !holds_uri(incoming, x.uri@) by {
            assert(sorted.contains(x) <==> incoming.contains(x));
            lemma_holds_uri_sorted(incoming, x.uri@);
        }
    } else {
        let latest = latest_by_uri(state.items + incoming);
        lemma_latest_delivers(state.items, incoming);
        lemma_sorted_has_the_items(latest);
        let merged = merged_items(state.items, incoming, cap);
        assert(state.splice(0, state.items.len() as int, merged).items =~= merged);
        assert forall|x: MediaItem| #[trigger] after.contains(x) <==> incoming.contains(x)
            || state.items.contains(x) && !holds_uri(incoming, x.uri@) by {
            assert(sorted_by_media_order(latest).contains(x) <==> latest.contains(x));
        }
    }
}

/// An upsert of an item whose place in the order did not change replaces it
/// where it stands, by one removal and one insertion at its position.
pub proof fn upsert_in_place(state: ListState, at: int, item: MediaItem, cap: int)
    requires
        0 <= at < state.items.len() <= cap,
        distinct_uris(state.items),
        item.uri@ == state.items[at].uri@,
        same_place(item, state.items[at]),
    ensures
        upserted(state, ChangeSource::FilesystemWatcher, seq![item], cap) == state.remove(
            at,
        ).insert(at, item),
        state.remove(at).insert(at, item).items == state.items.update(at, item),
{
    let one = seq![item];
    reveal_with_fuel(sorted_by_media_order, 2);
    reveal_with_fuel(upsert_each, 2);
    reveal_with_fuel(insert_position, 2);
    assert(one.drop_last() =~= Seq::<MediaItem>::empty());
    assert(sorted_by_media_order(one) =~= one);
    assert(one[0] == item);
    assert(holds_uri(state.items, one[0].uri@));
    assert(share_uri(state.items, one));
    lemma_uri_position(state.items, item.uri@);
    let found = uri_position(state.items, item.uri@);
    if found < at {
        assert(state.items[found].uri@ != state.items[at].uri@);
    }
    assert(found == at);
    lemma_remove_is(state, at);
    lemma_insert_is(state.remove(at), at, item);
    assert(state.remove(at).insert(at, item).items =~= state.items.update(at, item));
}

/// The position of an item that a list with distinct uris holds.
proof fn lemma_held_position(items: Seq<MediaItem>, x: MediaItem)
    requires
        distinct_uris(items),
        items.contains(x),
    ensures
        0 <= uri_position(items, x.uri@) < items.len(),
        items[uri_position(items, x.uri@)] == x,
{
    let k = choose|k: int| 0 <= k < items.len() && items[k] == x;
    lemma_uri_position(items, x.uri@);
    let at = uri_position(items, x.uri@);
    assert(at <= k);
    if at < k {
        assert(items[at].uri@ != items[k].uri@);
    }
}

/// Will an upsert of `x` leave the list as it is? It holds `x` already, or `x`
/// comes behind the cap.
spec fn is_settled(items: Seq<MediaItem>, x: MediaItem, cap: int) -> bool {
    ||| items.contains(x)
    ||| !holds_uri(items, x.uri@) && insert_position(items, x) >= cap
}

proof fn lemma_upsert_each_settled(state: ListState, incoming: Seq<MediaItem>, cap: int)
    requires
        distinct_uris(state.items),
        state.items.len() <= cap,
        forall|k: int|
            0 <= k < incoming.len() ==> is_settled(state.items, #[trigger] incoming[k], cap),
    ensures
        upsert_each(state, incoming, cap).items == state.items,
    decreases incoming.len(),
{
    if incoming.len() > 0 {
        let front = incoming.drop_last();
        let x = incoming.last();
        assert forall|k: int| 0 <= k < front.len() implies is_settled(
            state.items,
            #[trigger] front[k],
            cap,
        ) by {
            assert(is_settled(state.items, incoming[k], cap));
        }
        lemma_upsert_each_settled(state, front, cap);
        let before = upsert_each(state, front, cap);
        assert(is_settled(state.items, incoming[incoming.len() - 1], cap));
        if state.items.contains(x) {
            lemma_held_position(before.items, x);
            let at = uri_position(before.items, x.uri@);
            lemma_remove_is(before, at);
            lemma_insert_capped_is(before.remove(at), at, x, cap);
            assert(before.items.remove(at).insert(at, x) =~= before.items);
        } else {
            lemma_uri_position(before.items, x.uri@);
        }
    }
}

proof fn lemma_insert_each_settled(state: ListState, incoming: Seq<MediaItem>, cap: int)
    requires
        forall|k: int|
            0 <= k < incoming.len() ==> insert_position(state.items, #[trigger] incoming[k]) >= cap,
    ensures
        insert_each(state, incoming, cap).items == state.items,
    decreases incoming.len(),
{
    if incoming.len() > 0 {
        let front = incoming.drop_last();
        assert forall|k: int| 0 <= k < front.len() implies insert_position(
            state.items,
            #[trigger] front[k],
        ) >= cap by {
            assert(insert_position(state.items, incoming[k]) >= cap);
        }
        lemma_insert_each_settled(state, front, cap);
        assert(insert_position(state.items, incoming[incoming.len() - 1]) >= cap);
    }
}

/// An item that is settled stays so when a new one comes in.
proof fn lemma_stays_settled(items: Seq<MediaItem>, x: MediaItem, y: MediaItem, cap: int)
    requires
        in_media_order(items),
        distinct_uris(items),
        items.len() <= cap,
        !holds_uri(items, x.uri@),
        y.uri@ != x.uri@,
        is_settled(items, y, cap),
    ensures
        is_settled(insert_capped_items(items, insert_position(items, x), x, cap), y, cap),
{
    lemma_insert_position(items, x);
    let p = insert_position(items, x);
    let grown = items.insert(p, x);
    let after = insert_capped_items(items, p, x, cap);
    lemma_insert_contains(items, p, x);
    lemma_insert_distinct(items, p, x);
    lemma_insert_keeps_order(items, x);
    lemma_insert_position(items, y);
    lemma_insert_position(after, y);
    if p < cap && items.len() + 1 > cap {
        let q = insert_position(after, y);
        if items.contains(y) && y != grown.last() {
            let k = choose|k: int| 0 <= k < grown.len() && grown[k] == y;
            assert(grown.contains(y));
            assert(after[k] == y);
        } else if items.contains(y) {
            assert forall|i: int| 0 <= i < after.len() implies (#[trigger] after[i]).uri@
                != y.uri@ by {
                assert(grown[i].uri@ != grown[grown.len() - 1].uri@);
            }
            if q < after.len() {
                assert(!precedes(grown[grown.len() - 1], grown[q]));
                assert(after[q] == grown[q]);
            }
        } else {
            assert forall|i: int| 0 <= i < after.len() implies (#[trigger] after[i]).uri@
                != y.uri@ by {
                assert(after[i] == grown[i]);
                if i < p {
                    assert(grown[i] == items[i]);
                } else if i > p {
                    assert(grown[i] == items[i - 1]);
                }
            }
            if q < after.len() {
                assert(after[q] == grown[q]);
                assert(!precedes(y, items[p]));
                if q < p {
                    assert(!precedes(y, items[q]));
                } else if q > p {
                    assert(!precedes(y, items[q - 1]));
                } else {
                    media_order_is_total(y, x, items[p]);
                }
            }
        }
    }
}

/// New items that were inserted are settled.
proof fn lemma_insert_each_settles(state: ListState, incoming: Seq<MediaItem>, cap: int)
    requires
        in_media_order(state.items),
        distinct_uris(state.items),
        distinct_uris(incoming),
        !share_uri(state.items, incoming),
        state.items.len() <= cap,
    ensures
        forall|k: int|
            0 <= k < incoming.len() ==> is_settled(
                insert_each(state, incoming, cap).items,
                #[trigger] incoming[k],
                cap,
            ),
    decreases incoming.len(),
{
    if incoming.len() > 0 {
        let front = incoming.drop_last();
        let x = incoming.last();
        assert forall|i: int, j: int| 0 <= i < j < front.len() implies (#[trigger] front[i]).uri@ != (
        #[trigger] front[j]).uri@ by {
            assert(incoming[i].uri@ != incoming[j].uri@);
        }
        assert(!share_uri(state.items, front)) by {
            if share_uri(state.items, front) {
                let k = choose|k: int|
                    0 <= k < front.len() && holds_uri(state.items, (#[trigger] front[k]).uri@);
                assert(holds_uri(state.items, incoming[k].uri@));
            }
        }
        lemma_insert_each_settles(state, front, cap);
        lemma_insert_each_uris(state, front, cap);
        lemma_insert_each_keeps_order(state, front, cap);
        lemma_insert_each_len(state, front, cap);
        let before = insert_each(state, front, cap).items;
        assert(!holds_uri(before, x.uri@)) by {
            if holds_uri(before, x.uri@) {
                let k = choose|k: int|
                    0 <= k < before.len() && (#[trigger] before[k]).uri@ == x.uri@;
                let y = before[k];
                assert(before.contains(y));
                if state.items.contains(y) {
                    let m = choose|m: int| 0 <= m < state.items.len() && state.items[m] == y;
                    assert(state.items[m].uri@ == x.uri@);
                    assert(holds_uri(state.items, incoming[incoming.len() - 1].uri@));
                } else {
                    let m = choose|m: int| 0 <= m < front.len() && front[m] == y;
                    assert(incoming[m].uri@ != incoming[incoming.len() - 1].uri@);
                }
            }
        }
        lemma_insert_position(before, x);
        let p = insert_position(before, x);
        lemma_insert_capped_is(insert_each(state, front, cap), p, x, cap);
        let after = insert_capped_items(before, p, x, cap);
        assert forall|k: int| 0 <= k < incoming.len() implies is_settled(
            after,
            #[trigger] incoming[k],
            cap,
        ) by {
            if k < front.len() {
                assert(is_settled(before, front[k], cap));
                assert(incoming[k].uri@ != incoming[incoming.len() - 1].uri@);
                lemma_stays_settled(before, x, front[k], cap);
            } else if p < cap {
                assert(after[p] == x);
            }
        }
    }
}

proof fn lemma_latest_held(items: Seq<MediaItem>, incoming: Seq<MediaItem>)
    requires
        distinct_uris(items),
        forall|k: int| 0 <= k < incoming.len() ==> items.contains(#[trigger] incoming[k]),
    ensures
        latest_by_uri(items + incoming) == items,
    decreases incoming.len(),
{
    let all = items + incoming;
    if incoming.len() == 0 {
        assert(all =~= items);
        lemma_latest_of_distinct(items);
    } else {
        let front = incoming.drop_last();
        let x = incoming.last();
        assert forall|k: int| 0 <= k < front.len() implies items.contains(#[trigger] front[k]) by {
            assert(items.contains(incoming[k]));
        }
        lemma_latest_held(items, front);
        assert(all.drop_last() =~= items + front);
        assert(all.last() == x);
        assert(items.contains(incoming[incoming.len() - 1]));
        lemma_held_position(items, x);
        assert(items.update(uri_position(items, x.uri@), x) =~= items);
    }
}

proof fn lemma_ordered_is_sorted(items: Seq<MediaItem>)
    requires
        in_media_order(items),
    ensures
        sorted_by_media_order(items) == items,
    decreases items.len(),
{
    if items.len() > 0 {
        let front = items.drop_last();
        assert forall|i: int, j: int| 0 <= i < j < front.len() implies !precedes(
            #[trigger] front[j],
            #[trigger] front[i],
        ) by {
            assert(!precedes(items[j], items[i]));
        }
        lemma_ordered_is_sorted(front);
        lemma_insert_position(front, items.last());
        let p = insert_position(front, items.last());
        if p < front.len() {
            assert(!precedes(items[items.len() - 1], items[p]));
        }
        assert(front.insert(p, items.last()) =~= items);
    }
}

/// After a batch every one of its items is settled. Where it replaces photos, it
/// must have come in completely, or have left the list short of the cap.
proof fn lemma_upserted_settles(
    state: ListState,
    source: ChangeSource,
    incoming: Seq<MediaItem>,
    cap: int,
)
    requires
        in_media_order(state.items),
        distinct_uris(state.items),
        distinct_uris(incoming),
        state.items.len() <= cap,
        source == ChangeSource::StartupScan ==> upserted(state, source, incoming, cap).items.len()
            < cap,
        ({
            ||| source == ChangeSource::StartupScan
            ||| !share_uri(state.items, incoming)
            ||| forall|k: int|
                0 <= k < incoming.len() ==> upserted(
                    state,
                    source,
                    incoming,
                    cap,
                ).items.contains(#[trigger] incoming[k])
        }),
    ensures
        forall|k: int|
            0 <= k < incoming.len() ==> is_settled(
                upserted(state, source, incoming, cap).items,
                #[trigger] incoming[k],
                cap,
            ),
{
    let once = upserted(state, source, incoming, cap);
    let sorted = sorted_by_media_order(incoming);
    lemma_sorted_has_the_items(incoming);
    if incoming.len() > 0 {
        if !share_uri(state.items, incoming) {
            lemma_share_uri_sorted(state.items, incoming);
            lemma_insert_each_settles(state, sorted, cap);
            assert forall|k: int| 0 <= k < incoming.len() implies is_settled(
                once.items,
                #[trigger] incoming[k],
                cap,
            ) by {
                assert(incoming.contains(incoming[k]));
                assert(sorted.contains(incoming[k]));
                let m = choose|m: int| 0 <= m < sorted.len() && sorted[m] == incoming[k];
                assert(is_settled(once.items, sorted[m], cap));
            }
        } else if source == ChangeSource::StartupScan {
            let latest = latest_by_uri(state.items + incoming);
            lemma_latest_delivers(state.items, incoming);
            lemma_sorted_has_the_items(latest);
            let merged = merged_items(state.items, incoming, cap);
            assert(state.splice(0, state.items.len() as int, merged).items =~= merged);
            assert forall|k: int| 0 <= k < incoming.len() implies is_settled(
                once.items,
                #[trigger] incoming[k],
                cap,
            ) by {
                assert(incoming.contains(incoming[k]));
                assert(latest.contains(incoming[k]));
                assert(sorted_by_media_order(latest).contains(incoming[k]));
            }
        }
    }
}

/// Applying the same upserts once more leaves the same items in the same order,
/// whether all, some or none of the batch is below the cap. Only where a batch
/// replaces photos outside a startup scan, it must have come in completely.
pub proof fn repeated_upserts_change_nothing(
    state: ListState,
    source: ChangeSource,
    incoming: Seq<MediaItem>,
    cap: int,
)
    requires
        in_media_order(state.items),
        distinct_uris(state.items),
        distinct_uris(incoming),
        state.items.len() <= cap,
        ({
            ||| source == ChangeSource::StartupScan
            ||| !share_uri(state.items, incoming)
            ||| forall|k: int|
                0 <= k < incoming.len() ==> upserted(
                    state,
                    source,
                    incoming,
                    cap,
                ).items.contains(#[trigger] incoming[k])
        }),
    ensures
        upserted(upserted(state, source, incoming, cap), source, incoming, cap).items == upserted(
            state,
            source,
            incoming,
            cap,
        ).items,
{
    let once = upserted(state, source, incoming, cap);
    let sorted = sorted_by_media_order(incoming);
    if incoming.len() > 0 && !(source == ChangeSource::StartupScan && once.items.len() >= cap) {
        upserts_keep_uris_distinct(state, source, incoming, cap);
        lemma_upserted_keeps_order(state, source, incoming, cap);
        lemma_sorted_has_the_items(incoming);
        lemma_upserted_settles(state, source, incoming, cap);
        assert forall|k: int| 0 <= k < sorted.len() implies is_settled(
            once.items,
            #[trigger] sorted[k],
            cap,
        ) by {
            assert(sorted.contains(sorted[k]));
            let m = choose|m: int| 0 <= m < incoming.len() && incoming[m] == sorted[k];
            assert(is_settled(once.items, incoming[m], cap));
        }
        lemma_upserted_len(state, source, incoming, cap);
        lemma_upsert_each_settled(once, sorted, cap);
        if !share_uri(once.items, incoming) {
            lemma_share_uri_sorted(once.items, incoming);
            assert forall|k: int| 0 <= k < sorted.len() implies insert_position(
                once.items,
                #[trigger] sorted[k],
            ) >= cap by {
                assert(is_settled(once.items, sorted[k], cap));
                if once.items.contains(sorted[k]) {
                    let m = choose|m: int|
                        0 <= m < once.items.len() && once.items[m] == sorted[k];
                    assert(once.items[m].uri@ == sorted[k].uri@);
                    assert(holds_uri(once.items, sorted[k].uri@));
                }
            }
            lemma_insert_each_settled(once, sorted, cap);
        } else if source == ChangeSource::StartupScan {
            assert forall|k: int| 0 <= k < incoming.len() implies once.items.contains(
                #[trigger] incoming[k],
            ) by {
                assert(is_settled(once.items, incoming[k], cap));
                lemma_insert_position(once.items, incoming[k]);
            }
            lemma_latest_held(once.items, incoming);
            lemma_ordered_is_sorted(once.items);
            assert(once.splice(0, once.items.len() as int, once.items).items =~= once.items);
        }
    }
}

// ---------------------------------------------------------------------------
// The newest photos

/// Is `x` one of the photos that a list and a batch offer: one of the batch, or
/// an old one that the batch does not replace?
pub open spec fn offered(before: Seq<MediaItem>, incoming: Seq<MediaItem>, x: MediaItem) -> bool {
    incoming.contains(x) || before.contains(x) && !holds_uri(incoming, x.uri@)
}

/// Does `after` hold the first `cap` of the offered photos, in photo order? It
/// holds none that is not offered; and where it leaves one out, it is full and
/// none of its photos is behind the one left out.
pub open spec fn holds_the_newest(
    before: Seq<MediaItem>,
    incoming: Seq<MediaItem>,
    after: Seq<MediaItem>,
    cap: int,
) -> bool {
    &&& after.len() <= cap
    &&& in_media_order(after)
    &&& forall|x: MediaItem| #[trigger] after.contains(x) ==> offered(before, incoming, x)
    &&& forall|x: MediaItem, k: int|
        #![trigger after.contains(x), after[k]]
        offered(before, incoming, x) && !after.contains(x) && 0 <= k < after.len() ==> !precedes(
            x,
            after[k],
        )
    &&& forall|x: MediaItem|
        offered(before, incoming, x) && !(#[trigger] after.contains(x)) ==> after.len() == cap
}

/// Does no photo of the batch fall behind the place of the photo it replaces?
pub open spec fn moves_none_back(before: Seq<MediaItem>, incoming: Seq<MediaItem>) -> bool {
    forall|i: int, j: int|
        #![trigger before[i], incoming[j]]
        0 <= i < before.len() && 0 <= j < incoming.len() && before[i].uri@ == incoming[j].uri@
            ==> !precedes(before[i], incoming[j])
}

proof fn lemma_new_photo_keeps_newest(
    before: Seq<MediaItem>,
    front: Seq<MediaItem>,
    now: Seq<MediaItem>,
    x: MediaItem,
    cap: int,
)
    requires
        distinct_uris(now),
        distinct_uris(front.push(x)),
        holds_the_newest(before, front, now, cap),
        !holds_uri(now, x.uri@),
        cap >= 0,
    ensures
        holds_the_newest(
            before,
            front.push(x),
            insert_capped_items(now, insert_position(now, x), x, cap),
            cap,
        ),
{
    let incoming = front.push(x);
    lemma_insert_position(now, x);
    let p = insert_position(now, x);
    let grown = now.insert(p, x);
    let after = insert_capped_items(now, p, x, cap);
    lemma_insert_contains(now, p, x);
    lemma_insert_keeps_order(now, x);
    lemma_capped_keeps_order(now, x, cap);
    lemma_push_contains(front, x);
    assert forall|y: MediaItem| offered(before, incoming, y) && y != x implies offered(
        before,
        front,
        y,
    ) by {
        lemma_push_holds_uri(front, x, y.uri@);
    }
    assert forall|y: MediaItem| #[trigger] after.contains(y) implies offered(
        before,
        incoming,
        y,
    ) by {
        let k = choose|k: int| 0 <= k < after.len() && after[k] == y;
        if p < cap {
            assert(grown[k] == y);
            assert(grown.contains(y));
        }
        if y != x {
            assert(now.contains(y));
            lemma_push_holds_uri(front, x, y.uri@);
            let m = choose|m: int| 0 <= m < now.len() && now[m] == y;
            assert(now[m].uri@ != x.uri@);
        }
    }
    assert forall|y: MediaItem, k: int|
        #![trigger after.contains(y), after[k]]
        offered(before, incoming, y) && !after.contains(y) && 0 <= k < after.len() implies !precedes(
        y,
        after[k],
    ) && after.len() == cap by {
        if p >= cap {
            if y == x {
                assert(!precedes(x, now[k]));
            } else {
                assert(!now.contains(y));
            }
        } else if now.len() + 1 > cap {
            assert(after[k] == grown[k]);
            if grown.contains(y) {
                let m = choose|m: int| 0 <= m < grown.len() && grown[m] == y;
                if m < after.len() {
                    assert(after[m] == y);
                }
                assert(m == grown.len() - 1);
                assert(!precedes(grown[m], grown[k]));
            } else {
                assert(!now.contains(y));
                assert(y != x);
                assert(!precedes(y, now[p]));
                if k < p {
                    assert(grown[k] == now[k]);
                } else if k > p {
                    assert(grown[k] == now[k - 1]);
                } else {
                    media_order_is_total(y, x, now[p]);
                }
            }
        } else {
            assert(!now.contains(y));
        }
    }
    assert forall|y: MediaItem|
        offered(before, incoming, y) && !(#[trigger] after.contains(y)) implies after.len() == cap by {
        if after.len() > 0 {
            assert(!precedes(y, after[0]));
        } else if p < cap {
            assert(grown.len() >= 1);
        }
    }
}

proof fn lemma_replaced_photo_keeps_newest(
    before: Seq<MediaItem>,
    front: Seq<MediaItem>,
    now: Seq<MediaItem>,
    x: MediaItem,
    at: int,
    p: int,
    cap: int,
)
    requires
        distinct_uris(now),
        distinct_uris(front.push(x)),
        holds_the_newest(before, front, now, cap),
        0 <= at < now.len(),
        now[at].uri@ == x.uri@,
        !precedes(now[at], x),
        0 <= p < now.len(),
        in_media_order(now.remove(at).insert(p, x)),
    ensures
        holds_the_newest(before, front.push(x), now.remove(at).insert(p, x), cap),
{
    let incoming = front.push(x);
    let rest = now.remove(at);
    let after = rest.insert(p, x);
    lemma_remove_uri(now, at);
    lemma_insert_contains(rest, p, x);
    lemma_push_contains(front, x);
    assert forall|y: MediaItem| #[trigger] after.contains(y) implies offered(
        before,
        incoming,
        y,
    ) by {
        if y != x {
            assert(rest.contains(y));
            assert(now.contains(y));
            lemma_push_holds_uri(front, x, y.uri@);
        }
    }
    assert forall|y: MediaItem|
        offered(before, incoming, y) && !(#[trigger] after.contains(y)) implies !now.contains(y)
        && offered(before, front, y) by {
        lemma_push_holds_uri(front, x, y.uri@);
        assert(y != x);
        if now.contains(y) {
            assert(!rest.contains(y));
            assert(y.uri@ == x.uri@);
            if front.contains(y) {
                let m = choose|m: int| 0 <= m < front.len() && front[m] == y;
                assert(incoming[m].uri@ != incoming[front.len() as int].uri@);
            }
        }
    }
    assert forall|y: MediaItem, k: int|
        #![trigger after.contains(y), after[k]]
        offered(before, incoming, y) && !after.contains(y) && 0 <= k < after.len() implies !precedes(
        y,
        after[k],
    ) by {
        assert(!now.contains(y));
        if k == p {
            assert(!precedes(y, now[at]));
            media_order_is_total(y, now[at], x);
        } else {
            let r = if k < p { k } else { k - 1 };
            let n = if r < at { r } else { r + 1 };
            assert(after[k] == rest[r]);
            assert(rest[r] == now[n]);
        }
    }
}

proof fn lemma_upsert_each_newest(state: ListState, incoming: Seq<MediaItem>, cap: int)
    requires
        in_media_order(state.items),
        distinct_uris(state.items),
        distinct_uris(incoming),
        state.items.len() <= cap,
        moves_none_back(state.items, incoming),
    ensures
        holds_the_newest(
            state.items,
            incoming,
            upsert_each(state, incoming, cap).items,
            cap,
        ),
    decreases incoming.len(),
{
    if incoming.len() > 0 {
        let front = incoming.drop_last();
        let x = incoming.last();
        assert(incoming =~= front.push(x));
        assert forall|i: int, j: int| 0 <= i < j < front.len() implies (#[trigger] front[i]).uri@ != (
        #[trigger] front[j]).uri@ by {
            assert(incoming[i].uri@ != incoming[j].uri@);
        }
        assert forall|i: int, j: int|
            #![trigger state.items[i], front[j]]
            0 <= i < state.items.len() && 0 <= j < front.len() && state.items[i].uri@
                == front[j].uri@ implies !precedes(state.items[i], front[j]) by {
            assert(!precedes(state.items[i], incoming[j]));
        }
        lemma_upsert_each_newest(state, front, cap);
        lemma_upsert_each_uris(state, front, cap);
        lemma_upsert_each_len(state, front, cap);
        let before = upsert_each(state, front, cap);
        let now = before.items;
        lemma_uri_position(now, x.uri@);
        let at = uri_position(now, x.uri@);
        if at < now.len() {
            let z = now[at];
            assert(now.contains(z));
            if front.contains(z) {
                let m = choose|m: int| 0 <= m < front.len() && front[m] == z;
                assert(incoming[m].uri@ != incoming[front.len() as int].uri@);
            }
            let m = choose|m: int| 0 <= m < state.items.len() && state.items[m] == z;
            assert(!precedes(state.items[m], incoming[front.len() as int]));
            let without = before.remove(at);
            lemma_remove_is(before, at);
            lemma_insert_position(without.items, x);
            let p = if same_place(x, z) { at } else { insert_position(without.items, x) };
            lemma_insert_capped_is(without, p, x, cap);
            lemma_upsert_one_keeps_order(before, x, cap);
            lemma_replaced_photo_keeps_newest(state.items, front, now, x, at, p, cap);
        } else {
            assert(!holds_uri(now, x.uri@));
            lemma_insert_position(now, x);
            lemma_insert_capped_is(before, insert_position(now, x), x, cap);
            lemma_new_photo_keeps_newest(state.items, front, now, x, cap);
        }
    } else {
        assert forall|x: MediaItem| state.items.contains(x) implies offered(
            state.items,
            incoming,
            x,
        ) by {
            assert(!holds_uri(incoming, x.uri@));
        }
    }
}

proof fn lemma_new_photos_are_upserted(state: ListState, incoming: Seq<MediaItem>, cap: int)
    requires
        distinct_uris(state.items),
        distinct_uris(incoming),
        !share_uri(state.items, incoming),
    ensures
        insert_each(state, incoming, cap) == upsert_each(state, incoming, cap),
    decreases incoming.len(),
{
    if incoming.len() > 0 {
        let front = incoming.drop_last();
        let x = incoming.last();
        assert forall|i: int, j: int| 0 <= i < j < front.len() implies (#[trigger] front[i]).uri@ != (
        #[trigger] front[j]).uri@ by {
            assert(incoming[i].uri@ != incoming[j].uri@);
        }
        assert(!share_uri(state.items, front)) by {
            if share_uri(state.items, front) {
                let k = choose|k: int|
                    0 <= k < front.len() && holds_uri(state.items, (#[trigger] front[k]).uri@);
                assert(holds_uri(state.items, incoming[k].uri@));
            }
        }
        lemma_new_photos_are_upserted(state, front, cap);
        lemma_insert_each_uris(state, front, cap);
        let now = insert_each(state, front, cap).items;
        lemma_uri_position(now, x.uri@);
        let at = uri_position(now, x.uri@);
        if at < now.len() {
            let y = now[at];
            assert(now.contains(y));
            if state.items.contains(y) {
                let m = choose|m: int| 0 <= m < state.items.len() && state.items[m] == y;
                assert(state.items[m].uri@ == x.uri@);
                assert(holds_uri(state.items, incoming[incoming.len() - 1].uri@));
            } else {
                let m = choose|m: int| 0 <= m < front.len() && front[m] == y;
                assert(incoming[m].uri@ != incoming[incoming.len() - 1].uri@);
            }
        }
    }
}

/// After a batch the list holds the newest photos there are, up to the cap: no
/// photo of the old list or of the batch that was left out precedes one that the
/// list holds, and none is left out while there is room. A startup scan that
/// finds the list full leaves it alone. Outside a startup scan no photo of the
/// batch may fall behind the place of the photo that it replaces.
pub proof fn the_newest_photos_are_kept(
    state: ListState,
    source: ChangeSource,
    incoming: Seq<MediaItem>,
    cap: int,
)
    requires
        in_media_order(state.items),
        distinct_uris(state.items),
        distinct_uris(incoming),
        state.items.len() <= cap,
        source == ChangeSource::StartupScan ==> state.items.len() < cap,
        source != ChangeSource::StartupScan ==> moves_none_back(state.items, incoming),
    ensures
        holds_the_newest(
            state.items,
            incoming,
            upserted(state, source, incoming, cap).items,
            cap,
        ),
{
    let sorted = sorted_by_media_order(incoming);
    let after = upserted(state, source, incoming, cap).items;
    lemma_sorted_has_the_items(incoming);
    assert forall|x: MediaItem|
        offered(state.items, sorted, x) <==> offered(state.items, incoming, x) by {
        assert(sorted.contains(x) <==> incoming.contains(x));
        lemma_holds_uri_sorted(incoming, x.uri@);
    }
    if incoming.len() == 0 {
        lemma_upsert_each_newest(state, incoming, cap);
    } else if !share_uri(state.items, incoming) {
        lemma_share_uri_sorted(state.items, incoming);
        lemma_new_photos_are_upserted(state, sorted, cap);
        assert(moves_none_back(state.items, sorted)) by {
            assert forall|i: int, j: int|
                #![trigger state.items[i], sorted[j]]
                0 <= i < state.items.len() && 0 <= j < sorted.len() && state.items[i].uri@
                    == sorted[j].uri@ implies !precedes(state.items[i], sorted[j]) by {
                assert(holds_uri(state.items, sorted[j].uri@));
            }
        }
        lemma_upsert_each_newest(state, sorted, cap);
    } else if source != ChangeSource::StartupScan {
        assert(moves_none_back(state.items, sorted)) by {
            assert forall|i: int, j: int|
                #![trigger state.items[i], sorted[j]]
                0 <= i < state.items.len() && 0 <= j < sorted.len() && state.items[i].uri@
                    == sorted[j].uri@ implies !precedes(state.items[i], sorted[j]) by {
                assert(sorted.contains(sorted[j]));
                let m = choose|m: int| 0 <= m < incoming.len() && incoming[m] == sorted[j];
                assert(!precedes(state.items[i], incoming[m]));
            }
        }
        lemma_upsert_each_newest(state, sorted, cap);
    } else {
        let latest = latest_by_uri(state.items + incoming);
        let all = sorted_by_media_order(latest);
        lemma_latest_delivers(state.items, incoming);
        lemma_sorted_has_the_items(latest);
        lemma_sorted_is_ordered(latest);
        lemma_upserted_keeps_order(state, source, incoming, cap);
        let merged = merged_items(state.items, incoming, cap);
        assert(state.splice(0, state.items.len() as int, merged).items =~= merged);
        assert forall|x: MediaItem| all.contains(x) <==> offered(state.items, incoming, x) by {
            assert(latest.contains(x) <==> incoming.contains(x) || state.items.contains(x)
                && !holds_uri(incoming, x.uri@));
        }
        assert forall|x: MediaItem| #[trigger] after.contains(x) implies offered(
            state.items,
            incoming,
            x,
        ) by {
            let k = choose|k: int| 0 <= k < after.len() && after[k] == x;
            assert(all[k] == x);
            assert(all.contains(x));
        }
        assert forall|x: MediaItem|
            offered(state.items, incoming, x) && !(#[trigger] after.contains(x)) implies after.len()
            == cap && forall|k: int| 0 <= k < after.len() ==> !precedes(x, #[trigger] after[k]) by {
            assert(all.contains(x));
            let m = choose|m: int| 0 <= m < all.len() && all[m] == x;
            if m < after.len() {
                assert(after[m] == x);
            }
            assert forall|k: int| 0 <= k < after.len() implies !precedes(x, #[trigger] after[k]) by {
                assert(!precedes(all[m], all[k]));
            }
        }
    }
}

/// Removed photos are those that the event names by uri, and photos that went to
/// the trash are those that it holds: all others stay, in their order.
pub proof fn removal_events_remove_what_they_name(
    state: ListState,
    source: ChangeSource,
    ids: Vec<i64>,
    uris: Vec<String>,
    items: Vec<MediaItem>,
    cap: int,
)
    ensures
        applied(state, DomainEvent::MediaRemoved { source, ids, uris }, cap).items
            == state.items.filter(
            |item: MediaItem|
                !exists|k: int| 0 <= k < uris@.len() && (#[trigger] uris@[k])@ == item.uri@,
        ),
        applied(state, DomainEvent::MediaMovedToTrash { source, items }, cap).items
            == state.items.filter(|item: MediaItem| !holds_uri(items@, item.uri@)),
{
    let named = texts(uris@);
    removal_keeps_the_rest_in_order(state, named);
    let left = |item: MediaItem|
        !exists|k: int| 0 <= k < uris@.len() && (#[trigger] uris@[k])@ == item.uri@;
    assert forall|item: MediaItem| #[trigger] is_hit(named, item) <==> exists|k: int|
        0 <= k < uris@.len() && (#[trigger] uris@[k])@ == item.uri@ by {
        if named.contains(item.uri@) {
            let k = choose|k: int| 0 <= k < named.len() && named[k] == item.uri@;
            assert(uris@[k]@ == item.uri@);
        }
        if exists|k: int| 0 <= k < uris@.len() && (#[trigger] uris@[k])@ == item.uri@ {
            let k = choose|k: int| 0 <= k < uris@.len() && (#[trigger] uris@[k])@ == item.uri@;
            assert(named[k] == item.uri@);
        }
    }
    assert((|item: MediaItem| !is_hit(named, item)) =~= left);
    let gone = uris_of(items@);
    removal_keeps_the_rest_in_order(state, gone);
    let kept = |item: MediaItem| !holds_uri(items@, item.uri@);
    assert forall|item: MediaItem| #[trigger]
        is_hit(gone, item) <==> holds_uri(items@, item.uri@) by {
        if gone.contains(item.uri@) {
            let k = choose|k: int| 0 <= k < gone.len() && gone[k] == item.uri@;
            assert(items@[k].uri@ == item.uri@);
        }
        if holds_uri(items@, item.uri@) {
            let k = choose|k: int|
                0 <= k < items@.len() && (#[trigger] items@[k]).uri@ == item.uri@;
            assert(gone[k] == item.uri@);
        }
    }
    assert((|item: MediaItem| !is_hit(gone, item)) =~= kept);
}

/// Changed photos reach the list even while a startup scan would leave it alone,
/// whoever changed them. Events that concern no photo change nothing.
pub proof fn updates_reach_a_full_list(
    state: ListState,
    source: ChangeSource,
    items: Vec<MediaItem>,
    cap: int,
    other: DomainEvent,
)
    requires
        in_media_order(state.items),
        distinct_uris(state.items),
        distinct_uris(items@),
        state.items.len() <= cap,
        moves_none_back(state.items, items@),
        !(other is MediaUpserted) && !(other is MediaUpdated) && !(other is MediaRemoved) && !(
        other is MediaMovedToTrash),
    ensures
        holds_the_newest(
            state.items,
            items@,
            applied(state, DomainEvent::MediaUpdated { source, items }, cap).items,
            cap,
        ),
        applied(state, other, cap) == state,
{
    the_newest_photos_are_kept(state, ChangeSource::UserInteractive, items@, cap);
}

/// Is the item at `k` the last one with its uri?
pub open spec fn is_latest(items: Seq<MediaItem>, k: int) -> bool {
    0 <= k < items.len() && forall|j: int|
        k < j < items.len() ==> (#[trigger] items[j]).uri@ != items[k].uri@
}

/// Of several entries with one uri the last one counts, in a batch as between the
/// list and a batch.
pub proof fn the_latest_entry_counts(items: Seq<MediaItem>)
    ensures
        forall|x: MediaItem|
            #[trigger] latest_by_uri(items).contains(x) <==> exists|k: int|
                #[trigger] is_latest(items, k) && items[k] == x,
        distinct_uris(latest_by_uri(items)),
    decreases items.len(),
{
    lemma_latest_is_distinct(items);
    if items.len() > 0 {
        let front = items.drop_last();
        let last = items.last();
        the_latest_entry_counts(front);
        lemma_put_latest(latest_by_uri(front), last);
        let now = latest_by_uri(items);
        assert forall|x: MediaItem| #[trigger] now.contains(x) <==> exists|k: int|
            #[trigger] is_latest(items, k) && items[k] == x by {
            if now.contains(x) {
                if x == last {
                    assert(is_latest(items, items.len() - 1));
                } else {
                    assert(latest_by_uri(front).contains(x));
                    let k = choose|k: int| #[trigger] is_latest(front, k) && front[k] == x;
                    assert(is_latest(items, k)) by {
                        assert forall|j: int| k < j < items.len() implies (
                        #[trigger] items[j]).uri@ != items[k].uri@ by {
                            if j < front.len() {
                                assert(front[j].uri@ != front[k].uri@);
                            }
                        }
                    }
                }
            }
            if exists|k: int| #[trigger] is_latest(items, k) && items[k] == x {
                let k = choose|k: int| #[trigger] is_latest(items, k) && items[k] == x;
                if k < front.len() {
                    assert(items[items.len() - 1].uri@ != items[k].uri@);
                    assert(is_latest(front, k)) by {
                        assert forall|j: int| k < j < front.len() implies (
                        #[trigger] front[j]).uri@ != front[k].uri@ by {
                            assert(items[j].uri@ != items[k].uri@);
                        }
                    }
                    assert(latest_by_uri(front).contains(x));
                }
            }
        }
    }
}

/// A startup scan that is merged with the list leaves one entry of each uri, the
/// last one there is, whatever the batch holds twice.
pub proof fn merging_keeps_the_latest_entries(
    items: Seq<MediaItem>,
    incoming: Seq<MediaItem>,
    cap: int,
    x: MediaItem,
)
    requires
        0 <= cap,
        merged_items(items, incoming, cap).contains(x),
    ensures
        exists|k: int| #[trigger] is_latest(items + incoming, k) && (items + incoming)[k] == x,
        in_media_order(merged_items(items, incoming, cap)),
        distinct_uris(merged_items(items, incoming, cap)),
{
    let latest = latest_by_uri(items + incoming);
    let all = sorted_by_media_order(latest);
    let merged = merged_items(items, incoming, cap);
    the_latest_entry_counts(items + incoming);
    lemma_sorted_has_the_items(latest);
    lemma_sorted_is_ordered(latest);
    let m = choose|m: int| 0 <= m < merged.len() && merged[m] == x;
    assert(all[m] == x);
    assert(all.contains(x));
    assert(latest.contains(x));
    assert forall|i: int, j: int|
        #![trigger merged[i], merged[j]]
        0 <= i < j < merged.len() implies !precedes(merged[j], merged[i]) && merged[i].uri@
        != merged[j].uri@ by {
        assert(all[i] == merged[i] && all[j] == merged[j]);
    }
}

} // verus!
