//! Applying library events to the shared media list.
//!
//! The list keeps the global photo order: sort time descending, then id
//! descending. It never grows past the configured cap, and each event changes
//! it by as few edits as possible, so that the grids that follow it can update
//! in place.

use crate::media::{compare_media_order, MediaItem, MediaOrder};
#[allow(unused_imports)]
use crate::media::{precedes, same_place};
use crate::media_list::MediaList;
#[allow(unused_imports)]
use crate::media_list::ListState;
use vstd::prelude::*;

verus! {

/// Where a change of the library came from.
#[derive(Clone, Copy, Debug, PartialEq, Eq, Structural)]
pub enum ChangeSource {
    StartupScan,
    FilesystemWatcher,
    UserInteractive,
}

/// A change of the library.
pub enum DomainEvent {
    MediaUpserted { source: ChangeSource, items: Vec<MediaItem> },
    MediaUpdated { source: ChangeSource, items: Vec<MediaItem> },
    MediaRemoved { source: ChangeSource, ids: Vec<i64>, uris: Vec<String> },
    MediaMovedToTrash { source: ChangeSource, items: Vec<MediaItem> },
    TrashChanged,
    MediaRestored,
    AlbumsChanged,
    AlbumCoverChanged,
    AlbumsDirty,
    ThumbnailStatsDirty,
    LiveCountDirty,
}

/// The runtime settings that the list obeys.
#[derive(Clone, Copy, Debug, PartialEq, Eq, Structural)]
pub struct ListConfig {
    pub ui_media_list_cap: u32,
}

/// The largest number of items the list may hold.
pub fn ui_media_list_cap(config: &ListConfig) -> (cap: u32)
    ensures
        cap == config.ui_media_list_cap,
{
    config.ui_media_list_cap
}

// ---------------------------------------------------------------------------
// Where items go

/// The position at which `item` enters `items`: in front of the first item that
/// it precedes, or at the end.
pub open spec fn insert_position(items: Seq<MediaItem>, item: MediaItem) -> int
    decreases items.len(),
{
    if items.len() == 0 || precedes(item, items[0]) {
        0
    } else {
        1 + insert_position(items.subrange(1, items.len() as int), item)
    }
}

/// The position of the first item with `uri`, or the length of `items`.
pub open spec fn uri_position(items: Seq<MediaItem>, uri: Seq<char>) -> int
    decreases items.len(),
{
    if items.len() == 0 || items[0].uri@ == uri {
        0
    } else {
        1 + uri_position(items.subrange(1, items.len() as int), uri)
    }
}

/// `insert_position` is the one place behind everything that `item` does not
/// precede, up to the first item that it does.
pub proof fn lemma_insert_position(items: Seq<MediaItem>, item: MediaItem)
    ensures
        0 <= insert_position(items, item) <= items.len(),
        forall|i: int|
            0 <= i < insert_position(items, item) ==> !precedes(item, #[trigger] items[i]),
        insert_position(items, item) < items.len() ==> precedes(
            item,
            items[insert_position(items, item)],
        ),
    decreases items.len(),
{
    if items.len() > 0 && !precedes(item, items[0]) {
        let rest = items.subrange(1, items.len() as int);
        lemma_insert_position(rest, item);
        let p = insert_position(rest, item);
        assert forall|i: int| 0 <= i < p + 1 implies !precedes(item, #[trigger] items[i]) by {
            if i > 0 {
                assert(rest[i - 1] == items[i]);
            }
        }
        if p < rest.len() {
            assert(rest[p] == items[p + 1]);
        }
    }
}

proof fn lemma_insert_position_is(items: Seq<MediaItem>, item: MediaItem, p: int)
    requires
        0 <= p <= items.len(),
        forall|i: int| 0 <= i < p ==> !precedes(item, #[trigger] items[i]),
        p < items.len() ==> precedes(item, items[p]),
    ensures
        insert_position(items, item) == p,
{
    lemma_insert_position(items, item);
    let q = insert_position(items, item);
    if p < q {
        assert(!precedes(item, items[p]));
    } else if q < p {
        assert(!precedes(item, items[q]));
    }
}

/// `uri_position` is the first place that holds the uri.
pub proof fn lemma_uri_position(items: Seq<MediaItem>, uri: Seq<char>)
    ensures
        0 <= uri_position(items, uri) <= items.len(),
        forall|i: int| 0 <= i < uri_position(items, uri) ==> (#[trigger] items[i]).uri@ != uri,
        uri_position(items, uri) < items.len() ==> items[uri_position(items, uri)].uri@ == uri,
    decreases items.len(),
{
    if items.len() > 0 && items[0].uri@ != uri {
        let rest = items.subrange(1, items.len() as int);
        lemma_uri_position(rest, uri);
        let p = uri_position(rest, uri);
        assert forall|i: int| 0 <= i < p + 1 implies (#[trigger] items[i]).uri@ != uri by {
            if i > 0 {
                assert(rest[i - 1] == items[i]);
            }
        }
        if p < rest.len() {
            assert(rest[p] == items[p + 1]);
        }
    }
}

proof fn lemma_uri_position_is(items: Seq<MediaItem>, uri: Seq<char>, p: int)
    requires
        0 <= p <= items.len(),
        forall|i: int| 0 <= i < p ==> (#[trigger] items[i]).uri@ != uri,
        p < items.len() ==> items[p].uri@ == uri,
    ensures
        uri_position(items, uri) == p,
{
    lemma_uri_position(items, uri);
    let q = uri_position(items, uri);
    if p < q {
        assert(items[p].uri@ != uri);
    } else if q < p {
        assert(items[q].uri@ != uri);
    }
}

/// Does `items` hold an item with `uri`?
pub open spec fn holds_uri(items: Seq<MediaItem>, uri: Seq<char>) -> bool {
    exists|i: int| 0 <= i < items.len() && (#[trigger] items[i]).uri@ == uri
}

/// Do the two lists share a uri?
pub open spec fn share_uri(items: Seq<MediaItem>, incoming: Seq<MediaItem>) -> bool {
    exists|i: int| 0 <= i < incoming.len() && holds_uri(items, (#[trigger] incoming[i]).uri@)
}

/// `items` put into photo order. Items of one place keep their order.
pub open spec fn sorted_by_media_order(items: Seq<MediaItem>) -> Seq<MediaItem>
    decreases items.len(),
{
    if items.len() == 0 {
        items
    } else {
        let front = sorted_by_media_order(items.drop_last());
        front.insert(insert_position(front, items.last()), items.last())
    }
}

/// `items` with only the last item of every uri, in the order in which the uris
/// first appear.
pub open spec fn latest_by_uri(items: Seq<MediaItem>) -> Seq<MediaItem>
    decreases items.len(),
{
    if items.len() == 0 {
        items
    } else {
        with_latest(latest_by_uri(items.drop_last()), items.last())
    }
}

/// `items` with `item` in the place of the first item with its uri, or at the
/// end.
pub open spec fn with_latest(items: Seq<MediaItem>, item: MediaItem) -> Seq<MediaItem> {
    let at = uri_position(items, item.uri@);
    if at < items.len() {
        items.update(at, item)
    } else {
        items.push(item)
    }
}

// ---------------------------------------------------------------------------
// What an event does

/// `item` inserted at `position` of a list that holds at most `cap` items: past
/// the cap it does not enter, and the last item makes room for it where needed.
pub open spec fn insert_capped(
    state: ListState,
    position: int,
    item: MediaItem,
    cap: int,
) -> ListState {
    if position >= cap {
        state
    } else {
        let grown = state.insert(position, item);
        if grown.items.len() > cap {
            grown.remove(grown.items.len() - 1)
        } else {
            grown
        }
    }
}

/// New items inserted one after the other, each at its place in the order.
pub open spec fn insert_each(
    state: ListState,
    incoming: Seq<MediaItem>,
    cap: int,
) -> ListState
    decreases incoming.len(),
{
    if incoming.len() == 0 {
        state
    } else {
        let before = insert_each(state, incoming.drop_last(), cap);
        let item = incoming.last();
        insert_capped(before, insert_position(before.items, item), item, cap)
    }
}

/// One item inserted, or put in the place of the first item with its uri. An
/// item whose place in the order did not change stays where it was.
pub open spec fn upsert_one(state: ListState, item: MediaItem, cap: int) -> ListState {
    let at = uri_position(state.items, item.uri@);
    if at < state.items.len() {
        let without = state.remove(at);
        let position = if same_place(item, state.items[at]) {
            at
        } else {
            insert_position(without.items, item)
        };
        insert_capped(without, position, item, cap)
    } else {
        insert_capped(state, insert_position(state.items, item), item, cap)
    }
}

/// Items inserted or replaced one after the other.
pub open spec fn upsert_each(
    state: ListState,
    incoming: Seq<MediaItem>,
    cap: int,
) -> ListState
    decreases incoming.len(),
{
    if incoming.len() == 0 {
        state
    } else {
        upsert_one(upsert_each(state, incoming.drop_last(), cap), incoming.last(), cap)
    }
}

/// The old and the incoming items merged by uri, incoming ones winning, in
/// photo order and cut at the cap.
pub open spec fn merged_items(
    items: Seq<MediaItem>,
    incoming: Seq<MediaItem>,
    cap: int,
) -> Seq<MediaItem> {
    let all = sorted_by_media_order(latest_by_uri(items + incoming));
    if all.len() > cap {
        all.subrange(0, cap)
    } else {
        all
    }
}

/// The list after a batch of new or changed items.
pub open spec fn upserted(
    state: ListState,
    source: ChangeSource,
    incoming: Seq<MediaItem>,
    cap: int,
) -> ListState {
    if incoming.len() == 0 {
        state
    } else if source == ChangeSource::StartupScan && state.items.len() >= cap {
        state
    } else if !share_uri(state.items, incoming) {
        insert_each(state, sorted_by_media_order(incoming), cap)
    } else if source != ChangeSource::StartupScan {
        upsert_each(state, sorted_by_media_order(incoming), cap)
    } else {
        state.splice(0, state.items.len() as int, merged_items(state.items, incoming, cap))
    }
}

/// Is the item's uri one of `uris`?
pub open spec fn is_hit(uris: Seq<Seq<char>>, item: MediaItem) -> bool {
    uris.contains(item.uri@)
}

/// The start of the run of hits that ends just before `end`.
pub open spec fn run_start(items: Seq<MediaItem>, uris: Seq<Seq<char>>, end: int) -> int
    decreases end,
{
    if end <= 0 || !is_hit(uris, items[end - 1]) {
        end
    } else {
        run_start(items, uris, end - 1)
    }
}

/// The list after removing the hits in front of `end`, a whole run of
/// neighbouring hits at a time, from the last run to the first. `items` is the
/// list before the first removal.
pub open spec fn remove_runs(
    state: ListState,
    items: Seq<MediaItem>,
    uris: Seq<Seq<char>>,
    end: int,
) -> ListState
    decreases end,
{
    if end <= 0 {
        state
    } else if !is_hit(uris, items[end - 1]) {
        remove_runs(state, items, uris, end - 1)
    } else {
        let start = run_start(items, uris, end);
        if 0 <= start < end {
            remove_runs(
                state.splice(start, end - start, Seq::<MediaItem>::empty()),
                items,
                uris,
                start,
            )
        } else {
            state
        }
    }
}

/// The list after removing every item whose uri is one of `uris`.
pub open spec fn without_uris(state: ListState, uris: Seq<Seq<char>>) -> ListState {
    remove_runs(state, state.items, uris, state.items.len() as int)
}

/// The texts of a list of strings.
pub open spec fn texts(strings: Seq<String>) -> Seq<Seq<char>> {
    strings.map_values(|s: String| s@)
}

/// The uris of a list of items.
pub open spec fn uris_of(items: Seq<MediaItem>) -> Seq<Seq<char>> {
    items.map_values(|item: MediaItem| item.uri@)
}

/// The list after an event.
pub open spec fn applied(state: ListState, event: DomainEvent, cap: int) -> ListState {
    match event {
        DomainEvent::MediaUpserted { source, items } => upserted(state, source, items@, cap),
        DomainEvent::MediaUpdated { source: _, items } => upserted(
            state,
            ChangeSource::UserInteractive,
            items@,
            cap,
        ),
        DomainEvent::MediaRemoved { source: _, ids: _, uris } => without_uris(state, texts(uris@)),
        DomainEvent::MediaMovedToTrash { source: _, items } => without_uris(
            state,
            uris_of(items@),
        ),
        _ => state,
    }
}

// ---------------------------------------------------------------------------
// The code

/// Apply an event to `list`, keeping the global photo order and the cap.
pub fn apply_to_media_list(list: &mut MediaList, event: &DomainEvent, cap: u32)
    requires
        old(list)@.items.len() < u32::MAX,
        cap < u32::MAX,
    ensures
        final(list).wf(),
        final(list)@ == applied(old(list)@, *event, cap as int),
{
    match event {
        DomainEvent::MediaUpserted { source, items } => {
            apply_upserted_batch(list, *source, items, cap);
        },
        DomainEvent::MediaUpdated { source: _, items } => {
            apply_upserted_batch(list, ChangeSource::UserInteractive, items, cap);
        },
        DomainEvent::MediaRemoved { source: _, ids: _, uris } => {
            remove_uris_batch(list, uris);
        },
        DomainEvent::MediaMovedToTrash { source: _, items } => {
            let uris: Vec<String> = collect_uris(items);
            remove_uris_batch(list, &uris);
        },
        DomainEvent::TrashChanged
        | DomainEvent::MediaRestored
        | DomainEvent::AlbumsChanged
        | DomainEvent::AlbumCoverChanged
        | DomainEvent::AlbumsDirty
        | DomainEvent::ThumbnailStatsDirty
        | DomainEvent::LiveCountDirty => {},
    }
}

/// The uris of `items`.
fn collect_uris(items: &Vec<MediaItem>) -> (uris: Vec<String>)
    ensures
        texts(uris@) == uris_of(items@),
{
    let mut uris: Vec<String> = Vec::new();
    let mut i: usize = 0;
    while i < items.len()
        invariant
            i <= items@.len(),
            uris@.len() == i,
            forall|k: int| 0 <= k < i ==> (#[trigger] uris@[k])@ == items@[k].uri@,
        decreases items@.len() - i,
    {
        uris.push(items[i].uri.clone());
        i += 1;
    }
    assert(texts(uris@) =~= uris_of(items@));
    uris
}

fn contains_uri(uris: &Vec<String>, uri: &String) -> (found: bool)
    ensures
        found == texts(uris@).contains(uri@),
{
    let mut i: usize = 0;
    while i < uris.len()
        invariant
            i <= uris@.len(),
            forall|k: int| 0 <= k < i ==> (#[trigger] uris@[k])@ != uri@,
        decreases uris@.len() - i,
    {
        if uris[i] == *uri {
            assert(texts(uris@)[i as int] == uri@);
            return true;
        }
        i += 1;
    }
    assert forall|k: int| 0 <= k < texts(uris@).len() implies #[trigger] texts(uris@)[k] != uri@ by {
        assert(texts(uris@)[k] == uris@[k]@);
    }
    false
}

fn is_hit_at(list: &MediaList, index: u32, uris: &Vec<String>) -> (hit: bool)
    requires
        index < list@.items.len(),
    ensures
        hit == is_hit(texts(uris@), list@.items[index as int]),
{
    let item: &MediaItem = list.item(index).unwrap();
    contains_uri(uris, &item.uri)
}

/// Remove every item whose uri is one of `uris`. Neighbouring hits go in one
/// edit, and the runs go from the last to the first.
fn remove_uris_batch(list: &mut MediaList, uris: &Vec<String>)
    requires
        old(list).wf(),
    ensures
        final(list).wf(),
        final(list)@ == without_uris(old(list)@, texts(uris@)),
{
    let ghost items = list@.items;
    let ghost hits = texts(uris@);
    let mut end: u32 = list.n_items();
    while end > 0
        invariant
            list.wf(),
            hits == texts(uris@),
            items == old(list)@.items,
            end <= items.len(),
            end <= list@.items.len(),
            forall|k: int| 0 <= k < end ==> list@.items[k] == #[trigger] items[k],
            without_uris(old(list)@, hits) == remove_runs(list@, items, hits, end as int),
        decreases end,
    {
        if !is_hit_at(list, end - 1, uris) {
            end -= 1;
        } else {
            let mut start: u32 = end - 1;
            while start > 0 && is_hit_at(list, start - 1, uris)
                invariant
                    list.wf(),
                    hits == texts(uris@),
                    start < end <= items.len(),
                    end <= list@.items.len(),
                    forall|k: int| 0 <= k < end ==> list@.items[k] == #[trigger] items[k],
                    run_start(items, hits, end as int) == run_start(items, hits, start as int),
                decreases start,
            {
                start -= 1;
            }
            let none: Vec<MediaItem> = Vec::new();
            assert(none@ =~= Seq::<MediaItem>::empty());
            list.splice(start, end - start, none);
            end = start;
        }
    }
}

fn apply_upserted_batch(
    list: &mut MediaList,
    source: ChangeSource,
    items: &Vec<MediaItem>,
    cap: u32,
)
    requires
        old(list)@.items.len() < u32::MAX,
        cap < u32::MAX,
    ensures
        final(list).wf(),
        final(list)@ == upserted(old(list)@, source, items@, cap as int),
{
    if items.is_empty() {
        return;
    }
    if source == ChangeSource::StartupScan && list.n_items() >= cap {
        return;
    }
    if apply_absent_item_insertions(list, items, cap) {
        return;
    }
    if apply_targeted_upserts(list, source, items, cap) {
        return;
    }
    let merged: Vec<MediaItem> = merge_by_uri(list, items, cap);
    let len: u32 = list.n_items();
    list.splice(0, len, merged);
}

/// The items of `list` and `items` merged by uri, in photo order, cut at `cap`.
fn merge_by_uri(list: &MediaList, items: &Vec<MediaItem>, cap: u32) -> (merged: Vec<MediaItem>)
    requires
        list.wf(),
    ensures
        merged@ == merged_items(list@.items, items@, cap as int),
        merged@.len() <= cap,
{
    let ghost all = list@.items + items@;
    let mut latest: Vec<MediaItem> = Vec::new();
    let n: u32 = list.n_items();
    let mut i: u32 = 0;
    assert(all.subrange(0, 0) =~= Seq::<MediaItem>::empty());
    while i < n
        invariant
            list.wf(),
            n == list@.items.len(),
            i <= n,
            all == list@.items + items@,
            latest@ == latest_by_uri(all.subrange(0, i as int)),
        decreases n - i,
    {
        let item: MediaItem = list.item(i).unwrap().clone();
        proof {
            assert(all.subrange(0, i + 1).drop_last() =~= all.subrange(0, i as int));
            assert(all.subrange(0, i + 1).last() == item);
        }
        put_latest(&mut latest, item);
        i += 1;
    }
    let mut k: usize = 0;
    while k < items.len()
        invariant
            n == list@.items.len(),
            k <= items@.len(),
            all == list@.items + items@,
            latest@ == latest_by_uri(all.subrange(0, n + k)),
        decreases items@.len() - k,
    {
        let item: MediaItem = items[k].clone();
        proof {
            assert(all.subrange(0, n + k + 1).drop_last() =~= all.subrange(0, n + k));
            assert(all.subrange(0, n + k + 1).last() == item);
        }
        put_latest(&mut latest, item);
        k += 1;
    }
    assert(all.subrange(0, all.len() as int) =~= all);
    let mut merged: Vec<MediaItem> = sort_by_media_order(&latest);
    if merged.len() > cap as usize {
        merged.truncate(cap as usize);
    }
    merged
}

/// Replace the item with the uri of `item`, or append it.
fn put_latest(latest: &mut Vec<MediaItem>, item: MediaItem)
    ensures
        final(latest)@ == with_latest(old(latest)@, item),
{
    let mut i: usize = 0;
    while i < latest.len()
        invariant
            latest@ == old(latest)@,
            i <= latest@.len(),
            forall|k: int| 0 <= k < i ==> (#[trigger] latest@[k]).uri@ != item.uri@,
        decreases latest@.len() - i,
    {
        if latest[i].uri == item.uri {
            proof {
                lemma_uri_position_is(latest@, item.uri@, i as int);
            }
            latest.set(i, item);
            return;
        }
        i += 1;
    }
    proof {
        lemma_uri_position_is(latest@, item.uri@, i as int);
    }
    latest.push(item);
}

/// The items in photo order; items of one place keep their order.
fn sort_by_media_order(items: &Vec<MediaItem>) -> (sorted: Vec<MediaItem>)
    ensures
        sorted@ == sorted_by_media_order(items@),
        sorted@.len() == items@.len(),
{
    let mut sorted: Vec<MediaItem> = Vec::new();
    let mut i: usize = 0;
    assert(items@.subrange(0, 0) =~= Seq::<MediaItem>::empty());
    while i < items.len()
        invariant
            i <= items@.len(),
            sorted@ == sorted_by_media_order(items@.subrange(0, i as int)),
            sorted@.len() == i,
        decreases items@.len() - i,
    {
        let item: MediaItem = items[i].clone();
        let mut p: usize = 0;
        while p < sorted.len() && compare_media_order(&item, &sorted[p]) != MediaOrder::Before
            invariant
                p <= sorted@.len(),
                forall|k: int| 0 <= k < p ==> !precedes(item, #[trigger] sorted@[k]),
            decreases sorted@.len() - p,
        {
            p += 1;
        }
        proof {
            lemma_insert_position_is(sorted@, item, p as int);
            assert(items@.subrange(0, i + 1).drop_last() =~= items@.subrange(0, i as int));
            assert(items@.subrange(0, i + 1).last() == item);
        }
        sorted.insert(p, item);
        i += 1;
    }
    assert(items@.subrange(0, items@.len() as int) =~= items@);
    sorted
}

/// The position at which `item` enters `list`.
fn sorted_insert_position(list: &MediaList, item: &MediaItem) -> (position: u32)
    requires
        list.wf(),
    ensures
        position == insert_position(list@.items, *item),
        position <= list@.items.len(),
{
    let n: u32 = list.n_items();
    let mut i: u32 = 0;
    while i < n
        invariant
            n == list@.items.len(),
            i <= n,
            forall|k: int| 0 <= k < i ==> !precedes(*item, #[trigger] list@.items[k]),
        decreases n - i,
    {
        let existing: &MediaItem = list.item(i).unwrap();
        if compare_media_order(item, existing) == MediaOrder::Before {
            proof {
                lemma_insert_position_is(list@.items, *item, i as int);
            }
            return i;
        }
        i += 1;
    }
    proof {
        lemma_insert_position_is(list@.items, *item, n as int);
    }
    n
}

/// Insert `item` at `position` unless that is past the cap, and drop the last
/// item where the list grew over it.
fn insert_within_cap(list: &mut MediaList, position: u32, item: MediaItem, cap: u32)
    requires
        old(list)@.items.len() < u32::MAX,
        position <= old(list)@.items.len(),
        cap < u32::MAX,
    ensures
        final(list)@ == insert_capped(old(list)@, position as int, item, cap as int),
        final(list)@.items.len() < u32::MAX,
{
    if position >= cap {
        return;
    }
    list.insert(position, item);
    let len: u32 = list.n_items();
    if len > cap {
        list.remove(len - 1);
    }
}

/// Insert items of which none is in the list yet. Leaves the list alone and
/// returns `false` when one of them is.
fn apply_absent_item_insertions(
    list: &mut MediaList,
    items: &Vec<MediaItem>,
    cap: u32,
) -> (done: bool)
    requires
        old(list)@.items.len() < u32::MAX,
        cap < u32::MAX,
    ensures
        final(list)@.items.len() < u32::MAX,
        done == !share_uri(old(list)@.items, items@),
        final(list)@ == if done {
            insert_each(old(list)@, sorted_by_media_order(items@), cap as int)
        } else {
            old(list)@
        },
{
    let mut i: usize = 0;
    while i < items.len()
        invariant
            list@ == old(list)@,
            list@.items.len() < u32::MAX,
            i <= items@.len(),
            forall|k: int| 0 <= k < i ==> !holds_uri(list@.items, (#[trigger] items@[k]).uri@),
        decreases items@.len() - i,
    {
        if find_uri(list, &items[i].uri).is_some() {
            return false;
        }
        i += 1;
    }
    let incoming: Vec<MediaItem> = sort_by_media_order(items);
    let mut k: usize = 0;
    assert(incoming@.subrange(0, 0) =~= Seq::<MediaItem>::empty());
    while k < incoming.len()
        invariant
            k <= incoming@.len(),
            cap < u32::MAX,
            list@.items.len() < u32::MAX,
            list@ == insert_each(old(list)@, incoming@.subrange(0, k as int), cap as int),
        decreases incoming@.len() - k,
    {
        let item: MediaItem = incoming[k].clone();
        proof {
            assert(incoming@.subrange(0, k + 1).drop_last() =~= incoming@.subrange(0, k as int));
            assert(incoming@.subrange(0, k + 1).last() == item);
        }
        let position: u32 = sorted_insert_position(list, &item);
        insert_within_cap(list, position, item, cap);
        k += 1;
    }
    assert(incoming@.subrange(0, incoming@.len() as int) =~= incoming@);
    true
}

/// The position of the first item with `uri`.
pub fn find_uri(list: &MediaList, uri: &String) -> (position: Option<u32>)
    requires
        list.wf(),
    ensures
        position is Some <==> holds_uri(list@.items, uri@),
        position matches Some(p) ==> p < list@.items.len() && p == uri_position(
            list@.items,
            uri@,
        ),
        position is None ==> uri_position(list@.items, uri@) == list@.items.len(),
{
    let n: u32 = list.n_items();
    let mut i: u32 = 0;
    while i < n
        invariant
            n == list@.items.len(),
            i <= n,
            forall|k: int| 0 <= k < i ==> (#[trigger] list@.items[k]).uri@ != uri@,
        decreases n - i,
    {
        let existing: &MediaItem = list.item(i).unwrap();
        if existing.uri == *uri {
            proof {
                lemma_uri_position_is(list@.items, uri@, i as int);
            }
            return Some(i);
        }
        i += 1;
    }
    proof {
        lemma_uri_position_is(list@.items, uri@, n as int);
    }
    None
}

/// Insert or replace items one by one. A startup scan leaves that to the batch
/// merge: the list stays alone and the result is `false`.
fn apply_targeted_upserts(
    list: &mut MediaList,
    source: ChangeSource,
    items: &Vec<MediaItem>,
    cap: u32,
) -> (done: bool)
    requires
        old(list)@.items.len() < u32::MAX,
        cap < u32::MAX,
    ensures
        final(list)@.items.len() < u32::MAX,
        done == (source != ChangeSource::StartupScan),
        final(list)@ == if done {
            upsert_each(old(list)@, sorted_by_media_order(items@), cap as int)
        } else {
            old(list)@
        },
{
    if source == ChangeSource::StartupScan {
        return false;
    }
    let incoming: Vec<MediaItem> = sort_by_media_order(items);
    let mut k: usize = 0;
    assert(incoming@.subrange(0, 0) =~= Seq::<MediaItem>::empty());
    while k < incoming.len()
        invariant
            k <= incoming@.len(),
            cap < u32::MAX,
            list@.items.len() < u32::MAX,
            list@ == upsert_each(old(list)@, incoming@.subrange(0, k as int), cap as int),
        decreases incoming@.len() - k,
    {
        let item: MediaItem = incoming[k].clone();
        proof {
            assert(incoming@.subrange(0, k + 1).drop_last() =~= incoming@.subrange(0, k as int));
            assert(incoming@.subrange(0, k + 1).last() == item);
        }
        match find_uri(list, &item.uri) {
            Some(at) => {
                let keeps_place: bool = compare_media_order(&item, list.item(at).unwrap())
                    == MediaOrder::Same;
                list.remove(at);
                let position: u32 = if keeps_place {
                    at
                } else {
                    sorted_insert_position(list, &item)
                };
                insert_within_cap(list, position, item, cap);
            },
            None => {
                let position: u32 = sorted_insert_position(list, &item);
                insert_within_cap(list, position, item, cap);
            },
        }
        k += 1;
    }
    assert(incoming@.subrange(0, incoming@.len() as int) =~= incoming@);
    true
}

} // verus!
